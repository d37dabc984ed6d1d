//! Launch and supervise one child process: which signal the child is sent for
//! each signal the supervisor receives, which signal is remembered as the
//! reason for termination, and which exit code the supervisor reports.
//!
//! The modules around that core prepare the child's command line and the text
//! handed to it.

pub mod cli;
pub mod compat_version;
pub mod lua;
pub mod nginx;
pub mod order;
pub mod run;
pub mod supervisor;
pub mod test_utils;
pub mod text;
pub mod types;
pub mod util;
