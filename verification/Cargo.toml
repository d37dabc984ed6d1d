[package]
name = "rusty_cli"
version = "0.1.0"
edition = "2021"
publish = false

[dependencies]
shlex = "=1.3.0"
libc = "=0.2.191"
nix = { version = "=0.31.3", features = ["signal", "fs", "process", "feature"] }
clap = "=4.6.7"
minijinja = "=2.24.0"
