//! The life of one supervised run, as a machine that is told what happened
//! and answers with what to do next.
//!
//! The caller owns the handlers, the child and the wait call. It performs each
//! [`Action`] and reports the result as the next [`Event`].

use vstd::prelude::*;
use vstd::string::*;
use crate::run::{
    exit_code, handled_order, handled_signal, is_anomalous, latch_after_all,
    lemma_first_latching_signal_wins, lemma_unlatched_signals_keep_exit_code, resolve,
    ChildStatus, Latch, Signal, EXIT_SETUP_FAILURE, EXIT_SIGNAL_BASE, HANDLED_SIGNALS,
};

verus! {

/// Where a run stands.
#[derive(Debug, Clone, Copy, PartialEq, Eq, Structural)]
pub enum Phase {
    /// Nothing is installed and no child exists.
    Idle,
    /// Handlers are being installed, one signal at a time.
    Installing,
    /// Every handler is installed and the child is about to be spawned.
    GuardsInstalled,
    /// The child runs and its pid is about to be published to the handler.
    Spawned,
    /// The child's pid is published and the run is blocked on the child.
    Waiting,
    /// The handlers are being put back before the run concludes.
    Releasing,
    /// The child was reaped and the exit code is settled.
    Resolved,
    /// Waiting itself failed; the child was killed.
    WaitFailed,
}

/// What there is to say on the error stream.
#[derive(Debug, Clone, Copy, PartialEq, Eq, Structural)]
pub enum Diagnostic {
    /// The handler for this signal could not be installed.
    HandlerNotInstalled(Signal),
    /// The command could not be spawned.
    SpawnFailed,
    /// The wait call failed.
    WaitFailed,
    /// The child left neither a status code nor a signal.
    NoStatusNoSignal,
}

impl Diagnostic {
    /// The line for the error stream. `program` is the command that was to
    /// be run and `detail` what the system said of the failure; a line takes
    /// in only what concerns it.
    pub open spec fn text(self, program: Seq<char>, detail: Seq<char>) -> Seq<char> {
        match self {
            Diagnostic::HandlerNotInstalled(sig) => "sigaction("@ + sig.spec_name() + ") failure => "@
                + detail,
            Diagnostic::SpawnFailed => "ERROR: failed to run command \""@ + program + "\": "@
                + detail,
            Diagnostic::WaitFailed => "failed waiting for child process to exit: "@ + detail,
            Diagnostic::NoStatusNoSignal => {
                "WARN: nginx exited without a status code but was not signaled"@
            },
        }
    }

    /// The line for the error stream.
    pub fn message(&self, program: &str, detail: &str) -> (s: String)
        ensures
            s@ == self.text(program@, detail@),
    {
        match self {
            Diagnostic::HandlerNotInstalled(sig) => {
                let mut s = String::from_str("sigaction(");
                s.append(sig.name());
                s.append(") failure => ");
                s.append(detail);
                s
            },
            Diagnostic::SpawnFailed => {
                let mut s = String::from_str("ERROR: failed to run command \"");
                s.append(program);
                s.append("\": ");
                s.append(detail);
                s
            },
            Diagnostic::WaitFailed => {
                let mut s = String::from_str("failed waiting for child process to exit: ");
                s.append(detail);
                s
            },
            Diagnostic::NoStatusNoSignal => String::from_str(
                "WARN: nginx exited without a status code but was not signaled",
            ),
        }
    }
}

/// What the run will conclude with once the handlers are put back.
#[derive(Debug, Clone, Copy, PartialEq, Eq, Structural)]
pub enum Pending {
    Nothing,
    /// Setup failed before a child existed.
    SetupFailure(Diagnostic),
    /// The child was reaped with this status.
    Reaped(ChildStatus),
    /// The wait call failed.
    WaitFailure,
}

/// What the caller reports back.
#[derive(Debug, Clone, Copy, PartialEq, Eq, Structural)]
pub enum Event {
    /// The run is asked to begin.
    Start,
    /// The handler asked for is installed.
    GuardInstalled,
    /// The handler asked for could not be installed.
    GuardFailed,
    /// The child runs under this pid.
    Spawned(i32),
    /// The child could not be spawned.
    SpawnFailed,
    /// The pid is stored where the handler reads it.
    PidPublished,
    /// The wait call returned the child's status.
    Reaped(ChildStatus),
    /// The wait call itself failed.
    WaitFailed,
    /// Every handler is put back; the latch, read afterwards, held this.
    GuardsReleased(Option<Signal>),
}

/// How a run ends.
#[derive(Debug, Clone, Copy, PartialEq, Eq, Structural)]
pub struct Outcome {
    /// The supervisor's exit code.
    pub code: i32,
    /// What to print first, if anything.
    pub diagnostic: Option<Diagnostic>,
    /// Whether the child is to be killed before returning.
    pub kill_child: bool,
}

/// What the caller is to do next.
#[derive(Debug, Clone, Copy, PartialEq, Eq, Structural)]
pub enum Action {
    /// Install the handler for this signal, keeping the previous disposition.
    InstallGuard(Signal),
    /// Spawn the command.
    Spawn,
    /// Store this pid where the handler reads it, once.
    PublishPid(i32),
    /// Block until the child is reaped.
    Wait,
    /// Put back the previous disposition of this many installed handlers,
    /// which is all of them.
    ReleaseGuards(usize),
    /// Conclude the run.
    Exit(Outcome),
    /// The event does not belong to the current phase; nothing changed.
    Unexpected,
}

/// The state of one run.
#[derive(Debug, Clone, Copy, PartialEq, Eq, Structural)]
pub struct Supervisor {
    pub phase: Phase,
    /// How many handlers are installed at the moment.
    pub guards: usize,
    /// The child's pid; zero while there is no child.
    pub child_pid: i32,
    pub pending: Pending,
}

impl Supervisor {
    /// The state before anything has happened.
    pub open spec fn idle() -> Supervisor {
        Supervisor { phase: Phase::Idle, guards: 0, child_pid: 0, pending: Pending::Nothing }
    }

    /// The states a run can be in.
    pub open spec fn wf(self) -> bool {
        match self.phase {
            Phase::Idle => self.guards == 0 && self.child_pid == 0 && self.pending is Nothing,
            Phase::Installing => self.guards < HANDLED_SIGNALS && self.child_pid == 0
                && self.pending is Nothing,
            Phase::GuardsInstalled => self.guards == HANDLED_SIGNALS && self.child_pid == 0
                && self.pending is Nothing,
            Phase::Spawned | Phase::Waiting => self.guards == HANDLED_SIGNALS
                && self.pending is Nothing,
            Phase::Releasing => self.guards <= HANDLED_SIGNALS && match self.pending {
                Pending::Nothing => false,
                Pending::SetupFailure(_) => self.child_pid == 0,
                _ => self.guards == HANDLED_SIGNALS,
            },
            Phase::Resolved | Phase::WaitFailed => self.guards == 0 && self.pending is Nothing,
        }
    }

    /// The state and the action that follow `event`.
    pub open spec fn next(self, event: Event) -> (Supervisor, Action) {
        match (self.phase, event) {
            (Phase::Idle, Event::Start) => (
                Supervisor { phase: Phase::Installing, ..self },
                Action::InstallGuard(handled_order()[0]),
            ),
            (Phase::Installing, Event::GuardInstalled) => if self.guards + 1 < HANDLED_SIGNALS {
                (
                    Supervisor { guards: (self.guards + 1) as usize, ..self },
                    Action::InstallGuard(handled_order()[self.guards + 1]),
                )
            } else if self.guards + 1 == HANDLED_SIGNALS {
                (
                    Supervisor {
                        phase: Phase::GuardsInstalled,
                        guards: (self.guards + 1) as usize,
                        ..self
                    },
                    Action::Spawn,
                )
            } else {
                (self, Action::Unexpected)
            },
            (Phase::Installing, Event::GuardFailed) => if self.guards < HANDLED_SIGNALS {
                (
                    Supervisor {
                        phase: Phase::Releasing,
                        pending: Pending::SetupFailure(
                            Diagnostic::HandlerNotInstalled(handled_order()[self.guards as int]),
                        ),
                        ..self
                    },
                    Action::ReleaseGuards(self.guards),
                )
            } else {
                (self, Action::Unexpected)
            },
            (Phase::GuardsInstalled, Event::Spawned(pid)) => (
                Supervisor { phase: Phase::Spawned, child_pid: pid, ..self },
                Action::PublishPid(pid),
            ),
            (Phase::Spawned, Event::PidPublished) => (
                Supervisor { phase: Phase::Waiting, ..self },
                Action::Wait,
            ),
            (Phase::GuardsInstalled, Event::SpawnFailed) => (
                Supervisor {
                    phase: Phase::Releasing,
                    pending: Pending::SetupFailure(Diagnostic::SpawnFailed),
                    ..self
                },
                Action::ReleaseGuards(self.guards),
            ),
            (Phase::Waiting, Event::Reaped(status)) => (
                Supervisor { phase: Phase::Releasing, pending: Pending::Reaped(status), ..self },
                Action::ReleaseGuards(self.guards),
            ),
            (Phase::Waiting, Event::WaitFailed) => (
                Supervisor { phase: Phase::Releasing, pending: Pending::WaitFailure, ..self },
                Action::ReleaseGuards(self.guards),
            ),
            (Phase::Releasing, Event::GuardsReleased(latched)) => match self.pending {
                Pending::SetupFailure(diagnostic) => (
                    Supervisor::idle(),
                    Action::Exit(
                        Outcome {
                            code: EXIT_SETUP_FAILURE,
                            diagnostic: Some(diagnostic),
                            kill_child: false,
                        },
                    ),
                ),
                Pending::Reaped(status) => (
                    Supervisor {
                        phase: Phase::Resolved,
                        guards: 0,
                        pending: Pending::Nothing,
                        ..self
                    },
                    Action::Exit(
                        Outcome {
                            code: exit_code(latched, status) as i32,
                            diagnostic: if is_anomalous(latched, status) {
                                Some(Diagnostic::NoStatusNoSignal)
                            } else {
                                None
                            },
                            kill_child: false,
                        },
                    ),
                ),
                Pending::WaitFailure => (
                    Supervisor {
                        phase: Phase::WaitFailed,
                        guards: 0,
                        pending: Pending::Nothing,
                        ..self
                    },
                    Action::Exit(
                        Outcome {
                            code: (Signal::Kill.number() + EXIT_SIGNAL_BASE) as i32,
                            diagnostic: Some(Diagnostic::WaitFailed),
                            kill_child: true,
                        },
                    ),
                ),
                Pending::Nothing => (self, Action::Unexpected),
            },
            _ => (self, Action::Unexpected),
        }
    }

    /// A run that has not begun.
    pub fn new() -> (s: Supervisor)
        ensures
            s == Supervisor::idle(),
            s.wf(),
    {
        Supervisor { phase: Phase::Idle, guards: 0, child_pid: 0, pending: Pending::Nothing }
    }

    /// Takes in what happened and answers with what to do next.
    pub fn step(&mut self, event: Event) -> (action: Action)
        ensures
            (*final(self), action) == old(self).next(event),
            old(self).wf() ==> final(self).wf(),
    {
        match (self.phase, event) {
            (Phase::Idle, Event::Start) => {
                self.phase = Phase::Installing;
                match handled_signal(0) {
                    Some(sig) => Action::InstallGuard(sig),
                    None => Action::Unexpected,
                }
            },
            (Phase::Installing, Event::GuardInstalled) => {
                if self.guards < HANDLED_SIGNALS - 1 {
                    self.guards = self.guards + 1;
                    match handled_signal(self.guards) {
                        Some(sig) => Action::InstallGuard(sig),
                        None => Action::Unexpected,
                    }
                } else if self.guards == HANDLED_SIGNALS - 1 {
                    self.guards = self.guards + 1;
                    self.phase = Phase::GuardsInstalled;
                    Action::Spawn
                } else {
                    Action::Unexpected
                }
            },
            (Phase::Installing, Event::GuardFailed) => {
                match handled_signal(self.guards) {
                    Some(sig) => {
                        self.phase = Phase::Releasing;
                        self.pending = Pending::SetupFailure(Diagnostic::HandlerNotInstalled(sig));
                        Action::ReleaseGuards(self.guards)
                    },
                    None => Action::Unexpected,
                }
            },
            (Phase::GuardsInstalled, Event::Spawned(pid)) => {
                self.phase = Phase::Spawned;
                self.child_pid = pid;
                Action::PublishPid(pid)
            },
            (Phase::Spawned, Event::PidPublished) => {
                self.phase = Phase::Waiting;
                Action::Wait
            },
            (Phase::GuardsInstalled, Event::SpawnFailed) => {
                self.phase = Phase::Releasing;
                self.pending = Pending::SetupFailure(Diagnostic::SpawnFailed);
                Action::ReleaseGuards(self.guards)
            },
            (Phase::Waiting, Event::Reaped(status)) => {
                self.phase = Phase::Releasing;
                self.pending = Pending::Reaped(status);
                Action::ReleaseGuards(self.guards)
            },
            (Phase::Waiting, Event::WaitFailed) => {
                self.phase = Phase::Releasing;
                self.pending = Pending::WaitFailure;
                Action::ReleaseGuards(self.guards)
            },
            (Phase::Releasing, Event::GuardsReleased(latched)) => {
                match self.pending {
                    Pending::SetupFailure(diagnostic) => {
                        self.phase = Phase::Idle;
                        self.guards = 0;
                        self.child_pid = 0;
                        self.pending = Pending::Nothing;
                        Action::Exit(
                            Outcome {
                                code: EXIT_SETUP_FAILURE,
                                diagnostic: Some(diagnostic),
                                kill_child: false,
                            },
                        )
                    },
                    Pending::Reaped(status) => {
                        self.phase = Phase::Resolved;
                        self.guards = 0;
                        self.pending = Pending::Nothing;
                        let diagnostic = if is_anomalous(latched, status) {
                            Some(Diagnostic::NoStatusNoSignal)
                        } else {
                            None
                        };
                        Action::Exit(
                            Outcome { code: resolve(latched, status), diagnostic, kill_child: false },
                        )
                    },
                    Pending::WaitFailure => {
                        self.phase = Phase::WaitFailed;
                        self.guards = 0;
                        self.pending = Pending::Nothing;
                        Action::Exit(
                            Outcome {
                                code: Signal::Kill.number() + EXIT_SIGNAL_BASE,
                                diagnostic: Some(Diagnostic::WaitFailed),
                                kill_child: true,
                            },
                        )
                    },
                    Pending::Nothing => Action::Unexpected,
                }
            },
            _ => Action::Unexpected,
        }
    }
}

/// The state reached from `start` when the events of `events` are reported
/// in order.
pub open spec fn state_after(start: Supervisor, events: Seq<Event>) -> Supervisor
    decreases events.len(),
{
    if events.len() == 0 {
        start
    } else {
        state_after(start, events.drop_last()).next(events.last()).0
    }
}

/// Whatever is reported, and in whatever order, a run stays among the states
/// that [`Supervisor::wf`] describes.
pub proof fn lemma_run_stays_well_formed(events: Seq<Event>)
    ensures
        state_after(Supervisor::idle(), events).wf(),
    decreases events.len(),
{
    if events.len() > 0 {
        lemma_run_stays_well_formed(events.drop_last());
    }
}

/// A run concludes only once every handler it installed has been put back:
/// an `Exit` comes only in answer to `GuardsReleased`, after a
/// `ReleaseGuards` that named every installed handler, and leaves none
/// installed. This holds on every path, setup and spawn failures included.
pub proof fn lemma_exit_leaves_no_guard(events: Seq<Event>, event: Event)
    ensures
        ({
            let before = state_after(Supervisor::idle(), events);
            let (after, action) = before.next(event);
            &&& action is Exit ==> before.phase is Releasing && event is GuardsReleased
                && after.guards == 0
            &&& action matches Action::ReleaseGuards(n) ==> n == before.guards
                && after.phase is Releasing && after.guards == before.guards
            &&& after.phase is Releasing ==> after.guards == before.guards
            &&& (after.phase is Idle || after.phase is Resolved || after.phase is WaitFailed)
                ==> after.guards == 0
        }),
{
    lemma_run_stays_well_formed(events);
}

/// The pid of the child is published once it runs and at no other point:
/// `PublishPid` answers `Spawned` and nothing else, names the pid that was
/// reported, and no run that is waiting, releasing or concluded answers
/// with it again.
pub proof fn lemma_pid_is_published_once(events: Seq<Event>, event: Event)
    ensures
        ({
            let before = state_after(Supervisor::idle(), events);
            let (after, action) = before.next(event);
            &&& action matches Action::PublishPid(pid) ==> before.phase is GuardsInstalled
                && event == Event::Spawned(pid) && before.child_pid == 0 && after.child_pid == pid
                && after.phase is Spawned
            &&& action is Wait ==> before.phase is Spawned && event is PidPublished
            &&& !(before.phase is GuardsInstalled) ==> after.child_pid == before.child_pid
                || after == Supervisor::idle()
        }),
{
    lemma_run_stays_well_formed(events);
}

/// A run that fails before its child exists exits with code 2 and has
/// published no pid; a failed wait kills the child and exits with 128 plus
/// the number of `KILL`; a reaped child gives the code that its status and
/// the latch resolve to.
pub proof fn lemma_exit_codes(events: Seq<Event>, event: Event)
    ensures
        ({
            let before = state_after(Supervisor::idle(), events);
            let (after, action) = before.next(event);
            action matches Action::Exit(outcome) ==> match before.pending {
                Pending::SetupFailure(diagnostic) => outcome.code == 2 && !outcome.kill_child
                    && outcome.diagnostic == Some(diagnostic) && before.child_pid == 0
                    && after == Supervisor::idle(),
                Pending::WaitFailure => outcome.code == 137 && outcome.kill_child
                    && after.phase is WaitFailed,
                Pending::Reaped(status) => event matches Event::GuardsReleased(latched)
                    && outcome.code == exit_code(latched, status) && !outcome.kill_child
                    && after.phase is Resolved,
                Pending::Nothing => false,
            }
        }),
{
    lemma_run_stays_well_formed(events);
}

/// A run that waits for its child, receives `sigs` meanwhile, and is then
/// told that the child was reaped concludes with the code that the latch
/// and the child's status resolve to: 128 plus the number of the first
/// signal where all of them latch, and what the status alone gives where
/// none does.
pub proof fn lemma_signals_decide_the_exit_code(
    run: Supervisor,
    sigs: Seq<Signal>,
    status: ChildStatus,
)
    requires
        run.wf(),
        run.phase is Waiting,
        run.child_pid > 0,
    ensures
        ({
            let latch = latch_after_all(Latch { first: None }, run.child_pid, sigs);
            let (releasing, release) = run.next(Event::Reaped(status));
            let (done, exit) = releasing.next(Event::GuardsReleased(latch.first));
            &&& release == Action::ReleaseGuards(HANDLED_SIGNALS)
            &&& exit matches Action::Exit(outcome) && outcome.code == exit_code(
                latch.first,
                status,
            ) && !outcome.kill_child
            &&& done.phase is Resolved && done.guards == 0
            &&& sigs.len() >= 1 && (forall|i: int|
                0 <= i < sigs.len() ==> (#[trigger] sigs[i]).latches()) ==> exit == Action::Exit(
                Outcome {
                    code: (sigs[0].number() + EXIT_SIGNAL_BASE) as i32,
                    diagnostic: None,
                    kill_child: false,
                },
            )
            &&& (forall|i: int| 0 <= i < sigs.len() ==> !(#[trigger] sigs[i]).latches())
                ==> exit_code(latch.first, status) == exit_code(None, status)
        }),
{
    let unset = Latch { first: None };
    if sigs.len() >= 1 && (forall|i: int| 0 <= i < sigs.len() ==> (#[trigger] sigs[i]).latches()) {
        lemma_first_latching_signal_wins(run.child_pid, sigs, status);
    }
    if forall|i: int| 0 <= i < sigs.len() ==> !(#[trigger] sigs[i]).latches() {
        lemma_unlatched_signals_keep_exit_code(unset, run.child_pid, sigs, status);
    }
}

} // verus!
