use rusty_cli::run::{ChildStatus, Signal};
use rusty_cli::supervisor::{Action, Diagnostic, Event, Outcome, Pending, Phase, Supervisor};

const ORDER: [Signal; 8] = [
    Signal::Int,
    Signal::Term,
    Signal::Quit,
    Signal::Hup,
    Signal::Usr1,
    Signal::Usr2,
    Signal::Winch,
    Signal::Pipe,
];

/// Drives a fresh run up to the point where the child is to be spawned.
fn installed() -> Supervisor {
    let mut run = Supervisor::new();
    assert_eq!(Action::InstallGuard(Signal::Int), run.step(Event::Start));
    for next in &ORDER[1..] {
        assert_eq!(Action::InstallGuard(*next), run.step(Event::GuardInstalled));
    }
    assert_eq!(Action::Spawn, run.step(Event::GuardInstalled));
    assert_eq!(Phase::GuardsInstalled, run.phase);
    assert_eq!(8, run.guards);
    run
}

fn waiting(pid: i32) -> Supervisor {
    let mut run = installed();
    assert_eq!(Action::PublishPid(pid), run.step(Event::Spawned(pid)));
    assert_eq!(Phase::Spawned, run.phase);
    assert_eq!(pid, run.child_pid);
    assert_eq!(Action::Wait, run.step(Event::PidPublished));
    assert_eq!(Phase::Waiting, run.phase);
    assert_eq!(pid, run.child_pid);
    assert_eq!(8, run.guards);
    run
}

#[test]
fn a_new_run_is_idle() {
    let run = Supervisor::new();
    assert_eq!(Phase::Idle, run.phase);
    assert_eq!(0, run.guards);
    assert_eq!(0, run.child_pid);
    assert_eq!(Pending::Nothing, run.pending);
}

#[test]
fn child_exits_zero() {
    let mut run = waiting(4711);
    assert_eq!(Action::ReleaseGuards(8), run.step(Event::Reaped(ChildStatus::exited(0))));
    assert_eq!(Phase::Releasing, run.phase);
    let exit = run.step(Event::GuardsReleased(None));
    assert_eq!(Action::Exit(Outcome { code: 0, diagnostic: None, kill_child: false }), exit);
    assert_eq!(Phase::Resolved, run.phase);
    assert_eq!(0, run.guards);
}

#[test]
fn latched_signal_decides_the_code() {
    let mut run = waiting(4711);
    run.step(Event::Reaped(ChildStatus::signaled(9, false)));
    let exit = run.step(Event::GuardsReleased(Some(Signal::Int)));
    assert_eq!(Action::Exit(Outcome { code: 130, diagnostic: None, kill_child: false }), exit);

    let mut run = waiting(4711);
    run.step(Event::Reaped(ChildStatus::signaled(15, false)));
    let exit = run.step(Event::GuardsReleased(Some(Signal::Term)));
    assert_eq!(Action::Exit(Outcome { code: 143, diagnostic: None, kill_child: false }), exit);
}

#[test]
fn child_segfault() {
    let mut run = waiting(4711);
    run.step(Event::Reaped(ChildStatus::signaled(11, true)));
    let exit = run.step(Event::GuardsReleased(None));
    assert_eq!(Action::Exit(Outcome { code: 139, diagnostic: None, kill_child: false }), exit);
}

#[test]
fn spawn_failure_exits_2_without_a_pid() {
    let mut run = installed();
    // no pid is published on the way
    assert_eq!(Action::ReleaseGuards(8), run.step(Event::SpawnFailed));
    assert_eq!(0, run.child_pid);
    let exit = run.step(Event::GuardsReleased(None));
    assert_eq!(
        Action::Exit(Outcome {
            code: 2,
            diagnostic: Some(Diagnostic::SpawnFailed),
            kill_child: false
        }),
        exit
    );
    assert_eq!(Supervisor::new(), run);
}

#[test]
fn handler_failure_releases_what_was_installed() {
    for failing in 0..8 {
        let mut run = Supervisor::new();
        run.step(Event::Start);
        for _ in 0..failing {
            run.step(Event::GuardInstalled);
        }
        assert_eq!(failing, run.guards);
        assert_eq!(Action::ReleaseGuards(failing), run.step(Event::GuardFailed));
        let exit = run.step(Event::GuardsReleased(None));
        assert_eq!(
            Action::Exit(Outcome {
                code: 2,
                diagnostic: Some(Diagnostic::HandlerNotInstalled(ORDER[failing])),
                kill_child: false
            }),
            exit
        );
        assert_eq!(0, run.guards);
        assert_eq!(0, run.child_pid);
        assert_eq!(Phase::Idle, run.phase);
    }
}

#[test]
fn wait_failure_kills_the_child() {
    let mut run = waiting(99);
    assert_eq!(Action::ReleaseGuards(8), run.step(Event::WaitFailed));
    let exit = run.step(Event::GuardsReleased(Some(Signal::Term)));
    assert_eq!(
        Action::Exit(Outcome {
            code: 137,
            diagnostic: Some(Diagnostic::WaitFailed),
            kill_child: true
        }),
        exit
    );
    assert_eq!(Phase::WaitFailed, run.phase);
    assert_eq!(0, run.guards);
}

#[test]
fn missing_status_is_warned_about() {
    let mut run = waiting(99);
    let nothing =
        ChildStatus { code: None, signal: None, stopped_signal: None, core_dumped: false };
    run.step(Event::Reaped(nothing));
    let exit = run.step(Event::GuardsReleased(None));
    assert_eq!(
        Action::Exit(Outcome {
            code: 127,
            diagnostic: Some(Diagnostic::NoStatusNoSignal),
            kill_child: false
        }),
        exit
    );
}

#[test]
fn events_out_of_place_change_nothing() {
    let all = [
        Event::Start,
        Event::GuardInstalled,
        Event::GuardFailed,
        Event::Spawned(5),
        Event::SpawnFailed,
        Event::Reaped(ChildStatus::exited(0)),
        Event::WaitFailed,
        Event::GuardsReleased(None),
        Event::PidPublished,
    ];
    let mut run = Supervisor::new();
    for event in &all[1..] {
        assert_eq!(Action::Unexpected, run.step(*event));
        assert_eq!(Supervisor::new(), run);
    }
    let mut run = installed();
    run.step(Event::Spawned(5));
    let before = run;
    for event in &all[..8] {
        assert_eq!(Action::Unexpected, run.step(*event));
        assert_eq!(before, run);
    }
    let mut run = waiting(5);
    let before = run;
    for event in [all[0], all[1], all[2], all[3], all[4], all[7], all[8]] {
        assert_eq!(Action::Unexpected, run.step(event));
        assert_eq!(before, run);
    }
    // a concluded run takes nothing more
    run.step(Event::Reaped(ChildStatus::exited(0)));
    run.step(Event::GuardsReleased(None));
    let done = run;
    for event in all {
        assert_eq!(Action::Unexpected, run.step(event));
        assert_eq!(done, run);
    }
}

#[test]
fn every_exit_leaves_no_guard() {
    // walk every path of the machine: each event at each reachable state
    let events = [
        Event::Start,
        Event::GuardInstalled,
        Event::GuardFailed,
        Event::Spawned(5),
        Event::SpawnFailed,
        Event::PidPublished,
        Event::Reaped(ChildStatus::exited(1)),
        Event::WaitFailed,
        Event::GuardsReleased(Some(Signal::Pipe)),
    ];
    let mut frontier = vec![Supervisor::new()];
    let mut seen = vec![Supervisor::new()];
    while let Some(state) = frontier.pop() {
        for event in events {
            let mut next = state;
            let action = next.step(event);
            if let Action::Exit(_) = action {
                assert_eq!(0, next.guards);
                assert_eq!(Phase::Releasing, state.phase);
            }
            if let Action::ReleaseGuards(n) = action {
                assert_eq!(state.guards, n);
            }
            if let Action::PublishPid(pid) = action {
                assert_eq!(0, state.child_pid);
                assert_eq!(5, pid);
            }
            if !seen.contains(&next) {
                seen.push(next);
                frontier.push(next);
            }
        }
    }
    assert!(seen.len() > 13);
}

#[test]
fn diagnostics_are_worded() {
    assert_eq!(
        "sigaction(SIGWINCH) failure => EINVAL: Invalid argument",
        Diagnostic::HandlerNotInstalled(Signal::Winch).message("nginx", "EINVAL: Invalid argument")
    );
    assert_eq!(
        "ERROR: failed to run command \"/no/such/nginx\": No such file or directory (os error 2)",
        Diagnostic::SpawnFailed
            .message("/no/such/nginx", "No such file or directory (os error 2)")
    );
    assert_eq!(
        "failed waiting for child process to exit: interrupted",
        Diagnostic::WaitFailed.message("nginx", "interrupted")
    );
    assert_eq!(
        "WARN: nginx exited without a status code but was not signaled",
        Diagnostic::NoStatusNoSignal.message("nginx", "ignored")
    );
}
