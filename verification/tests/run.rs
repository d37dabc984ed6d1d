use rusty_cli::run::{
    handled_signal, is_anomalous, resolve, send_failure_message, send_quit_and_kill, send_signal,
    signal_handler,
    ChildStatus, Effect, Latch, Reaction, SendOutcome, Signal, GRACE_MILLIS, HANDLED_SIGNALS,
};

const ALL: [Signal; 10] = [
    Signal::Hup,
    Signal::Int,
    Signal::Quit,
    Signal::Kill,
    Signal::Usr1,
    Signal::Segv,
    Signal::Usr2,
    Signal::Pipe,
    Signal::Term,
    Signal::Winch,
];

fn deliver(pid: i32, latch: &mut Latch, sigs: &[Signal]) -> Vec<Effect> {
    let mut effects = Vec::new();
    for sig in sigs {
        match signal_handler(pid, latch, *sig) {
            Reaction::Ignore => {}
            Reaction::Forward(out) => effects.push(Effect::Send(out)),
            Reaction::Escalate => effects.extend(send_quit_and_kill()),
        }
    }
    effects
}

#[test]
fn signal_numbers() {
    assert_eq!(1, Signal::Hup.number());
    assert_eq!(2, Signal::Int.number());
    assert_eq!(3, Signal::Quit.number());
    assert_eq!(9, Signal::Kill.number());
    assert_eq!(10, Signal::Usr1.number());
    assert_eq!(11, Signal::Segv.number());
    assert_eq!(12, Signal::Usr2.number());
    assert_eq!(13, Signal::Pipe.number());
    assert_eq!(15, Signal::Term.number());
    assert_eq!(28, Signal::Winch.number());
    for sig in ALL {
        assert_eq!(Some(sig), Signal::from_number(sig.number()));
    }
    assert_eq!(None, Signal::from_number(0));
    assert_eq!(None, Signal::from_number(4));
    assert_eq!(None, Signal::from_number(-2));
    assert_eq!(None, Signal::from_number(64));
}

#[test]
fn handled_set_in_installation_order() {
    let order = [
        Signal::Int,
        Signal::Term,
        Signal::Quit,
        Signal::Hup,
        Signal::Usr1,
        Signal::Usr2,
        Signal::Winch,
        Signal::Pipe,
    ];
    assert_eq!(8, HANDLED_SIGNALS);
    for (i, sig) in order.iter().enumerate() {
        assert_eq!(Some(*sig), handled_signal(i));
        assert!(sig.is_handled());
    }
    assert_eq!(None, handled_signal(8));
    assert_eq!(None, handled_signal(usize::MAX));
    assert!(!Signal::Kill.is_handled());
    assert!(!Signal::Segv.is_handled());
}

#[test]
fn only_int_pipe_term_latch() {
    for sig in ALL {
        let expected = matches!(sig, Signal::Int | Signal::Pipe | Signal::Term);
        assert_eq!(expected, sig.latches());
        let mut latch = Latch::new();
        signal_handler(4242, &mut latch, sig);
        assert_eq!(if expected { Some(sig) } else { None }, latch.get_caught_signal());
    }
}

#[test]
fn latch_keeps_first_signal() {
    let mut latch = Latch::new();
    assert_eq!(None, latch.get_caught_signal());
    latch.set_caught_signal(Signal::Term);
    assert_eq!(Some(Signal::Term), latch.get_caught_signal());
    latch.set_caught_signal(Signal::Int);
    latch.set_caught_signal(Signal::Pipe);
    assert_eq!(Some(Signal::Term), latch.get_caught_signal());
}

#[test]
fn first_latching_signal_decides_exit_code() {
    let orders: [&[Signal]; 4] = [
        &[Signal::Int],
        &[Signal::Int, Signal::Term, Signal::Pipe],
        &[Signal::Pipe, Signal::Int, Signal::Int, Signal::Term],
        &[Signal::Term, Signal::Term, Signal::Term],
    ];
    for sigs in orders {
        let mut latch = Latch::new();
        deliver(77, &mut latch, sigs);
        assert_eq!(Some(sigs[0]), latch.get_caught_signal());
        assert_eq!(
            sigs[0].number() + 128,
            resolve(latch.get_caught_signal(), ChildStatus::exited(0))
        );
        assert_eq!(
            sigs[0].number() + 128,
            resolve(latch.get_caught_signal(), ChildStatus::signaled(9, false))
        );
    }
}

#[test]
fn winch_is_forwarded_every_time() {
    for k in [0usize, 1, 3, 10] {
        let mut latch = Latch::new();
        let effects = deliver(5, &mut latch, &vec![Signal::Winch; k]);
        assert_eq!(vec![Effect::Send(Signal::Winch); k], effects);
        assert_eq!(None, latch.get_caught_signal());
        assert_eq!(0, resolve(latch.get_caught_signal(), ChildStatus::exited(0)));
        assert_eq!(111, resolve(latch.get_caught_signal(), ChildStatus::exited(111)));
    }
}

#[test]
fn hup_reaches_the_child_as_quit() {
    let mut latch = Latch::new();
    assert_eq!(Reaction::Forward(Signal::Quit), signal_handler(9, &mut latch, Signal::Hup));
    let effects = deliver(9, &mut latch, &ALL);
    assert!(!effects.contains(&Effect::Send(Signal::Hup)));
    let effects = deliver(9, &mut latch, &[Signal::Hup, Signal::Hup, Signal::Hup]);
    assert_eq!(vec![Effect::Send(Signal::Quit); 3], effects);
}

#[test]
fn int_and_pipe_escalate() {
    for sig in [Signal::Int, Signal::Pipe] {
        let mut latch = Latch::new();
        assert_eq!(Reaction::Escalate, signal_handler(1, &mut latch, sig));
        // the latch being set already changes nothing
        assert_eq!(Reaction::Escalate, signal_handler(1, &mut latch, sig));
    }
    assert_eq!(100, GRACE_MILLIS);
    assert_eq!(
        [Effect::Send(Signal::Quit), Effect::Sleep(100), Effect::Send(Signal::Kill)],
        send_quit_and_kill()
    );
}

#[test]
fn reactions_by_signal() {
    let mut latch = Latch::new();
    assert_eq!(Reaction::Forward(Signal::Term), signal_handler(3, &mut latch, Signal::Term));
    assert_eq!(Reaction::Forward(Signal::Quit), signal_handler(3, &mut latch, Signal::Quit));
    assert_eq!(Reaction::Forward(Signal::Usr1), signal_handler(3, &mut latch, Signal::Usr1));
    assert_eq!(Reaction::Forward(Signal::Usr2), signal_handler(3, &mut latch, Signal::Usr2));
    assert_eq!(Reaction::Forward(Signal::Winch), signal_handler(3, &mut latch, Signal::Winch));
    assert_eq!(Reaction::Ignore, signal_handler(3, &mut latch, Signal::Kill));
    assert_eq!(Reaction::Ignore, signal_handler(3, &mut latch, Signal::Segv));
}

#[test]
fn no_child_no_reaction() {
    for pid in [0, -1, i32::MIN] {
        for sig in ALL {
            let mut latch = Latch::new();
            assert_eq!(Reaction::Ignore, signal_handler(pid, &mut latch, sig));
            assert_eq!(None, latch.get_caught_signal());
        }
    }
}

#[test]
fn only_a_failed_send_is_reported() {
    assert!(send_signal(SendOutcome::Failed));
    // a child that is gone already is expected
    assert!(!send_signal(SendOutcome::NoSuchProcess));
    assert!(!send_signal(SendOutcome::Delivered));
}

#[test]
fn child_exits_zero_without_signals() {
    assert_eq!(0, resolve(None, ChildStatus::exited(0)));
}

#[test]
fn int_with_child_ignoring_quit_gives_130() {
    let mut latch = Latch::new();
    let effects = deliver(1234, &mut latch, &[Signal::Int]);
    assert_eq!(
        vec![Effect::Send(Signal::Quit), Effect::Sleep(100), Effect::Send(Signal::Kill)],
        effects
    );
    // the child dies of the KILL
    assert_eq!(130, resolve(latch.get_caught_signal(), ChildStatus::signaled(9, false)));
}

#[test]
fn hup_with_child_exiting_zero_gives_0() {
    let mut latch = Latch::new();
    let effects = deliver(1234, &mut latch, &[Signal::Hup]);
    assert_eq!(vec![Effect::Send(Signal::Quit)], effects);
    assert_eq!(0, resolve(latch.get_caught_signal(), ChildStatus::exited(0)));
}

#[test]
fn term_with_child_dying_gives_143() {
    let mut latch = Latch::new();
    let effects = deliver(1234, &mut latch, &[Signal::Term]);
    assert_eq!(vec![Effect::Send(Signal::Term)], effects);
    assert_eq!(143, resolve(latch.get_caught_signal(), ChildStatus::signaled(15, false)));
    // the signal wins even over a status code
    assert_eq!(143, resolve(latch.get_caught_signal(), ChildStatus::exited(0)));
}

#[test]
fn pipe_gives_141() {
    let mut latch = Latch::new();
    deliver(1234, &mut latch, &[Signal::Pipe]);
    assert_eq!(141, resolve(latch.get_caught_signal(), ChildStatus::exited(0)));
}

#[test]
fn child_segfault_gives_139() {
    assert_eq!(139, resolve(None, ChildStatus::signaled(11, true)));
    // a core dump alone stands for SEGV
    let dumped =
        ChildStatus { code: None, signal: None, stopped_signal: None, core_dumped: true };
    assert_eq!(139, resolve(None, dumped));
}

#[test]
fn resolve_precedence() {
    let stopped =
        ChildStatus { code: None, signal: None, stopped_signal: Some(19), core_dumped: true };
    assert_eq!(147, resolve(None, stopped));
    let both =
        ChildStatus { code: Some(3), signal: Some(6), stopped_signal: Some(19), core_dumped: true };
    assert_eq!(134, resolve(None, both));
    assert_eq!(130, resolve(Some(Signal::Int), both));
    assert_eq!(101, resolve(None, ChildStatus::exited(101)));
    assert_eq!(-1, resolve(None, ChildStatus::exited(-1)));
    assert_eq!(383, resolve(None, ChildStatus {
        code: None,
        signal: None,
        stopped_signal: Some(255),
        core_dumped: false,
    }));
}

#[test]
fn no_code_and_no_signal_gives_127() {
    let nothing =
        ChildStatus { code: None, signal: None, stopped_signal: None, core_dumped: false };
    assert_eq!(127, resolve(None, nothing));
    assert!(is_anomalous(None, nothing));
    assert!(!is_anomalous(Some(Signal::Term), nothing));
    assert!(!is_anomalous(None, ChildStatus::exited(0)));
    assert!(!is_anomalous(None, ChildStatus::signaled(9, false)));
}

#[test]
fn signal_names() {
    let names = [
        "SIGHUP", "SIGINT", "SIGQUIT", "SIGKILL", "SIGUSR1", "SIGSEGV", "SIGUSR2", "SIGPIPE",
        "SIGTERM", "SIGWINCH",
    ];
    for (sig, name) in ALL.iter().zip(names) {
        assert_eq!(name, sig.name());
        assert_eq!(Some(*sig), Signal::from_name(name));
    }
    assert_eq!(None, Signal::from_name("INT"));
    assert_eq!(None, Signal::from_name("sigint"));
    assert_eq!(None, Signal::from_name("SIGALRM"));
    assert_eq!(None, Signal::from_name(""));
}

#[test]
fn failed_send_is_worded() {
    assert_eq!(
        "failed sending signal SIGQUIT to 4711: EPERM: Operation not permitted",
        send_failure_message(Signal::Quit, 4711, "EPERM: Operation not permitted")
    );
    assert_eq!("failed sending signal SIGKILL to -1: ", send_failure_message(Signal::Kill, -1, ""));
}
