//! The supervision rules.
//!
//! Nothing here touches the operating system. The caller installs handlers,
//! spawns, waits and sends signals; this module decides what is to be done
//! next and what the outcome means.

use vstd::prelude::*;
use vstd::string::*;
use crate::text::same_text;

verus! {

/// Milliseconds the child is given to shut down between `QUIT` and `KILL`.
pub const GRACE_MILLIS: u64 = 100;

/// Exit code when a handler cannot be installed or the child cannot be spawned.
pub const EXIT_SETUP_FAILURE: i32 = 2;

/// Exit code when the child left neither a status code nor a signal.
pub const EXIT_NO_STATUS: i32 = 127;

/// Added to a signal's number to form the exit code of a signalled run.
pub const EXIT_SIGNAL_BASE: i32 = 128;

/// Number of signals the supervisor installs a handler for.
pub const HANDLED_SIGNALS: usize = 8;

/// The signals that take part in supervision.
///
/// `Kill` and `Segv` are never caught: `Kill` is only sent, and `Segv` only
/// stands in for a child that dumped core.
#[derive(Debug, Clone, Copy, PartialEq, Eq, Structural)]
pub enum Signal {
    Hup,
    Int,
    Quit,
    Kill,
    Usr1,
    Segv,
    Usr2,
    Pipe,
    Term,
    Winch,
}

impl Signal {
    /// The signal's number, as Linux assigns it.
    pub open spec fn spec_number(self) -> i32 {
        match self {
            Signal::Hup => 1,
            Signal::Int => 2,
            Signal::Quit => 3,
            Signal::Kill => 9,
            Signal::Usr1 => 10,
            Signal::Segv => 11,
            Signal::Usr2 => 12,
            Signal::Pipe => 13,
            Signal::Term => 15,
            Signal::Winch => 28,
        }
    }

    #[verifier::when_used_as_spec(spec_number)]
    pub fn number(self) -> (n: i32)
        ensures
            n == self.spec_number(),
    {
        match self {
            Signal::Hup => 1,
            Signal::Int => 2,
            Signal::Quit => 3,
            Signal::Kill => 9,
            Signal::Usr1 => 10,
            Signal::Segv => 11,
            Signal::Usr2 => 12,
            Signal::Pipe => 13,
            Signal::Term => 15,
            Signal::Winch => 28,
        }
    }

    /// The signal with the given number, if it is one of this type's.
    pub fn from_number(n: i32) -> (r: Option<Signal>)
        ensures
            match r {
                Some(sig) => sig.number() == n,
                None => forall|sig: Signal| sig.number() != n,
            },
    {
        if n == 1 {
            Some(Signal::Hup)
        } else if n == 2 {
            Some(Signal::Int)
        } else if n == 3 {
            Some(Signal::Quit)
        } else if n == 9 {
            Some(Signal::Kill)
        } else if n == 10 {
            Some(Signal::Usr1)
        } else if n == 11 {
            Some(Signal::Segv)
        } else if n == 12 {
            Some(Signal::Usr2)
        } else if n == 13 {
            Some(Signal::Pipe)
        } else if n == 15 {
            Some(Signal::Term)
        } else if n == 28 {
            Some(Signal::Winch)
        } else {
            None
        }
    }

    /// The signal's name, as in `SIGINT`.
    pub open spec fn spec_name(self) -> Seq<char> {
        match self {
            Signal::Hup => "SIGHUP"@,
            Signal::Int => "SIGINT"@,
            Signal::Quit => "SIGQUIT"@,
            Signal::Kill => "SIGKILL"@,
            Signal::Usr1 => "SIGUSR1"@,
            Signal::Segv => "SIGSEGV"@,
            Signal::Usr2 => "SIGUSR2"@,
            Signal::Pipe => "SIGPIPE"@,
            Signal::Term => "SIGTERM"@,
            Signal::Winch => "SIGWINCH"@,
        }
    }

    /// The signal's name, as in `SIGINT`.
    pub fn name(self) -> (s: &'static str)
        ensures
            s@ == self.spec_name(),
    {
        match self {
            Signal::Hup => "SIGHUP",
            Signal::Int => "SIGINT",
            Signal::Quit => "SIGQUIT",
            Signal::Kill => "SIGKILL",
            Signal::Usr1 => "SIGUSR1",
            Signal::Segv => "SIGSEGV",
            Signal::Usr2 => "SIGUSR2",
            Signal::Pipe => "SIGPIPE",
            Signal::Term => "SIGTERM",
            Signal::Winch => "SIGWINCH",
        }
    }

    /// The signal with the given name, if it is one of this type's.
    pub fn from_name(s: &str) -> (r: Option<Signal>)
        ensures
            match r {
                Some(sig) => sig.spec_name() == s@,
                None => forall|sig: Signal| sig.spec_name() != s@,
            },
    {
        if same_text(s, "SIGHUP") {
            Some(Signal::Hup)
        } else if same_text(s, "SIGINT") {
            Some(Signal::Int)
        } else if same_text(s, "SIGQUIT") {
            Some(Signal::Quit)
        } else if same_text(s, "SIGKILL") {
            Some(Signal::Kill)
        } else if same_text(s, "SIGUSR1") {
            Some(Signal::Usr1)
        } else if same_text(s, "SIGSEGV") {
            Some(Signal::Segv)
        } else if same_text(s, "SIGUSR2") {
            Some(Signal::Usr2)
        } else if same_text(s, "SIGPIPE") {
            Some(Signal::Pipe)
        } else if same_text(s, "SIGTERM") {
            Some(Signal::Term)
        } else if same_text(s, "SIGWINCH") {
            Some(Signal::Winch)
        } else {
            None
        }
    }

    /// Whether the supervisor installs a handler for this signal.
    pub open spec fn spec_is_handled(self) -> bool {
        !(self is Kill) && !(self is Segv)
    }

    #[verifier::when_used_as_spec(spec_is_handled)]
    pub fn is_handled(self) -> (b: bool)
        ensures
            b == self.spec_is_handled(),
    {
        match self {
            Signal::Kill | Signal::Segv => false,
            _ => true,
        }
    }

    /// Whether receiving this signal is remembered as the reason the
    /// supervisor terminates.
    pub open spec fn spec_latches(self) -> bool {
        self is Int || self is Pipe || self is Term
    }

    #[verifier::when_used_as_spec(spec_latches)]
    pub fn latches(self) -> (b: bool)
        ensures
            b == self.spec_latches(),
    {
        match self {
            Signal::Int | Signal::Pipe | Signal::Term => true,
            _ => false,
        }
    }
}

/// The handled signals, in the order their handlers are installed.
pub open spec fn handled_order() -> Seq<Signal> {
    seq![
        Signal::Int,
        Signal::Term,
        Signal::Quit,
        Signal::Hup,
        Signal::Usr1,
        Signal::Usr2,
        Signal::Winch,
        Signal::Pipe,
    ]
}

/// The `index`-th handled signal in installation order.
pub fn handled_signal(index: usize) -> (r: Option<Signal>)
    ensures
        handled_order().len() == HANDLED_SIGNALS,
        index < HANDLED_SIGNALS ==> r == Some(handled_order()[index as int]),
        index >= HANDLED_SIGNALS ==> r is None,
{
    if index == 0 {
        Some(Signal::Int)
    } else if index == 1 {
        Some(Signal::Term)
    } else if index == 2 {
        Some(Signal::Quit)
    } else if index == 3 {
        Some(Signal::Hup)
    } else if index == 4 {
        Some(Signal::Usr1)
    } else if index == 5 {
        Some(Signal::Usr2)
    } else if index == 6 {
        Some(Signal::Winch)
    } else if index == 7 {
        Some(Signal::Pipe)
    } else {
        None
    }
}

/// The first terminating signal observed, if any.
///
/// Once a signal is held, later ones do not replace it.
#[derive(Debug, Clone, Copy, PartialEq, Eq, Structural)]
pub struct Latch {
    pub first: Option<Signal>,
}

impl Latch {
    /// The latch after `sig` is offered to it.
    pub open spec fn caught(self, sig: Signal) -> Latch {
        match self.first {
            Some(_) => self,
            None => Latch { first: Some(sig) },
        }
    }

    /// A latch that holds nothing.
    pub fn new() -> (latch: Latch)
        ensures
            latch.first is None,
    {
        Latch { first: None }
    }

    /// Stores `sig` unless a signal is already held.
    pub fn set_caught_signal(&mut self, sig: Signal)
        ensures
            *final(self) == old(self).caught(sig),
    {
        match self.first {
            Some(_) => {},
            None => {
                self.first = Some(sig);
            },
        }
    }

    /// The signal held, if any.
    pub fn get_caught_signal(&self) -> (r: Option<Signal>)
        ensures
            r == self.first,
    {
        self.first
    }
}

/// One thing done to the child in response to a signal.
#[derive(Debug, Clone, Copy, PartialEq, Eq, Structural)]
pub enum Effect {
    /// Send the signal to the child.
    Send(Signal),
    /// Pause for this many milliseconds.
    Sleep(u64),
}

/// What the handler does to the child for one received signal.
#[derive(Debug, Clone, Copy, PartialEq, Eq, Structural)]
pub enum Reaction {
    /// Nothing is sent.
    Ignore,
    /// The given signal is sent once.
    Forward(Signal),
    /// `QUIT`, the grace period, then `KILL` whether or not the child is
    /// still there.
    Escalate,
}

impl Reaction {
    /// What the child is put through, in order.
    pub open spec fn effects(self) -> Seq<Effect> {
        match self {
            Reaction::Ignore => Seq::empty(),
            Reaction::Forward(sig) => seq![Effect::Send(sig)],
            Reaction::Escalate => escalation(),
        }
    }
}

/// `QUIT`, then the grace period, then `KILL`.
pub open spec fn escalation() -> Seq<Effect> {
    seq![Effect::Send(Signal::Quit), Effect::Sleep(GRACE_MILLIS), Effect::Send(Signal::Kill)]
}

/// The steps of an escalation, for the caller to carry out in order.
pub fn send_quit_and_kill() -> (steps: [Effect; 3])
    ensures
        steps@ == escalation(),
{
    let steps: [Effect; 3] = [
        Effect::Send(Signal::Quit),
        Effect::Sleep(GRACE_MILLIS),
        Effect::Send(Signal::Kill),
    ];
    steps
}

/// The reaction to `sig` while the published child pid is `pid`.
///
/// A pid of zero or less means that no child has been published, and nothing
/// is done.
pub open spec fn reaction_to(pid: i32, sig: Signal) -> Reaction {
    if pid <= 0 {
        Reaction::Ignore
    } else {
        match sig {
            Signal::Int | Signal::Pipe => Reaction::Escalate,
            Signal::Term => Reaction::Forward(Signal::Term),
            Signal::Hup => Reaction::Forward(Signal::Quit),
            Signal::Quit | Signal::Usr1 | Signal::Usr2 | Signal::Winch => Reaction::Forward(sig),
            Signal::Kill | Signal::Segv => Reaction::Ignore,
        }
    }
}

/// The latch after `sig` is received while the published child pid is `pid`.
pub open spec fn latch_after(latch: Latch, pid: i32, sig: Signal) -> Latch {
    if pid > 0 && sig.latches() {
        latch.caught(sig)
    } else {
        latch
    }
}

/// The body of the signal handler: updates the latch and says what to do to
/// the child.
///
/// Allocates nothing and blocks nowhere, so it may be called from a handler.
pub fn signal_handler(pid: i32, latch: &mut Latch, sig: Signal) -> (reaction: Reaction)
    ensures
        reaction == reaction_to(pid, sig),
        *final(latch) == latch_after(*old(latch), pid, sig),
{
    if pid <= 0 {
        return Reaction::Ignore;
    }
    match sig {
        Signal::Int | Signal::Pipe => {
            latch.set_caught_signal(sig);
            Reaction::Escalate
        },
        Signal::Term => {
            latch.set_caught_signal(sig);
            Reaction::Forward(Signal::Term)
        },
        Signal::Hup => Reaction::Forward(Signal::Quit),
        Signal::Quit | Signal::Usr1 | Signal::Usr2 | Signal::Winch => Reaction::Forward(sig),
        Signal::Kill | Signal::Segv => Reaction::Ignore,
    }
}

/// How an attempt to signal the child ended.
#[derive(Debug, Clone, Copy, PartialEq, Eq, Structural)]
pub enum SendOutcome {
    /// The signal was delivered.
    Delivered,
    /// The child was already gone.
    NoSuchProcess,
    /// Sending failed for another reason.
    Failed,
}

/// Whether a send that ended in `outcome` is worth a line on the error
/// stream: not where the signal went out, nor where the child was already
/// gone, which is expected.
pub open spec fn send_is_reported(outcome: SendOutcome) -> bool {
    outcome is Failed
}

/// The line that reports a failed send of `sig` to `pid`; `detail` is what
/// the system said.
pub open spec fn send_failure_text(sig: Signal, pid: i32, detail: Seq<char>) -> Seq<char> {
    "failed sending signal "@ + sig.spec_name() + " to "@ + crate::text::decimal_text(pid as int)
        + ": "@ + detail
}

/// The line that reports a failed send.
pub fn send_failure_message(sig: Signal, pid: i32, detail: &str) -> (s: String)
    ensures
        s@ == send_failure_text(sig, pid, detail@),
{
    let mut s = String::from_str("failed sending signal ");
    s.append(sig.name());
    s.append(" to ");
    s.append(crate::text::decimal(pid as i128).as_str());
    s.append(": ");
    s.append(detail);
    s
}

/// Decides whether the outcome of a send is reported. Supervision goes on
/// either way.
pub fn send_signal(outcome: SendOutcome) -> (report: bool)
    ensures
        report == send_is_reported(outcome),
{
    match outcome {
        SendOutcome::Failed => true,
        _ => false,
    }
}

/// What the wait call reported of the reaped child.
///
/// Signal numbers are those of the wait status, which has seven bits for a
/// terminating signal and eight for a stop signal.
#[derive(Debug, Clone, Copy, PartialEq, Eq, Structural)]
pub struct ChildStatus {
    /// The exit code, if the child exited on its own.
    pub code: Option<i32>,
    /// The signal that terminated the child, if one did.
    pub signal: Option<u8>,
    /// The signal that stopped the child, if one did.
    pub stopped_signal: Option<u8>,
    /// Whether the child left a core dump.
    pub core_dumped: bool,
}

impl ChildStatus {
    /// The status of a child that exited with `code`.
    pub fn exited(code: i32) -> (status: ChildStatus)
        ensures
            status == (ChildStatus {
                code: Some(code),
                signal: None,
                stopped_signal: None,
                core_dumped: false,
            }),
    {
        ChildStatus { code: Some(code), signal: None, stopped_signal: None, core_dumped: false }
    }

    /// The status of a child that signal number `signal` terminated.
    pub fn signaled(signal: u8, core_dumped: bool) -> (status: ChildStatus)
        ensures
            status == (ChildStatus {
                code: None,
                signal: Some(signal),
                stopped_signal: None,
                core_dumped,
            }),
    {
        ChildStatus { code: None, signal: Some(signal), stopped_signal: None, core_dumped }
    }
}

/// The number of the signal that accounts for the child's end: the latched
/// one first, then the terminating signal, then the stop signal, then `SEGV`
/// for a core dump.
pub open spec fn exit_signal(latched: Option<Signal>, status: ChildStatus) -> Option<int> {
    match latched {
        Some(sig) => Some(sig.number() as int),
        None => match status.signal {
            Some(n) => Some(n as int),
            None => match status.stopped_signal {
                Some(n) => Some(n as int),
                None => if status.core_dumped {
                    Some(Signal::Segv.number() as int)
                } else {
                    None
                },
            },
        },
    }
}

/// The supervisor's exit code.
///
/// A known signal wins over a status code and gives 128 plus its number; with
/// no signal the child's own code is passed on; with neither the code is 127.
pub open spec fn exit_code(latched: Option<Signal>, status: ChildStatus) -> int {
    match exit_signal(latched, status) {
        Some(sig) => sig + EXIT_SIGNAL_BASE,
        None => match status.code {
            Some(code) => code as int,
            None => EXIT_NO_STATUS as int,
        },
    }
}

/// Whether the child left neither a status code nor any signal, which a
/// POSIX system does not produce and which earns a warning.
pub open spec fn spec_is_anomalous(latched: Option<Signal>, status: ChildStatus) -> bool {
    exit_signal(latched, status) is None && status.code is None
}

#[verifier::when_used_as_spec(spec_is_anomalous)]
pub fn is_anomalous(latched: Option<Signal>, status: ChildStatus) -> (b: bool)
    ensures
        b == spec_is_anomalous(latched, status),
{
    latched.is_none() && status.signal.is_none() && status.stopped_signal.is_none()
        && !status.core_dumped && status.code.is_none()
}

/// Combines the latched signal with the child's status into the exit code.
pub fn resolve(latched: Option<Signal>, status: ChildStatus) -> (code: i32)
    ensures
        code == exit_code(latched, status),
{
    let signal: Option<i32> = match latched {
        Some(sig) => Some(sig.number()),
        None => match status.signal {
            Some(n) => Some(n as i32),
            None => match status.stopped_signal {
                Some(n) => Some(n as i32),
                None => if status.core_dumped {
                    Some(Signal::Segv.number())
                } else {
                    None
                },
            },
        },
    };
    match (status.code, signal) {
        (Some(code), None) => code,
        (Some(_), Some(sig)) => sig + EXIT_SIGNAL_BASE,
        (None, Some(sig)) => sig + EXIT_SIGNAL_BASE,
        (None, None) => EXIT_NO_STATUS,
    }
}

/// The latch after every signal of `sigs` is received in order.
pub open spec fn latch_after_all(latch: Latch, pid: i32, sigs: Seq<Signal>) -> Latch
    decreases sigs.len(),
{
    if sigs.len() == 0 {
        latch
    } else {
        latch_after(latch_after_all(latch, pid, sigs.drop_last()), pid, sigs.last())
    }
}

/// Everything the child is put through when the signals of `sigs` are
/// received in order.
pub open spec fn effects_of_all(pid: i32, sigs: Seq<Signal>) -> Seq<Effect>
    decreases sigs.len(),
{
    if sigs.len() == 0 {
        Seq::empty()
    } else {
        effects_of_all(pid, sigs.drop_last()) + reaction_to(pid, sigs.last()).effects()
    }
}

/// How often `sig` is sent in `effects`.
pub open spec fn times_sent(effects: Seq<Effect>, sig: Signal) -> nat
    decreases effects.len(),
{
    if effects.len() == 0 {
        0
    } else {
        times_sent(effects.drop_last(), sig) + if effects.last() == Effect::Send(sig) {
            1nat
        } else {
            0nat
        }
    }
}

/// Counting sends distributes over concatenation.
proof fn lemma_times_sent_concat(a: Seq<Effect>, b: Seq<Effect>, sig: Signal)
    ensures
        times_sent(a + b, sig) == times_sent(a, sig) + times_sent(b, sig),
    decreases b.len(),
{
    if b.len() > 0 {
        assert((a + b).drop_last() =~= a + b.drop_last());
        lemma_times_sent_concat(a, b.drop_last(), sig);
    }
}

/// While no child is published nothing is sent and nothing is latched,
/// whatever is received.
pub proof fn lemma_no_child_no_reaction(latch: Latch, pid: i32, sigs: Seq<Signal>)
    requires
        pid <= 0,
    ensures
        effects_of_all(pid, sigs) == Seq::<Effect>::empty(),
        latch_after_all(latch, pid, sigs) == latch,
    decreases sigs.len(),
{
    if sigs.len() > 0 {
        lemma_no_child_no_reaction(latch, pid, sigs.drop_last());
    }
}

/// A latch that holds a signal keeps it whatever is received afterwards.
pub proof fn lemma_latch_is_write_once(latch: Latch, pid: i32, sigs: Seq<Signal>)
    requires
        latch.first is Some,
    ensures
        latch_after_all(latch, pid, sigs) == latch,
    decreases sigs.len(),
{
    if sigs.len() > 0 {
        lemma_latch_is_write_once(latch, pid, sigs.drop_last());
    }
}

/// However many latching signals arrive while a child is published, the
/// latch holds the first of them, and the exit code is 128 plus that
/// signal's number whatever the child's status.
pub proof fn lemma_first_latching_signal_wins(pid: i32, sigs: Seq<Signal>, status: ChildStatus)
    requires
        pid > 0,
        sigs.len() >= 1,
        forall|i: int| 0 <= i < sigs.len() ==> (#[trigger] sigs[i]).latches(),
    ensures
        latch_after_all(Latch { first: None }, pid, sigs).first == Some(sigs[0]),
        exit_code(latch_after_all(Latch { first: None }, pid, sigs).first, status)
            == sigs[0].number() + EXIT_SIGNAL_BASE,
    decreases sigs.len(),
{
    let unset = Latch { first: None };
    if sigs.len() == 1 {
        assert(latch_after_all(unset, pid, sigs.drop_last()) == unset);
    } else {
        let front = sigs.drop_last();
        lemma_first_latching_signal_wins(pid, front, status);
        assert(front[0] == sigs[0]);
    }
}

/// A signal that does not latch leaves the latch, and so the exit code, as
/// they were.
pub proof fn lemma_unlatched_signals_keep_exit_code(
    latch: Latch,
    pid: i32,
    sigs: Seq<Signal>,
    status: ChildStatus,
)
    requires
        forall|i: int| 0 <= i < sigs.len() ==> !(#[trigger] sigs[i]).latches(),
    ensures
        latch_after_all(latch, pid, sigs) == latch,
        exit_code(latch_after_all(latch, pid, sigs).first, status) == exit_code(
            latch.first,
            status,
        ),
    decreases sigs.len(),
{
    if sigs.len() > 0 {
        let front = sigs.drop_last();
        lemma_unlatched_signals_keep_exit_code(latch, pid, front, status);
    }
}

/// `WINCH` received `k` times is forwarded as `WINCH` exactly `k` times and
/// nothing else is sent; the exit code is the one the child's status gives
/// with the latch as it was.
pub proof fn lemma_winch_is_forwarded_each_time(
    latch: Latch,
    pid: i32,
    k: nat,
    status: ChildStatus,
)
    requires
        pid > 0,
    ensures
        effects_of_all(pid, Seq::new(k, |i: int| Signal::Winch)) == Seq::new(
            k,
            |i: int| Effect::Send(Signal::Winch),
        ),
        times_sent(effects_of_all(pid, Seq::new(k, |i: int| Signal::Winch)), Signal::Winch) == k,
        latch_after_all(latch, pid, Seq::new(k, |i: int| Signal::Winch)) == latch,
        exit_code(latch_after_all(latch, pid, Seq::new(k, |i: int| Signal::Winch)).first, status)
            == exit_code(latch.first, status),
    decreases k,
{
    let sigs = Seq::new(k, |i: int| Signal::Winch);
    let sent = Seq::new(k, |i: int| Effect::Send(Signal::Winch));
    if k > 0 {
        let fewer = (k - 1) as nat;
        lemma_winch_is_forwarded_each_time(latch, pid, fewer, status);
        assert(sigs.drop_last() =~= Seq::new(fewer, |i: int| Signal::Winch));
        assert(sent.drop_last() =~= Seq::new(fewer, |i: int| Effect::Send(Signal::Winch)));
    }
}

/// `HUP` is passed on as a single `QUIT`, and `HUP` itself is never sent to
/// the child, whatever is received.
pub proof fn lemma_hup_is_never_sent(pid: i32, sigs: Seq<Signal>)
    ensures
        pid > 0 ==> reaction_to(pid, Signal::Hup).effects() == seq![Effect::Send(Signal::Quit)],
        times_sent(effects_of_all(pid, sigs), Signal::Hup) == 0,
        forall|i: int|
            0 <= i < effects_of_all(pid, sigs).len() ==> #[trigger] effects_of_all(pid, sigs)[i]
                != Effect::Send(Signal::Hup),
    decreases sigs.len(),
{
    if sigs.len() > 0 {
        let front = effects_of_all(pid, sigs.drop_last());
        let tail = reaction_to(pid, sigs.last()).effects();
        lemma_hup_is_never_sent(pid, sigs.drop_last());
        lemma_times_sent_concat(front, tail, Signal::Hup);
        lemma_none_sent(tail, Signal::Hup);
    }
}

/// A signal that occurs nowhere among the effects is sent zero times.
proof fn lemma_none_sent(effects: Seq<Effect>, sig: Signal)
    requires
        forall|i: int| 0 <= i < effects.len() ==> #[trigger] effects[i] != Effect::Send(sig),
    ensures
        times_sent(effects, sig) == 0,
    decreases effects.len(),
{
    if effects.len() > 0 {
        let front = effects.drop_last();
        lemma_none_sent(front, sig);
    }
}

/// `INT` and `PIPE` bring `QUIT`, then the grace period, then `KILL`, whether
/// or not the latch was already set; and a `KILL` that finds the child gone is
/// not reported.
pub proof fn lemma_escalation_order(pid: i32, sig: Signal, latch: Latch)
    requires
        pid > 0,
        sig is Int || sig is Pipe,
    ensures
        reaction_to(pid, sig) == Reaction::Escalate,
        reaction_to(pid, sig).effects() == seq![
            Effect::Send(Signal::Quit),
            Effect::Sleep(100),
            Effect::Send(Signal::Kill),
        ],
        latch_after(latch, pid, sig).first is Some,
        !send_is_reported(SendOutcome::NoSuchProcess),
{
}

} // verus!
