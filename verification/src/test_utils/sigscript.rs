//! The script that a stand-in for the child follows: which signals it logs,
//! what it exits with, and what it does to the supervisor meanwhile.
//!
//! A script is written as words, setups before operations:
//! `log=SIGINT,true exit=3 sleep=100 send=SIGTERM panic segfault`.

use vstd::prelude::*;
use vstd::string::*;
use crate::run::Signal;
use crate::text::{
    chars_of, decimal, decimal_text, find_char, joined, len_before, parse_i32, parse_unsigned,
    same_text, signed_value, split_whitespace, string_of, texts, unsigned_value, words,
};

verus! {

/// What the stand-in arranges before it acts.
#[derive(Debug, Clone, Copy, PartialEq, Eq, Structural)]
pub enum Setup {
    /// Log the signal when it arrives, and exit then if asked to.
    Log(Signal, bool),
    /// Exit with this code at the end.
    ExitCode(i32),
}

/// What the stand-in does.
#[derive(Debug, Clone, Copy, PartialEq, Eq, Structural)]
pub enum Op {
    /// Pause for this many milliseconds.
    Sleep(u64),
    /// Send the signal to the supervisor.
    Signal(Signal),
    Panic,
    SegFault,
}

/// Why a word is no part of a script.
#[derive(Debug, Clone, PartialEq, Eq)]
pub enum ScriptError {
    /// `log` names no signal.
    SignalNameRequired,
    /// `exit` names no code.
    ExitCodeRequired,
    /// The word is neither a setup nor an operation.
    UnknownAction(String),
}

/// A [`ScriptError`] as a plain value.
pub enum ScriptFault {
    SignalNameRequired,
    ExitCodeRequired,
    UnknownAction(Seq<char>),
}

impl View for ScriptError {
    type V = ScriptFault;

    open spec fn view(&self) -> ScriptFault {
        match self {
            ScriptError::SignalNameRequired => ScriptFault::SignalNameRequired,
            ScriptError::ExitCodeRequired => ScriptFault::ExitCodeRequired,
            ScriptError::UnknownAction(word) => ScriptFault::UnknownAction(word@),
        }
    }
}

/// The signals that a script logs when it logs all.
pub open spec fn logged_signals() -> Seq<Signal> {
    seq![
        Signal::Hup,
        Signal::Int,
        Signal::Pipe,
        Signal::Quit,
        Signal::Term,
        Signal::Usr1,
        Signal::Usr2,
        Signal::Winch,
    ]
}

/// The part of a word in front of its `=`: the action.
pub open spec fn action_of(word: Seq<char>) -> Seq<char> {
    word.take(len_before(word, '=') as int)
}

/// The part of a word behind its first `=`; empty where it has none.
pub open spec fn arguments_of(word: Seq<char>) -> Seq<char> {
    if len_before(word, '=') < word.len() {
        word.skip(len_before(word, '=') as int + 1)
    } else {
        Seq::empty()
    }
}

/// The first of the arguments, which commas divide.
pub open spec fn first_argument(arguments: Seq<char>) -> Seq<char> {
    arguments.take(len_before(arguments, ',') as int)
}

/// The second of the arguments, if there is one.
pub open spec fn second_argument(arguments: Seq<char>) -> Option<Seq<char>> {
    if len_before(arguments, ',') < arguments.len() {
        let rest = arguments.skip(len_before(arguments, ',') as int + 1);
        Some(rest.take(len_before(rest, ',') as int))
    } else {
        None
    }
}

/// The signal that `name` names, if it names one.
pub open spec fn signal_named(name: Seq<char>) -> Option<Signal> {
    if exists|sig: Signal| sig.spec_name() == name {
        Some(choose|sig: Signal| sig.spec_name() == name)
    } else {
        None
    }
}

/// The setup that `word` spells.
///
/// `log=SIGNAL` logs the signal; `log=SIGNAL,true` also exits on it.
/// `exit=CODE` sets the exit code. Arguments past those are not looked at.
pub open spec fn setup_of(word: Seq<char>) -> Option<Result<Setup, ScriptFault>> {
    let first = first_argument(arguments_of(word));
    if action_of(word) == "log"@ {
        match signal_named(first) {
            Some(sig) => Some(
                Ok(Setup::Log(sig, second_argument(arguments_of(word)) == Some("true"@))),
            ),
            None => Some(Err(ScriptFault::SignalNameRequired)),
        }
    } else if action_of(word) == "exit"@ {
        match signed_value(first, i32::MIN as int, i32::MAX as int) {
            Some(code) => Some(Ok(Setup::ExitCode(code as i32))),
            None => Some(Err(ScriptFault::ExitCodeRequired)),
        }
    } else {
        None
    }
}

/// The operation that `word` spells, if it spells one: `sleep=MILLIS`,
/// `send=SIGNAL`, `panic` or `segfault`.
pub open spec fn op_of(word: Seq<char>) -> Option<Op> {
    let first = first_argument(arguments_of(word));
    if action_of(word) == "sleep"@ {
        match unsigned_value(first, u64::MAX as nat) {
            Some(ms) => Some(Op::Sleep(ms as u64)),
            None => None,
        }
    } else if action_of(word) == "send"@ {
        match signal_named(first) {
            Some(sig) => Some(Op::Signal(sig)),
            None => None,
        }
    } else if action_of(word) == "panic"@ {
        Some(Op::Panic)
    } else if action_of(word) == "segfault"@ {
        Some(Op::SegFault)
    } else {
        None
    }
}

/// The words that a word divides into: the action, the first argument, and
/// the second argument if there is one.
struct Parts {
    action: String,
    first: String,
    second: Option<String>,
}

/// Divides a word at its `=` and its arguments at their commas.
fn split(word: &str) -> (parts: Parts)
    ensures
        parts.action@ == action_of(word@),
        parts.first@ == first_argument(arguments_of(word@)),
        crate::lua::option_text(parts.second) == second_argument(arguments_of(word@)),
{
    let chars = chars_of(word);
    let n: usize = chars.len();
    assert(chars@.skip(0) == chars@);
    let eq = find_char(&chars, 0, '=');
    let action = string_of(&chars, 0, eq);
    if eq >= n {
        return Parts { action, first: String::new(), second: None };
    }
    let ghost arguments = chars@.skip(eq + 1);
    let comma = find_char(&chars, eq + 1, ',');
    let first = string_of(&chars, eq + 1, comma);
    if comma >= n {
        return Parts { action, first, second: None };
    }
    let ghost rest = arguments.skip(comma - (eq + 1) + 1);
    assert(rest == chars@.skip(comma + 1));
    let end = find_char(&chars, comma + 1, ',');
    let second = string_of(&chars, comma + 1, end);
    Parts { action, first, second: Some(second) }
}

/// The signal that `name` names.
fn signal_from_name(name: &str) -> (r: Option<Signal>)
    ensures
        r == signal_named(name@),
{
    let r = Signal::from_name(name);
    proof {
        match r {
            Some(sig) => {
                let other = choose|other: Signal| other.spec_name() == name@;
                lemma_names_differ(sig, other);
            },
            None => {},
        }
    }
    r
}

/// No two signals share a name.
proof fn lemma_names_differ(a: Signal, b: Signal)
    ensures
        a.spec_name() == b.spec_name() ==> a == b,
{
    reveal_strlit("SIGHUP");
    reveal_strlit("SIGINT");
    reveal_strlit("SIGQUIT");
    reveal_strlit("SIGKILL");
    reveal_strlit("SIGUSR1");
    reveal_strlit("SIGSEGV");
    reveal_strlit("SIGUSR2");
    reveal_strlit("SIGPIPE");
    reveal_strlit("SIGTERM");
    reveal_strlit("SIGWINCH");
    if a != b && a.spec_name() == b.spec_name() {
        assert(a.spec_name()[3] == b.spec_name()[3]);
        assert(a.spec_name()[6] == b.spec_name()[6]);
    }
}

impl Setup {
    /// The setup as a word of a script.
    pub open spec fn text(self) -> Seq<char> {
        match self {
            Setup::Log(sig, exit) => "log="@ + sig.spec_name() + ","@ + if exit {
                "true"@
            } else {
                "false"@
            },
            Setup::ExitCode(code) => "exit="@ + decimal_text(code as int),
        }
    }

    /// The setup as a word of a script.
    pub fn to_string(&self) -> (s: String)
        ensures
            s@ == self.text(),
    {
        match self {
            Setup::Log(sig, exit) => {
                let mut s = String::from_str("log=");
                s.append(sig.name());
                s.append(",");
                s.append(if *exit {
                    "true"
                } else {
                    "false"
                });
                s
            },
            Setup::ExitCode(code) => {
                let mut s = String::from_str("exit=");
                s.append(decimal(*code as i128).as_str());
                s
            },
        }
    }

    /// Reads a setup. `None` where the word is none; an error where it is
    /// one that lacks what it needs.
    pub fn from_str(word: &str) -> (r: Option<Result<Setup, ScriptError>>)
        ensures
            match r {
                Some(Ok(setup)) => setup_of(word@) == Some(Ok::<_, ScriptFault>(setup)),
                Some(Err(e)) => setup_of(word@) == Some(Err::<Setup, _>(e@)),
                None => setup_of(word@) is None,
            },
    {
        let parts = split(word);
        if same_text(parts.action.as_str(), "log") {
            match signal_from_name(parts.first.as_str()) {
                Some(sig) => {
                    let exit = match &parts.second {
                        Some(second) => same_text(second.as_str(), "true"),
                        None => false,
                    };
                    Some(Ok(Setup::Log(sig, exit)))
                },
                None => Some(Err(ScriptError::SignalNameRequired)),
            }
        } else if same_text(parts.action.as_str(), "exit") {
            match parse_i32(parts.first.as_str()) {
                Some(code) => Some(Ok(Setup::ExitCode(code))),
                None => Some(Err(ScriptError::ExitCodeRequired)),
            }
        } else {
            None
        }
    }
}

impl Op {
    /// The operation as a word of a script.
    pub open spec fn text(self) -> Seq<char> {
        match self {
            Op::Sleep(ms) => "sleep="@ + decimal_text(ms as int),
            Op::Signal(sig) => "send="@ + sig.spec_name(),
            Op::Panic => "panic"@,
            Op::SegFault => "segfault"@,
        }
    }

    /// The operation as a word of a script.
    pub fn to_string(&self) -> (s: String)
        ensures
            s@ == self.text(),
    {
        match self {
            Op::Sleep(ms) => {
                let mut s = String::from_str("sleep=");
                s.append(decimal(*ms as i128).as_str());
                s
            },
            Op::Signal(sig) => {
                let mut s = String::from_str("send=");
                s.append(sig.name());
                s
            },
            Op::Panic => String::from_str("panic"),
            Op::SegFault => String::from_str("segfault"),
        }
    }

    /// Reads an operation.
    pub fn from_str(word: &str) -> (r: Option<Op>)
        ensures
            r == op_of(word@),
    {
        let parts = split(word);
        if same_text(parts.action.as_str(), "sleep") {
            match parse_unsigned(parts.first.as_str(), u64::MAX) {
                Some(ms) => Some(Op::Sleep(ms)),
                None => None,
            }
        } else if same_text(parts.action.as_str(), "send") {
            match signal_from_name(parts.first.as_str()) {
                Some(sig) => Some(Op::Signal(sig)),
                None => None,
            }
        } else if same_text(parts.action.as_str(), "panic") {
            Some(Op::Panic)
        } else if same_text(parts.action.as_str(), "segfault") {
            Some(Op::SegFault)
        } else {
            None
        }
    }
}

/// What the stand-in is to do: its setups, then its operations.
#[derive(Debug, Clone, PartialEq, Eq)]
pub struct Script {
    pub setups: Vec<Setup>,
    pub ops: Vec<Op>,
}

/// The setups as words.
pub open spec fn setup_texts(setups: Seq<Setup>) -> Seq<Seq<char>> {
    Seq::new(setups.len(), |i: int| setups[i].text())
}

/// The operations as words.
pub open spec fn op_texts(ops: Seq<Op>) -> Seq<Seq<char>> {
    Seq::new(ops.len(), |i: int| ops[i].text())
}

/// The setups that log each of `sigs` but `except`, in order.
pub open spec fn logs_among(sigs: Seq<Signal>, except: Option<Signal>, exit: bool) -> Seq<Setup>
    decreases sigs.len(),
{
    if sigs.len() == 0 {
        Seq::empty()
    } else if Some(sigs.last()) == except {
        logs_among(sigs.drop_last(), except, exit)
    } else {
        logs_among(sigs.drop_last(), except, exit).push(Setup::Log(sigs.last(), exit))
    }
}

/// The setups that log every signal of [`logged_signals`] but `except`.
pub open spec fn logs_except(except: Option<Signal>, exit: bool) -> Seq<Setup> {
    logs_among(logged_signals(), except, exit)
}

/// The script after the words `list` are read into it; the error of the
/// first word that is no part of a script.
pub open spec fn script_read(setups: Seq<Setup>, ops: Seq<Op>, list: Seq<Seq<char>>) -> Result<
    (Seq<Setup>, Seq<Op>),
    ScriptFault,
>
    decreases list.len(),
{
    if list.len() == 0 {
        Ok((setups, ops))
    } else {
        match setup_of(list[0]) {
            Some(Ok(setup)) => script_read(setups.push(setup), ops, list.drop_first()),
            Some(Err(e)) => Err(e),
            None => match op_of(list[0]) {
                Some(op) => script_read(setups, ops.push(op), list.drop_first()),
                None => Err(ScriptFault::UnknownAction(list[0])),
            },
        }
    }
}

impl Default for Script {
    /// A script that arranges and does nothing.
    fn default() -> (script: Script)
        ensures
            script.setups@.len() == 0,
            script.ops@.len() == 0,
    {
        Script { setups: Vec::new(), ops: Vec::new() }
    }
}

impl Script {
    /// The code that the stand-in exits with: that of the last setup that
    /// names one, and zero without any.
    pub open spec fn spec_exit_code(setups: Seq<Setup>) -> i32
        decreases setups.len(),
    {
        if setups.len() == 0 {
            0
        } else {
            match setups.last() {
                Setup::ExitCode(code) => code,
                Setup::Log(_, _) => Script::spec_exit_code(setups.drop_last()),
            }
        }
    }

    /// The code that the stand-in exits with once it has done everything.
    pub fn exit_code(&self) -> (code: i32)
        ensures
            code == Script::spec_exit_code(self.setups@),
    {
        let mut i: usize = self.setups.len();
        assert(self.setups@.take(i as int) == self.setups@);
        while i > 0
            invariant
                i <= self.setups.len(),
                Script::spec_exit_code(self.setups@) == Script::spec_exit_code(
                    self.setups@.take(i as int),
                ),
            decreases i,
        {
            let ghost upto = self.setups@.take(i as int);
            assert(upto.drop_last() == self.setups@.take(i - 1));
            match self.setups[i - 1] {
                Setup::ExitCode(code) => {
                    return code;
                },
                Setup::Log(_, _) => {},
            }
            i = i - 1;
        }
        0
    }

    /// Logs every signal of [`logged_signals`].
    pub fn log_all(&mut self, exit: bool) -> (script: &mut Self)
        ensures
            script.ops == old(self).ops,
            script.setups@ == old(self).setups@ + logs_except(None, exit),
            *final(self) == *final(script),
    {
        self.log_but(None, exit);
        self
    }

    /// Logs every signal of [`logged_signals`] but `s`, and exits on each.
    pub fn log_except(&mut self, s: Signal) -> (script: &mut Self)
        ensures
            script.ops == old(self).ops,
            script.setups@ == old(self).setups@ + logs_except(Some(s), true),
            *final(self) == *final(script),
    {
        self.log_but(Some(s), true);
        self
    }

    /// Logs every signal of [`logged_signals`] but `except`.
    fn log_but(&mut self, except: Option<Signal>, exit: bool)
        ensures
            final(self).ops == old(self).ops,
            final(self).setups@ == old(self).setups@ + logs_except(except, exit),
    {
        let all: [Signal; 8] = [
            Signal::Hup,
            Signal::Int,
            Signal::Pipe,
            Signal::Quit,
            Signal::Term,
            Signal::Usr1,
            Signal::Usr2,
            Signal::Winch,
        ];
        let mut i: usize = 0;
        while i < 8
            invariant
                i <= 8,
                all@ == logged_signals(),
                self.ops == old(self).ops,
                self.setups@ == old(self).setups@ + logs_among(all@.take(i as int), except, exit),
            decreases 8 - i,
        {
            let sig = all[i];
            let skip = match except {
                Some(s) => s == sig,
                None => false,
            };
            if !skip {
                self.setups.push(Setup::Log(sig, exit));
            }
            i = i + 1;
            proof {
                let done = all@.take(i as int);
                assert(done.drop_last() == all@.take(i - 1));
            }
        }
        assert(all@.take(i as int) == all@);
    }

    /// Logs `s`, and exits on it if asked to.
    pub fn log(&mut self, s: Signal, exit: bool) -> (script: &mut Self)
        ensures
            script.ops == old(self).ops,
            script.setups@ == old(self).setups@.push(Setup::Log(s, exit)),
            *final(self) == *final(script),
    {
        self.setups.push(Setup::Log(s, exit));
        self
    }

    /// Exits with `rc` at the end.
    pub fn exit(&mut self, rc: i32) -> (script: &mut Self)
        ensures
            script.ops == old(self).ops,
            script.setups@ == old(self).setups@.push(Setup::ExitCode(rc)),
            *final(self) == *final(script),
    {
        self.setups.push(Setup::ExitCode(rc));
        self
    }

    /// Pauses for `ms` milliseconds.
    pub fn sleep(&mut self, ms: u64) -> (script: &mut Self)
        ensures
            script.setups == old(self).setups,
            script.ops@ == old(self).ops@.push(Op::Sleep(ms)),
            *final(self) == *final(script),
    {
        self.ops.push(Op::Sleep(ms));
        self
    }

    /// Sends `s` to the supervisor.
    pub fn send(&mut self, s: Signal) -> (script: &mut Self)
        ensures
            script.setups == old(self).setups,
            script.ops@ == old(self).ops@.push(Op::Signal(s)),
            *final(self) == *final(script),
    {
        self.ops.push(Op::Signal(s));
        self
    }

    /// Panics.
    pub fn panic(&mut self) -> (script: &mut Self)
        ensures
            script.setups == old(self).setups,
            script.ops@ == old(self).ops@.push(Op::Panic),
            *final(self) == *final(script),
    {
        self.ops.push(Op::Panic);
        self
    }

    /// Runs into a segmentation fault.
    pub fn segfault(&mut self) -> (script: &mut Self)
        ensures
            script.setups == old(self).setups,
            script.ops@ == old(self).ops@.push(Op::SegFault),
            *final(self) == *final(script),
    {
        self.ops.push(Op::SegFault);
        self
    }

    /// The script as text: its setups, then its operations, one space
    /// between each two.
    pub open spec fn text(&self) -> Seq<char> {
        joined(setup_texts(self.setups@) + op_texts(self.ops@), seq![' '])
    }

    /// The script as text.
    pub fn to_string(&self) -> (s: String)
        ensures
            s@ == self.text(),
    {
        let mut list: Vec<String> = Vec::new();
        let mut i: usize = 0;
        while i < self.setups.len()
            invariant
                i <= self.setups.len(),
                texts(list@) == setup_texts(self.setups@).take(i as int),
            decreases self.setups.len() - i,
        {
            let ghost before = list@;
            let word = self.setups[i].to_string();
            list.push(word);
            i = i + 1;
            proof {
                crate::text::lemma_texts_push(before, word);
            }
        }
        let mut j: usize = 0;
        while j < self.ops.len()
            invariant
                j <= self.ops.len(),
                texts(list@) == setup_texts(self.setups@) + op_texts(self.ops@).take(j as int),
            decreases self.ops.len() - j,
        {
            let ghost before = list@;
            let word = self.ops[j].to_string();
            list.push(word);
            j = j + 1;
            proof {
                crate::text::lemma_texts_push(before, word);
            }
        }
        assert(op_texts(self.ops@).take(j as int) == op_texts(self.ops@));
        proof {
            reveal_strlit(" ");
            assert(" "@ == seq![' ']);
        }
        crate::text::join(&list, " ")
    }

    /// Reads a script from its words, which whitespace divides.
    pub fn from_str(s: &str) -> (r: Result<Script, ScriptError>)
        ensures
            match r {
                Ok(script) => script_read(Seq::empty(), Seq::empty(), words(s@)) == Ok::<
                    _,
                    ScriptFault,
                >((script.setups@, script.ops@)),
                Err(e) => script_read(Seq::empty(), Seq::empty(), words(s@)) == Err::<
                    (Seq<Setup>, Seq<Op>),
                    _,
                >(e@),
            },
    {
        let list = split_whitespace(s);
        let mut setups: Vec<Setup> = Vec::new();
        let mut ops: Vec<Op> = Vec::new();
        let mut i: usize = 0;
        let ghost all = words(s@);
        assert(all.skip(0) == all);
        while i < list.len()
            invariant
                i <= list.len(),
                texts(list@) == all,
                all == words(s@),
                script_read(Seq::empty(), Seq::empty(), all) == script_read(
                    setups@,
                    ops@,
                    all.skip(i as int),
                ),
            decreases list.len() - i,
        {
            let ghost rest = all.skip(i as int);
            assert(rest.drop_first() == all.skip(i + 1));
            let word = list[i].as_str();
            match Setup::from_str(word) {
                Some(Ok(setup)) => {
                    setups.push(setup);
                },
                Some(Err(e)) => {
                    return Err(e);
                },
                None => match Op::from_str(word) {
                    Some(op) => {
                        ops.push(op);
                    },
                    None => {
                        return Err(ScriptError::UnknownAction(list[i].clone()));
                    },
                },
            }
            i = i + 1;
        }
        Ok(Script { setups, ops })
    }
}

} // verus!
