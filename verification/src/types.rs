//! The values that command-line options carry, the buffer that generated
//! text is collected in, and the errors of argument handling.

use vstd::prelude::*;
use vstd::string::*;
use crate::text::{
    chars_of, is_ascii_digit, parse_unsigned, push_char, same_text, split_whitespace, string_of,
    texts, unsigned_value, words,
};

verus! {

/// `s` without its enclosing square brackets, if it has both.
pub open spec fn without_brackets(s: Seq<char>) -> Seq<char> {
    if s.len() >= 2 && s[0] == '[' && s.last() == ']' {
        s.subrange(1, s.len() - 1)
    } else {
        s
    }
}

/// Strips one pair of enclosing square brackets, as around an IPv6 address.
pub fn trim_brackets(s: &str) -> (r: String)
    ensures
        r@ == without_brackets(s@),
{
    let chars = chars_of(s);
    let n: usize = chars.len();
    if n >= 2 && chars[0] == '[' && chars[n - 1] == ']' {
        string_of(&chars, 1, n - 1)
    } else {
        string_of(&chars, 0, n)
    }
}

/// Whether `c` may stand in the name of a shared dictionary.
pub open spec fn is_name_char(c: char) -> bool {
    is_ascii_digit(c) || 'a' <= c <= 'z' || 'A' <= c <= 'Z' || c == '_'
}

/// Whether `s` is a size: a number that fits 32 bits, optionally followed by
/// one of `k`, `K`, `m`, `M`.
pub open spec fn is_size(s: Seq<char>) -> bool {
    let number = if s.len() > 0 && (s.last() == 'k' || s.last() == 'K' || s.last() == 'm'
        || s.last() == 'M') {
        s.drop_last()
    } else {
        s
    };
    unsigned_value(number, u32::MAX as nat) is Some
}

/// The text of the shared dictionary that `s` describes: its name and its
/// size with one space between them.
///
/// `s` must neither begin nor end with a space and must consist of exactly
/// two words, a name of letters, digits and `_`, and a size.
pub open spec fn shdict_text(s: Seq<char>) -> Option<Seq<char>> {
    if s.len() > 0 && (s[0] == ' ' || s.last() == ' ') {
        None
    } else if words(s).len() != 2 {
        None
    } else if !(forall|i: int| 0 <= i < words(s)[0].len() ==> is_name_char(#[trigger] words(s)[0][i])) {
        None
    } else if !is_size(words(s)[1]) {
        None
    } else {
        Some(words(s)[0] + seq![' '] + words(s)[1])
    }
}

/// A shared dictionary: `NAME SIZE`.
#[derive(Debug, PartialEq, Eq, Clone)]
pub struct Shdict(String);

/// The input that did not describe a shared dictionary.
#[derive(Debug, PartialEq, Eq, Clone)]
pub struct InvalidShdict(pub String);

impl InvalidShdict {
    /// What was expected instead.
    pub fn message(&self) -> (s: String)
        ensures
            s@ == "expecting NAME SIZE"@,
    {
        String::from_str("expecting NAME SIZE")
    }
}

impl View for Shdict {
    type V = Seq<char>;

    closed spec fn view(&self) -> Seq<char> {
        self.0@
    }
}

impl Shdict {
    /// Reads a shared dictionary from `NAME SIZE`; the error holds the input.
    pub fn from_str(s: &str) -> (r: Result<Shdict, InvalidShdict>)
        ensures
            match r {
                Ok(dict) => shdict_text(s@) == Some(dict@),
                Err(e) => shdict_text(s@) is None && e.0@ == s@,
            },
    {
        let chars = chars_of(s);
        let n: usize = chars.len();
        if n > 0 && (chars[0] == ' ' || chars[n - 1] == ' ') {
            return Err(InvalidShdict(String::from_str(s)));
        }
        let parts = split_whitespace(s);
        if parts.len() != 2 {
            return Err(InvalidShdict(String::from_str(s)));
        }
        let name = chars_of(parts[0].as_str());
        let mut i: usize = 0;
        while i < name.len()
            invariant
                i <= name.len(),
                name@ == words(s@)[0],
                shdict_text(s@) is Some ==> forall|j: int|
                    0 <= j < name@.len() ==> is_name_char(#[trigger] name@[j]),
                forall|j: int| 0 <= j < i ==> is_name_char(#[trigger] name@[j]),
            decreases name.len() - i,
        {
            let c: char = name[i];
            let ok = ('0' <= c && c <= '9') || ('a' <= c && c <= 'z') || ('A' <= c && c <= 'Z')
                || c == '_';
            if !ok {
                return Err(InvalidShdict(String::from_str(s)));
            }
            i = i + 1;
        }
        let size = chars_of(parts[1].as_str());
        let m: usize = size.len();
        let digits_end: usize = if m > 0 && (size[m - 1] == 'k' || size[m - 1] == 'K' || size[m
            - 1] == 'm' || size[m - 1] == 'M') {
            m - 1
        } else {
            m
        };
        let number = string_of(&size, 0, digits_end);
        assert(number@ == if size@.len() > 0 && (size@.last() == 'k' || size@.last() == 'K'
            || size@.last() == 'm' || size@.last() == 'M') {
            size@.drop_last()
        } else {
            size@
        });
        if parse_unsigned(number.as_str(), 4294967295).is_none() {
            return Err(InvalidShdict(String::from_str(s)));
        }
        let mut text = parts[0].clone();
        push_char(&mut text, ' ');
        text.append(parts[1].as_str());
        Ok(Shdict(text))
    }

    /// The dictionary as `NAME SIZE`.
    pub fn as_str(&self) -> (s: &str)
        ensures
            s@ == self@,
    {
        self.0.as_str()
    }

    /// The dictionary as `NAME SIZE`.
    pub fn into_string(self) -> (s: String)
        ensures
            s@ == self@,
    {
        self.0
    }

    /// The configuration line that declares the dictionary.
    pub fn to_nginx(&self) -> (line: String)
        ensures
            line@ == "lua_shared_dict "@ + self@ + ";"@,
    {
        let mut line = String::from_str("lua_shared_dict ");
        line.append(self.0.as_str());
        line.append(";");
        line
    }
}

/// The level from which the child writes to its error log.
#[derive(Clone, Copy, Debug, PartialEq, Eq, Structural)]
pub enum LogLevel {
    Debug,
    Info,
    Notice,
    Warn,
    Error,
    Crit,
    Alert,
    Emerg,
}

impl LogLevel {
    /// The level's name, in lower case.
    pub open spec fn name(self) -> Seq<char> {
        match self {
            LogLevel::Debug => "debug"@,
            LogLevel::Info => "info"@,
            LogLevel::Notice => "notice"@,
            LogLevel::Warn => "warn"@,
            LogLevel::Error => "error"@,
            LogLevel::Crit => "crit"@,
            LogLevel::Alert => "alert"@,
            LogLevel::Emerg => "emerg"@,
        }
    }

    /// The level's name, in lower case.
    pub fn as_str(&self) -> (s: &'static str)
        ensures
            s@ == self.name(),
    {
        match self {
            LogLevel::Debug => "debug",
            LogLevel::Info => "info",
            LogLevel::Notice => "notice",
            LogLevel::Warn => "warn",
            LogLevel::Error => "error",
            LogLevel::Crit => "crit",
            LogLevel::Alert => "alert",
            LogLevel::Emerg => "emerg",
        }
    }

    /// The level with the given lower-case name.
    pub fn from_str(s: &str) -> (r: Option<LogLevel>)
        ensures
            match r {
                Some(level) => level.name() == s@,
                None => forall|level: LogLevel| level.name() != s@,
            },
    {
        if same_text(s, "debug") {
            Some(LogLevel::Debug)
        } else if same_text(s, "info") {
            Some(LogLevel::Info)
        } else if same_text(s, "notice") {
            Some(LogLevel::Notice)
        } else if same_text(s, "warn") {
            Some(LogLevel::Warn)
        } else if same_text(s, "error") {
            Some(LogLevel::Error)
        } else if same_text(s, "crit") {
            Some(LogLevel::Crit)
        } else if same_text(s, "alert") {
            Some(LogLevel::Alert)
        } else if same_text(s, "emerg") {
            Some(LogLevel::Emerg)
        } else {
            None
        }
    }
}

impl Default for LogLevel {
    fn default() -> (level: LogLevel)
        ensures
            level == LogLevel::Warn,
    {
        LogLevel::Warn
    }
}

/// What the just-in-time compiler of the Lua runtime is asked to do.
#[derive(Clone, Copy, Debug, PartialEq, Eq, Structural)]
pub enum JitCmd {
    /// Print brief information on the traces the compiler generates.
    V,
    /// Print detailed information on the traces the compiler generates.
    Dump,
    /// Turn the compiler off.
    Off,
}

impl JitCmd {
    /// The option value that selects the command.
    pub open spec fn name(self) -> Seq<char> {
        match self {
            JitCmd::V => "v"@,
            JitCmd::Dump => "dump"@,
            JitCmd::Off => "off"@,
        }
    }

    /// The Lua statement that carries the command out.
    pub open spec fn lua(self) -> Seq<char> {
        match self {
            JitCmd::V => "require \"jit.v\".on()"@,
            JitCmd::Dump => "require \"jit.dump\".on()"@,
            JitCmd::Off => "require \"jit\".off()"@,
        }
    }

    /// The command that the option value `s` selects.
    pub fn from_str(s: &str) -> (r: Option<JitCmd>)
        ensures
            match r {
                Some(cmd) => cmd.name() == s@,
                None => forall|cmd: JitCmd| cmd.name() != s@,
            },
    {
        if same_text(s, "v") {
            Some(JitCmd::V)
        } else if same_text(s, "dump") {
            Some(JitCmd::Dump)
        } else if same_text(s, "off") {
            Some(JitCmd::Off)
        } else {
            None
        }
    }

    /// The Lua statement that carries the command out.
    pub fn to_lua(&self) -> (s: String)
        ensures
            s@ == self.lua(),
    {
        match self {
            JitCmd::V => String::from_str("require \"jit.v\".on()"),
            JitCmd::Dump => String::from_str("require \"jit.dump\".on()"),
            JitCmd::Off => String::from_str("require \"jit\".off()"),
        }
    }
}

/// The whitespace that one level of indentation adds.
pub open spec fn indent_unit() -> Seq<char> {
    seq![' ', ' ', ' ', ' ']
}

/// The whitespace that a line at the given level begins with.
pub open spec fn indentation(level: nat) -> Seq<char>
    decreases level,
{
    if level == 0 {
        Seq::empty()
    } else {
        indentation((level - 1) as nat) + indent_unit()
    }
}

/// Lines of generated text, each begun at the current level of indentation.
#[derive(Debug)]
pub struct Buf {
    lines: Vec<String>,
    indent: usize,
}

/// What a [`Buf`] holds.
pub struct BufView {
    /// The lines collected so far.
    pub lines: Seq<Seq<char>>,
    /// The level at which the next line begins.
    pub indent: nat,
}

impl View for Buf {
    type V = BufView;

    closed spec fn view(&self) -> BufView {
        BufView { lines: texts(self.lines@), indent: self.indent as nat }
    }
}

impl Buf {
    /// An empty buffer at level zero.
    pub fn new() -> (buf: Buf)
        ensures
            buf@.lines == Seq::<Seq<char>>::empty(),
            buf@.indent == 0,
    {
        let buf = Buf { lines: Vec::new(), indent: 0 };
        buf
    }

    /// Adds an empty line.
    pub fn newline(&mut self)
        ensures
            final(self)@.lines == old(self)@.lines.push(Seq::empty()),
            final(self)@.indent == old(self)@.indent,
    {
        let line = String::new();
        self.lines.push(line);
    }

    /// Adds `s` as a line, indented to the current level.
    pub fn append(&mut self, s: &str)
        ensures
            final(self)@.lines == old(self)@.lines.push(indentation(old(self)@.indent) + s@),
            final(self)@.indent == old(self)@.indent,
    {
        let mut line = String::new();
        let mut level: usize = 0;
        while level < self.indent
            invariant
                level <= self.indent,
                line@ == indentation(level as nat),
                *self == *old(self),
            decreases self.indent - level,
        {
            push_char(&mut line, ' ');
            push_char(&mut line, ' ');
            push_char(&mut line, ' ');
            push_char(&mut line, ' ');
            level = level + 1;
        }
        line.append(s);
        self.lines.push(line);
    }

    /// The lines collected.
    pub fn finalize(self) -> (lines: Vec<String>)
        ensures
            texts(lines@) == self@.lines,
    {
        self.lines
    }

    /// Begins the following lines one level deeper.
    pub fn indent(&mut self)
        requires
            old(self)@.indent < usize::MAX,
        ensures
            final(self)@.lines == old(self)@.lines,
            final(self)@.indent == old(self)@.indent + 1,
    {
        self.indent = self.indent + 1;
    }

    /// Begins the following lines one level less deep.
    pub fn dedent(&mut self)
        requires
            old(self)@.indent > 0,
        ensures
            final(self)@.lines == old(self)@.lines,
            final(self)@.indent == old(self)@.indent - 1,
    {
        self.indent = self.indent - 1;
    }
}

/// What can be wrong with the command line.
#[derive(Debug, Clone, PartialEq, Eq)]
pub enum ArgError {
    /// The file to include in the named section was not found.
    MissingInclude(String, String),
    /// The two options exclude each other.
    Conflict(String, String),
    /// The option's value was not accepted, for the reason given.
    InvalidValue { arg: String, value: String, err: String },
    UnknownArgument(String),
    /// The option needs a value and has none.
    MissingValue(String),
    /// Neither a Lua file nor inline Lua was given.
    NoLuaInput,
    /// The option was given more than once.
    Duplicate(String),
    LuaFileNotFound(String),
}

impl ArgError {
    /// The code that the process exits with on this error.
    pub open spec fn code(self) -> i32 {
        match self {
            ArgError::MissingInclude(_, _) => 2,
            ArgError::Conflict(_, _) => 25,
            ArgError::UnknownArgument(_) => 1,
            ArgError::InvalidValue { .. } => 255,
            ArgError::MissingValue(_) => 255,
            ArgError::NoLuaInput => 2,
            ArgError::LuaFileNotFound(_) => 2,
            ArgError::Duplicate(_) => 255,
        }
    }

    /// The line that tells the user of this error.
    pub open spec fn text(self) -> Seq<char> {
        match self {
            ArgError::MissingInclude(section, file) => "ERROR: could not find "@ + section@
                + " include file '"@ + file@ + "'"@,
            ArgError::Conflict(first, second) => "ERROR: options "@ + first@ + " and "@ + second@
                + " cannot be specified at the same time."@,
            ArgError::InvalidValue { arg, value, err } => "ERROR: Invalid "@ + arg@
                + " option value: "@ + value@ + "\n  ("@ + err@ + ")"@,
            ArgError::UnknownArgument(arg) => "unknown argument: `"@ + arg@ + "`"@,
            ArgError::MissingValue(arg) => "option "@ + arg@
                + " takes an argument but found none."@,
            ArgError::NoLuaInput => "Neither Lua input file nor -e \"\" option specified."@,
            ArgError::Duplicate(arg) => "duplicate "@ + arg@ + " options"@,
            ArgError::LuaFileNotFound(file) => "Lua input file "@ + file@ + " not found."@,
        }
    }

    /// The code that the process exits with on this error.
    pub fn exit_code(&self) -> (code: i32)
        ensures
            code == self.code(),
    {
        match self {
            ArgError::MissingInclude(_, _) => 2,
            ArgError::Conflict(_, _) => 25,
            ArgError::UnknownArgument(_) => 1,
            ArgError::InvalidValue { arg: _, value: _, err: _ } => 255,
            ArgError::MissingValue(_) => 255,
            ArgError::NoLuaInput => 2,
            ArgError::LuaFileNotFound(_) => 2,
            ArgError::Duplicate(_) => 255,
        }
    }

    /// The line that tells the user of this error.
    pub fn message(&self) -> (s: String)
        ensures
            s@ == self.text(),
    {
        match self {
            ArgError::MissingInclude(section, file) => {
                let mut s = String::from_str("ERROR: could not find ");
                s.append(section.as_str());
                s.append(" include file '");
                s.append(file.as_str());
                s.append("'");
                s
            },
            ArgError::Conflict(first, second) => {
                let mut s = String::from_str("ERROR: options ");
                s.append(first.as_str());
                s.append(" and ");
                s.append(second.as_str());
                s.append(" cannot be specified at the same time.");
                s
            },
            ArgError::InvalidValue { arg, value, err } => {
                let mut s = String::from_str("ERROR: Invalid ");
                s.append(arg.as_str());
                s.append(" option value: ");
                s.append(value.as_str());
                s.append("\n  (");
                s.append(err.as_str());
                s.append(")");
                s
            },
            ArgError::UnknownArgument(arg) => {
                let mut s = String::from_str("unknown argument: `");
                s.append(arg.as_str());
                s.append("`");
                s
            },
            ArgError::MissingValue(arg) => {
                let mut s = String::from_str("option ");
                s.append(arg.as_str());
                s.append(" takes an argument but found none.");
                s
            },
            ArgError::NoLuaInput => String::from_str(
                "Neither Lua input file nor -e \"\" option specified.",
            ),
            ArgError::Duplicate(arg) => {
                let mut s = String::from_str("duplicate ");
                s.append(arg.as_str());
                s.append(" options");
                s
            },
            ArgError::LuaFileNotFound(file) => {
                let mut s = String::from_str("Lua input file ");
                s.append(file.as_str());
                s.append(" not found.");
                s
            },
        }
    }
}

} // verus!
