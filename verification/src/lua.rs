//! The Lua text handed to the child: quoted strings, search paths and the
//! loader that runs the user's code.

use vstd::prelude::*;
use vstd::string::*;
use crate::text::{
    chars_of, decimal, decimal_text, join, joined, push_char, push_repeated, repeated, texts,
};
use crate::types::{indentation, Buf};

verus! {

/// How many `=` stand in a row just before index `end` of `s`.
pub open spec fn equals_before(s: Seq<char>, end: int) -> nat
    decreases end,
{
    if 0 < end <= s.len() && s[end - 1] == '=' {
        1 + equals_before(s, end - 1)
    } else {
        0
    }
}

/// The level counted for the `=` that end just before index `end`: their
/// number if a `]` stands in front of them, one less if not.
pub open spec fn run_level(s: Seq<char>, end: int) -> nat {
    let n = equals_before(s, end);
    if n == 0 {
        0
    } else if end - n > 0 && s[end - n - 1] == ']' {
        n
    } else {
        (n - 1) as nat
    }
}

/// The level that the character at index `at` closes: that of the `=` in
/// front of it if it is a `]`, zero otherwise.
pub open spec fn closed_level(s: Seq<char>, at: int) -> nat {
    if 0 <= at < s.len() && s[at] == ']' {
        run_level(s, at)
    } else {
        0
    }
}

/// The highest level closed anywhere before index `upto`.
pub open spec fn max_closed_level(s: Seq<char>, upto: int) -> nat
    decreases upto,
{
    if upto <= 0 {
        0
    } else if closed_level(s, upto - 1) > max_closed_level(s, upto - 1) {
        closed_level(s, upto - 1)
    } else {
        max_closed_level(s, upto - 1)
    }
}

/// The level of long bracket chosen to quote `s`: one more than the highest
/// level closed in it.
pub open spec fn bracket_level(s: Seq<char>) -> nat {
    max_closed_level(s, s.len() as int) + 1
}

/// A run of `=` before `end` lies within the first `end` characters.
proof fn lemma_equals_before_bound(s: Seq<char>, end: int)
    requires
        0 <= end <= s.len(),
    ensures
        equals_before(s, end) <= end,
    decreases end,
{
    if 0 < end && s[end - 1] == '=' {
        lemma_equals_before_bound(s, end - 1);
    }
}

/// No level is higher than the number of characters looked at.
proof fn lemma_max_closed_level_bound(s: Seq<char>, upto: int)
    requires
        0 <= upto <= s.len(),
    ensures
        max_closed_level(s, upto) <= upto,
        upto > 0 ==> max_closed_level(s, upto) < upto,
    decreases upto,
{
    if upto > 0 {
        lemma_max_closed_level_bound(s, upto - 1);
        lemma_equals_before_bound(s, upto - 1);
    }
}

/// The level of long bracket that quotes `s`.
pub fn get_bracket_level(s: &str) -> (level: usize)
    ensures
        level == bracket_level(s@),
{
    let chars = chars_of(s);
    let mut max_level: usize = 0;
    let mut level: usize = 0;
    let mut i: usize = 0;
    while i < chars.len()
        invariant
            i <= chars.len(),
            chars@ == s@,
            max_level == max_closed_level(chars@, i as int),
            i > 0 && chars@[i - 1] == '=' ==> level == run_level(chars@, i as int),
            i == 0 || (chars@[i - 1] != '=' && chars@[i - 1] != ']') ==> level == 0,
        decreases chars.len() - i,
    {
        let c: char = chars[i];
        proof {
            lemma_equals_before_bound(chars@, i as int);
        }
        let after_bracket: bool = i > 0 && chars[i - 1] == ']';
        let after_equals: bool = i > 0 && chars[i - 1] == '=';
        if after_bracket && c == '=' {
            level = 1;
        } else if after_equals && c == '=' {
            level = level + 1;
        } else if after_equals && c == ']' {
            if level > max_level {
                max_level = level;
            }
        } else {
            level = 0;
        }
        i = i + 1;
    }
    proof {
        lemma_max_closed_level_bound(chars@, i as int);
    }
    max_level + 1
}

/// `s` between long brackets of the level chosen for it.
pub open spec fn quoted(s: Seq<char>) -> Seq<char> {
    seq!['['] + repeated('=', bracket_level(s)) + seq!['['] + s + seq![']'] + repeated(
        '=',
        bracket_level(s),
    ) + seq![']']
}

/// Quotes `s` as a Lua long string.
pub fn quote_lua_string(s: &str) -> (q: String)
    ensures
        q@ == quoted(s@),
{
    let level = get_bracket_level(s);
    let mut q = String::new();
    push_char(&mut q, '[');
    push_repeated(&mut q, '=', level);
    push_char(&mut q, '[');
    q.append(s);
    push_char(&mut q, ']');
    push_repeated(&mut q, '=', level);
    push_char(&mut q, ']');
    q
}

/// The places searched for Lua modules under each directory of `dirs`.
pub open spec fn path_entries(dirs: Seq<Seq<char>>) -> Seq<char>
    decreases dirs.len(),
{
    if dirs.len() == 0 {
        Seq::empty()
    } else {
        path_entries(dirs.drop_last()) + dirs.last() + "/?.ljbc;"@ + dirs.last() + "/?.lua;"@
            + dirs.last() + "/?/init.ljbc;"@ + dirs.last() + "/?/init.lua;"@
    }
}

/// The places searched for compiled modules under each directory of `dirs`.
pub open spec fn cpath_entries(dirs: Seq<Seq<char>>) -> Seq<char>
    decreases dirs.len(),
{
    if dirs.len() == 0 {
        Seq::empty()
    } else {
        cpath_entries(dirs.drop_last()) + dirs.last() + "/?.so;"@
    }
}

/// The directive that sets the search path for Lua modules, or none for no
/// directories. The closing `;;` keeps the default path in.
pub open spec fn package_path_text(dirs: Seq<Seq<char>>) -> Option<Seq<char>> {
    if dirs.len() == 0 {
        None
    } else {
        Some("lua_package_path \""@ + path_entries(dirs) + ";\";"@)
    }
}

/// The directive that sets the search path for compiled modules, or none
/// for no directories.
pub open spec fn package_cpath_text(dirs: Seq<Seq<char>>) -> Option<Seq<char>> {
    if dirs.len() == 0 {
        None
    } else {
        Some("lua_package_cpath \""@ + cpath_entries(dirs) + ";\";"@)
    }
}

/// The directive that sets the search path for Lua modules.
pub fn package_path(dirs: &Vec<String>) -> (r: Option<String>)
    ensures
        match r {
            Some(path) => package_path_text(texts(dirs@)) == Some(path@),
            None => package_path_text(texts(dirs@)) is None,
        },
{
    if dirs.len() == 0 {
        return None;
    }
    let mut path = String::from_str("lua_package_path \"");
    let mut i: usize = 0;
    while i < dirs.len()
        invariant
            i <= dirs.len(),
            path@ == "lua_package_path \""@ + path_entries(texts(dirs@).take(i as int)),
        decreases dirs.len() - i,
    {
        let dir = dirs[i].as_str();
        path.append(dir);
        path.append("/?.ljbc;");
        path.append(dir);
        path.append("/?.lua;");
        path.append(dir);
        path.append("/?/init.ljbc;");
        path.append(dir);
        path.append("/?/init.lua;");
        i = i + 1;
        proof {
            let done = texts(dirs@).take(i as int);
            assert(done.drop_last() == texts(dirs@).take(i - 1));
        }
    }
    assert(texts(dirs@).take(i as int) == texts(dirs@));
    path.append(";\";");
    Some(path)
}

/// The directive that sets the search path for compiled modules.
pub fn package_cpath(dirs: &Vec<String>) -> (r: Option<String>)
    ensures
        match r {
            Some(path) => package_cpath_text(texts(dirs@)) == Some(path@),
            None => package_cpath_text(texts(dirs@)) is None,
        },
{
    if dirs.len() == 0 {
        return None;
    }
    let mut path = String::from_str("lua_package_cpath \"");
    let mut i: usize = 0;
    while i < dirs.len()
        invariant
            i <= dirs.len(),
            path@ == "lua_package_cpath \""@ + cpath_entries(texts(dirs@).take(i as int)),
        decreases dirs.len() - i,
    {
        let dir = dirs[i].as_str();
        path.append(dir);
        path.append("/?.so;");
        i = i + 1;
        proof {
            let done = texts(dirs@).take(i as int);
            assert(done.drop_last() == texts(dirs@).take(i - 1));
        }
    }
    assert(texts(dirs@).take(i as int) == texts(dirs@));
    path.append(";\";");
    Some(path)
}

/// The statement that sets the argument at `index` to `value`.
pub open spec fn arg_line(index: int, value: Seq<char>) -> Seq<char> {
    "arg["@ + decimal_text(index) + "] = "@ + quoted(value)
}

/// One statement for each of `args`, numbered from one.
pub open spec fn numbered_args(args: Seq<Seq<char>>) -> Seq<Seq<char>> {
    Seq::new(args.len(), |i: int| arg_line(i + 1, args[i]))
}

/// The index at which the program's own name is put: as far below zero as
/// there are command-line arguments in front of the script.
///
/// `lua_args` counts the arguments behind the script and `all_args` every
/// argument of the command line; inline code takes the place of a missing
/// script file.
pub open spec fn program_index(file_given: bool, lua_args: nat, all_args: nat) -> int {
    let behind = lua_args + if file_given {
        1int
    } else {
        0int
    };
    let all = all_args - if file_given {
        0int
    } else {
        1int
    };
    behind - all
}

/// The statements that read a chunk from the file `fname` and compile it,
/// for inline code or for the script file.
pub open spec fn file_loader_lines(fname: Seq<char>, inline: bool) -> Seq<Seq<char>> {
    seq![
        "local fname = "@ + quoted(fname),
        "local f = assert(io.open(fname, \"r\"))"@,
        "local chunk = f:read(\"*a\")"@,
        "local "@ + (if inline {
            "inline"@
        } else {
            "file"@
        }) + "_gen = assert(loadstring(chunk, "@ + quoted(
            if inline {
                "=(command line -e)"@
            } else {
                "@"@ + fname
            },
        ) + "))"@,
    ]
}

/// `lines`, each behind the whitespace of the given level.
pub open spec fn indented(level: nat, lines: Seq<Seq<char>>) -> Seq<Seq<char>> {
    Seq::new(lines.len(), |i: int| indentation(level) + lines[i])
}

/// The statements that fill the table of arguments: the script's name at
/// zero (the inline file's without a script), the arguments behind it from
/// one, the program's name below zero.
pub open spec fn args_lines(
    file: Option<Seq<char>>,
    inline_filename: Seq<char>,
    lua_args: Seq<Seq<char>>,
    arg_0: Seq<char>,
    all_args: nat,
) -> Seq<Seq<char>> {
    seq![
        "arg = {}"@,
        arg_line(
            0,
            match file {
                Some(name) => name,
                None => inline_filename,
            },
        ),
    ] + numbered_args(lua_args) + seq![
        arg_line(program_index(file is Some, lua_args.len(), all_args), arg_0),
    ]
}

/// The statements that load the inline code, if there is any.
pub open spec fn inline_code_lines(inline: Seq<Seq<char>>, inline_filename: Seq<char>) -> Seq<
    Seq<char>,
> {
    if inline.len() == 0 {
        seq!["-- inline lua code"@]
    } else {
        seq!["-- inline lua code"@, "local inline_gen"@] + file_loader_lines(inline_filename, true)
    }
}

/// The name and the contents of the file that holds the inline code: its
/// pieces joined by `; `. None without inline code.
pub open spec fn inline_code_file(inline: Seq<Seq<char>>, inline_filename: Seq<char>) -> Option<
    (Seq<char>, Seq<char>),
> {
    if inline.len() == 0 {
        None
    } else {
        Some((inline_filename, joined(inline, "; "@)))
    }
}

/// The statements that load the script file, or the declaration that
/// stands for them without one.
pub open spec fn script_lines(file: Option<Seq<char>>) -> Seq<Seq<char>> {
    match file {
        None => seq!["-- lua file"@, "local file_gen"@],
        Some(name) => seq!["-- lua file"@] + file_loader_lines(name, false),
    }
}

/// The whole loader, written from the level `base` of indentation: a
/// block that fills the arguments, loads the inline code and the script
/// file, and defines `gen` to run both.
pub open spec fn loader_text(
    base: nat,
    file: Option<Seq<char>>,
    inline: Seq<Seq<char>>,
    lua_args: Seq<Seq<char>>,
    inline_filename: Seq<char>,
    arg_0: Seq<char>,
    all_args: nat,
) -> Seq<Seq<char>> {
    indented(base, seq!["local gen"@, "do"@]) + indented(
        base + 1,
        args_lines(file, inline_filename, lua_args, arg_0, all_args),
    ) + seq![Seq::empty()] + indented(base + 1, inline_code_lines(inline, inline_filename))
        + seq![Seq::empty()] + indented(base + 1, script_lines(file)) + seq![Seq::empty()]
        + indented(base + 1, seq!["gen = function()"@]) + indented(
        base + 2,
        seq!["if inline_gen then inline_gen() end"@, "if file_gen then file_gen() end"@],
    ) + indented(base + 1, seq!["end"@]) + indented(base, seq!["end"@])
}

/// The text of an optional string.
pub open spec fn option_text(s: Option<String>) -> Option<Seq<char>> {
    match s {
        Some(s) => Some(s@),
        None => None,
    }
}

/// A file to be written before the loader runs.
#[derive(Debug, Clone, PartialEq, Eq)]
pub struct InlineFile {
    pub name: String,
    pub contents: String,
}

/// The generated loader.
#[derive(Debug, Clone, PartialEq, Eq)]
pub struct Loader {
    /// The loader's lines.
    pub lines: Vec<String>,
    /// The file that holds the inline code, if there is any.
    pub inline_file: Option<InlineFile>,
}

/// Collects the lines of the loader.
#[derive(Debug)]
pub struct LuaGenerator<'a> {
    /// The script file, if one was given.
    pub file: &'a Option<String>,
    /// The pieces of inline code, in order.
    pub inline: &'a Vec<String>,
    /// The arguments handed to the Lua code.
    pub lua_args: &'a Vec<String>,
    /// The name of the file that the inline code is written to.
    pub inline_filename: String,
    pub buf: Buf,
    /// The name the program was called by.
    pub arg_0: String,
    /// How many arguments the command line had.
    pub all_args_len: usize,
}

impl<'a> LuaGenerator<'a> {
    /// The script file's name, if one was given.
    pub open spec fn file_text(&self) -> Option<Seq<char>> {
        option_text(*self.file)
    }

    /// Whether `other` generates from the same inputs.
    pub open spec fn same_inputs(&self, other: &Self) -> bool {
        &&& self.file == other.file
        &&& self.inline == other.inline
        &&& self.lua_args == other.lua_args
        &&& self.inline_filename == other.inline_filename
        &&& self.arg_0 == other.arg_0
        &&& self.all_args_len == other.all_args_len
    }

    /// The statements that fill the table of arguments.
    pub open spec fn lua_args_lines(&self) -> Seq<Seq<char>> {
        args_lines(
            self.file_text(),
            self.inline_filename@,
            texts(self.lua_args@),
            self.arg_0@,
            self.all_args_len as nat,
        )
    }

    /// The statements that load the inline code, if there is any.
    pub open spec fn inline_lines(&self) -> Seq<Seq<char>> {
        inline_code_lines(texts(self.inline@), self.inline_filename@)
    }

    /// The file that holds the inline code, if there is any.
    pub open spec fn inline_file(&self) -> Option<(Seq<char>, Seq<char>)> {
        inline_code_file(texts(self.inline@), self.inline_filename@)
    }

    /// The statements that load the script file, if there is one.
    pub open spec fn file_lines(&self) -> Seq<Seq<char>> {
        script_lines(self.file_text())
    }

    /// The whole loader, written from the buffer's level of indentation.
    pub open spec fn loader_lines(&self) -> Seq<Seq<char>> {
        loader_text(
            self.buf@.indent,
            self.file_text(),
            texts(self.inline@),
            texts(self.lua_args@),
            self.inline_filename@,
            self.arg_0@,
            self.all_args_len as nat,
        )
    }

    /// Generates the loader behind what the buffer holds already.
    pub fn generate(self) -> (loader: Loader)
        requires
            self.buf@.indent + 2 <= usize::MAX,
        ensures
            texts(loader.lines@) == self.buf@.lines + self.loader_lines(),
            match loader.inline_file {
                Some(file) => self.inline_file() == Some((file.name@, file.contents@)),
                None => self.inline_file() is None,
            },
    {
        let mut this = self;
        this.buf.append("local gen");
        this.buf.append("do");
        this.buf.indent();

        this.insert_lua_args();
        this.buf.newline();

        let inline_file = this.insert_inline_lua();
        this.buf.newline();

        this.insert_code_for_lua_file();
        this.buf.newline();

        this.buf.append("gen = function()");
        this.buf.indent();
        this.buf.append("if inline_gen then inline_gen() end");
        this.buf.append("if file_gen then file_gen() end");
        this.buf.dedent();
        this.buf.append("end");

        this.buf.dedent();
        this.buf.append("end");
        Loader { lines: this.buf.finalize(), inline_file }
    }

    /// Adds the statements that fill the table of arguments.
    pub fn insert_lua_args(&mut self)
        ensures
            final(self).same_inputs(old(self)),
            final(self).buf@.indent == old(self).buf@.indent,
            final(self).buf@.lines == old(self).buf@.lines + indented(
                old(self).buf@.indent,
                old(self).lua_args_lines(),
            ),
    {
        let ghost level = self.buf@.indent;
        let ghost before = self.buf@.lines;
        self.buf.append("arg = {}");

        let mut line = String::from_str("arg[");
        line.append(decimal(0).as_str());
        line.append("] = ");
        let script = match self.file {
            Some(name) => quote_lua_string(name.as_str()),
            None => quote_lua_string(self.inline_filename.as_str()),
        };
        line.append(script.as_str());
        self.buf.append(line.as_str());
        let ghost head = seq![
            "arg = {}"@,
            arg_line(
                0,
                match option_text(*self.file) {
                    Some(name) => name,
                    None => self.inline_filename@,
                },
            ),
        ];

        let mut i: usize = 0;
        while i < self.lua_args.len()
            invariant
                i <= self.lua_args.len(),
                self.same_inputs(old(self)),
                self.buf@.indent == level,
                self.buf@.lines == before + indented(
                    level,
                    head + numbered_args(texts(self.lua_args@)).take(i as int),
                ),
            decreases self.lua_args.len() - i,
        {
            let mut line = String::from_str("arg[");
            line.append(decimal(i as i128 + 1).as_str());
            line.append("] = ");
            line.append(quote_lua_string(self.lua_args[i].as_str()).as_str());
            self.buf.append(line.as_str());
            i = i + 1;
        }

        let behind: i128 = self.lua_args.len() as i128 + if self.file.is_some() {
            1i128
        } else {
            0i128
        };
        let all: i128 = self.all_args_len as i128 - if self.file.is_none() {
            1i128
        } else {
            0i128
        };
        let mut line = String::from_str("arg[");
        line.append(decimal(behind - all).as_str());
        line.append("] = ");
        line.append(quote_lua_string(self.arg_0.as_str()).as_str());
        self.buf.append(line.as_str());
    }

    /// Adds the statements that load the inline code and hands back the
    /// file that is to hold it.
    pub fn insert_inline_lua(&mut self) -> (file: Option<InlineFile>)
        ensures
            final(self).same_inputs(old(self)),
            final(self).buf@.indent == old(self).buf@.indent,
            final(self).buf@.lines == old(self).buf@.lines + indented(
                old(self).buf@.indent,
                old(self).inline_lines(),
            ),
            match file {
                Some(file) => old(self).inline_file() == Some((file.name@, file.contents@)),
                None => old(self).inline_file() is None,
            },
    {
        self.buf.append("-- inline lua code");
        if self.inline.len() == 0 {
            return None;
        }
        self.buf.append("local inline_gen");
        let contents = join(self.inline, "; ");
        let name = self.inline_filename.clone();
        self.insert_lua_file_loader(name.as_str(), true);
        Some(InlineFile { name, contents })
    }

    /// Adds the statements that load the script file, or the declaration
    /// that stands for them without one.
    pub fn insert_code_for_lua_file(&mut self)
        ensures
            final(self).same_inputs(old(self)),
            final(self).buf@.indent == old(self).buf@.indent,
            final(self).buf@.lines == old(self).buf@.lines + indented(
                old(self).buf@.indent,
                old(self).file_lines(),
            ),
    {
        self.buf.append("-- lua file");
        match self.file {
            None => {
                self.buf.append("local file_gen");
            },
            Some(name) => {
                self.insert_lua_file_loader(name.as_str(), false);
            },
        }
    }

    /// Adds the statements that read a chunk from `fname` and compile it.
    pub fn insert_lua_file_loader(&mut self, fname: &str, inline: bool)
        ensures
            final(self).same_inputs(old(self)),
            final(self).buf@.indent == old(self).buf@.indent,
            final(self).buf@.lines == old(self).buf@.lines + indented(
                old(self).buf@.indent,
                file_loader_lines(fname@, inline),
            ),
    {
        let mut first = String::from_str("local fname = ");
        first.append(quote_lua_string(fname).as_str());
        self.buf.append(first.as_str());
        self.buf.append("local f = assert(io.open(fname, \"r\"))");
        self.buf.append("local chunk = f:read(\"*a\")");

        let chunk_name = if inline {
            String::from_str("=(command line -e)")
        } else {
            let mut name = String::from_str("@");
            name.append(fname);
            name
        };
        let mut last = String::from_str("local ");
        last.append(if inline {
            "inline"
        } else {
            "file"
        });
        last.append("_gen = assert(loadstring(chunk, ");
        last.append(quote_lua_string(chunk_name.as_str()).as_str());
        last.append("))");
        self.buf.append(last.as_str());
    }
}

/// Generates the loader for the given script file, inline code and
/// arguments. `inline_filename` names the file that inline code goes to.
pub fn generate_lua_loader(
    inline_filename: String,
    file: &Option<String>,
    inline: &Vec<String>,
    lua_args: &Vec<String>,
    arg_0: String,
    all_args_len: usize,
) -> (loader: Loader)
    ensures
        texts(loader.lines@) == loader_text(
            0,
            option_text(*file),
            texts(inline@),
            texts(lua_args@),
            inline_filename@,
            arg_0@,
            all_args_len as nat,
        ),
        match loader.inline_file {
            Some(written) => inline_code_file(texts(inline@), inline_filename@) == Some(
                (written.name@, written.contents@),
            ),
            None => inline_code_file(texts(inline@), inline_filename@) is None,
        },
{
    let buf = Buf::new();
    let generator = LuaGenerator {
        arg_0,
        all_args_len,
        file,
        inline,
        lua_args,
        buf,
        inline_filename,
    };
    let loader = generator.generate();
    loader
}

} // verus!
