//! From the command line to the command that is run: which arguments are
//! options and which belong to the Lua code, how the child is started, and
//! the configuration lines that options stand for.

use vstd::prelude::*;
use vstd::string::*;
use crate::text::{
    join, joined, lemma_texts_push, push_char, same_text, texts, trim, trim_end_char,
    trim_start_char, trimmed, without_leading, without_trailing, chars_of,
};
use crate::lua::{
    package_cpath, package_cpath_text, package_path, package_path_text, quote_lua_string, quoted,
};
use crate::order::{
    by_index, by_text, indexed, sort_by_index, sort_lines, stably_sorted, values_of,
    ValueWithIndex,
};
use crate::compat_version::Version;
use crate::text::{decimal_digits, find_char, len_before, push_decimal, string_of};
use crate::types::{JitCmd, LogLevel};
use crate::util::{all_escaped, join_shell_args, shell_words, split_shell_args};

verus! {

/// The program that the child is run under.
#[derive(Debug, Clone, PartialEq, Eq)]
pub enum Runner {
    /// The child is run directly.
    Default,
    /// Under `rr record`.
    RR,
    /// Under `stap`, with these extra options.
    Stap(Option<String>),
    /// Under `valgrind`, with these extra options.
    Valgrind(Option<String>),
    /// Under `gdb`, with these extra options.
    Gdb(Option<String>),
    /// Under a command line of the user's.
    User(String),
}

/// What the command line said of runners.
#[derive(Debug, Clone, PartialEq, Eq)]
pub struct RunnerOptions {
    pub rr: bool,
    pub stap: bool,
    pub stap_opts: Option<String>,
    pub valgrind: bool,
    pub valgrind_opts: Option<String>,
    pub gdb: bool,
    pub gdb_opts: Option<String>,
    pub user_runner: Option<String>,
}

impl Runner {
    /// The runner that the options select: the first of `rr`, `stap`,
    /// `valgrind`, `gdb` and the user's that was asked for.
    pub open spec fn selected(options: RunnerOptions) -> Runner {
        if options.rr {
            Runner::RR
        } else if options.stap {
            Runner::Stap(options.stap_opts)
        } else if options.valgrind {
            Runner::Valgrind(options.valgrind_opts)
        } else if options.gdb {
            Runner::Gdb(options.gdb_opts)
        } else {
            match options.user_runner {
                Some(user) => Runner::User(user),
                None => Runner::Default,
            }
        }
    }

    /// Selects the runner.
    pub fn select(options: RunnerOptions) -> (runner: Runner)
        ensures
            runner == Runner::selected(options),
    {
        if options.rr {
            Runner::RR
        } else if options.stap {
            Runner::Stap(options.stap_opts)
        } else if options.valgrind {
            Runner::Valgrind(options.valgrind_opts)
        } else if options.gdb {
            Runner::Gdb(options.gdb_opts)
        } else {
            match options.user_runner {
                Some(user) => Runner::User(user),
                None => Runner::Default,
            }
        }
    }

    /// The text that is split into words for this runner, if any.
    pub open spec fn options_text(self) -> Option<Seq<char>> {
        match self {
            Runner::Stap(Some(opts)) | Runner::Valgrind(Some(opts)) | Runner::Gdb(Some(opts)) => {
                Some(opts@)
            },
            Runner::User(line) => Some(line@),
            _ => None,
        }
    }
}

/// A program and its arguments.
#[derive(Debug, Clone, PartialEq, Eq)]
pub struct CommandLine {
    pub program: String,
    pub args: Vec<String>,
}

/// Why no command could be put together.
#[derive(Debug, Clone, Copy, PartialEq, Eq, Structural)]
pub enum CommandError {
    /// The runner's options are no well-formed shell words.
    InvalidShellArgs,
    /// The user's runner names no program.
    EmptyRunner,
}

/// The arguments that the child itself is given: its prefix directory,
/// written with exactly one `/` at the end, and its configuration file.
pub open spec fn nginx_args(root: Seq<char>) -> Seq<Seq<char>> {
    seq!["-p"@, without_trailing(root, '/') + seq!['/'], "-c"@, "conf/nginx.conf"@]
}

/// The program and arguments for `runner`, whose options split into
/// `words`. Nothing where the user's runner has no word.
pub open spec fn assembled(
    runner: Runner,
    words: Seq<Seq<char>>,
    nginx: Seq<char>,
    root: Seq<char>,
) -> Option<(Seq<char>, Seq<Seq<char>>)> {
    match runner {
        Runner::Default => Some((nginx, nginx_args(root))),
        Runner::RR => Some(("rr"@, seq!["record"@, nginx] + nginx_args(root))),
        Runner::Stap(_) => Some(
            (
                "stap"@,
                words + seq![
                    "-c"@,
                    joined(all_escaped(seq![nginx] + nginx_args(root)), seq![' ']),
                ],
            ),
        ),
        Runner::Valgrind(_) => Some(("valgrind"@, words + seq![nginx] + nginx_args(root))),
        Runner::Gdb(_) => Some(("gdb"@, words + seq!["--args"@, nginx] + nginx_args(root))),
        Runner::User(_) => if words.len() == 0 {
            None
        } else {
            Some((words[0], words.drop_first() + seq![nginx] + nginx_args(root)))
        },
    }
}

/// The command for `runner`, or why there is none.
pub open spec fn command_of(runner: Runner, nginx: Seq<char>, root: Seq<char>) -> Result<
    (Seq<char>, Seq<Seq<char>>),
    CommandError,
> {
    let words = match runner.options_text() {
        Some(text) => shell_words(text),
        None => Some(Seq::empty()),
    };
    match words {
        None => Err(CommandError::InvalidShellArgs),
        Some(words) => match assembled(runner, words, nginx, root) {
            Some(command) => Ok(command),
            None => Err(CommandError::EmptyRunner),
        },
    }
}

/// The child's own arguments for the prefix directory `root`.
fn child_args(root: &str) -> (args: Vec<String>)
    ensures
        texts(args@) == nginx_args(root@),
{
    let mut prefix = trim_end_char(root, '/');
    push_char(&mut prefix, '/');
    assert(prefix@ == without_trailing(root@, '/') + seq!['/']);
    let mut args: Vec<String> = Vec::new();
    args.push(String::from_str("-p"));
    args.push(prefix);
    args.push(String::from_str("-c"));
    args.push(String::from_str("conf/nginx.conf"));
    args
}

/// Puts the command together from the runner and the words that its
/// options were split into.
pub fn assemble(runner: &Runner, words: Vec<String>, nginx: &str, root: &str) -> (r: Option<
    CommandLine,
>)
    ensures
        match r {
            Some(command) => assembled(*runner, texts(words@), nginx@, root@) == Some(
                (command.program@, texts(command.args@)),
            ),
            None => assembled(*runner, texts(words@), nginx@, root@) is None,
        },
{
    let mut own = child_args(root);
    let mut words = words;
        match runner {
        Runner::Default => Some(CommandLine { program: String::from_str(nginx), args: own }),
        Runner::RR => {
            let mut args: Vec<String> = Vec::new();
            args.push(String::from_str("record"));
            args.push(String::from_str(nginx));
            args.append(&mut own);
            Some(CommandLine { program: String::from_str("rr"), args })
        },
        Runner::Stap(_) => {
            let mut child: Vec<String> = Vec::new();
            child.push(String::from_str(nginx));
            child.append(&mut own);
            assert(texts(child@) == seq![nginx@] + nginx_args(root@));
            let line = join_shell_args(&child);
            words.push(String::from_str("-c"));
            words.push(line);
            Some(CommandLine { program: String::from_str("stap"), args: words })
        },
        Runner::Valgrind(_) => {
            words.push(String::from_str(nginx));
            words.append(&mut own);
            Some(CommandLine { program: String::from_str("valgrind"), args: words })
        },
        Runner::Gdb(_) => {
            words.push(String::from_str("--args"));
            words.push(String::from_str(nginx));
            words.append(&mut own);
            Some(CommandLine { program: String::from_str("gdb"), args: words })
        },
        Runner::User(_) => {
            if words.len() == 0 {
                return None;
            }
            let program = words.remove(0);
            words.push(String::from_str(nginx));
            words.append(&mut own);
            Some(CommandLine { program, args: words })
        },
    }
}

/// The command that starts the child `nginx` in the prefix directory
/// `root` under `runner`.
pub fn command_line(runner: &Runner, nginx: &str, root: &str) -> (r: Result<
    CommandLine,
    CommandError,
>)
    ensures
        match r {
            Ok(command) => command_of(*runner, nginx@, root@) == Ok::<_, CommandError>(
                (command.program@, texts(command.args@)),
            ),
            Err(e) => command_of(*runner, nginx@, root@) == Err::<(Seq<char>, Seq<Seq<char>>), _>(e),
        },
{
    let split: Option<Vec<String>> = match runner {
        Runner::Stap(Some(opts)) => split_shell_args(opts.as_str()),
        Runner::Valgrind(Some(opts)) => split_shell_args(opts.as_str()),
        Runner::Gdb(Some(opts)) => split_shell_args(opts.as_str()),
        Runner::User(line) => split_shell_args(line.as_str()),
        _ => {
            let none: Vec<String> = Vec::new();
            Some(none)
        },
    };
    match split {
        None => Err(CommandError::InvalidShellArgs),
        Some(words) => match assemble(runner, words, nginx, root) {
            Some(command) => Ok(command),
            None => Err(CommandError::EmptyRunner),
        },
    }
}

/// Whether a value follows the option with the identifier `id`: not behind
/// `help`, nor behind an option that only switches something on or off.
pub open spec fn follows_a_value(id: Seq<char>, switch: bool) -> bool {
    id != "help"@ && !switch
}

/// Whether a value follows the option `id`; `switch` says that the option
/// only switches something on or off.
pub fn option_has_value(id: &str, switch: bool) -> (b: bool)
    ensures
        b == follows_a_value(id@, switch),
{
    !same_text(id, "help") && !switch
}

/// The name that the program was called by: what follows the last `/` of
/// `arg_0`, or `rusty-cli` where nothing does.
pub open spec fn program_name(arg_0: Seq<char>) -> Seq<char> {
    let name = last_field(arg_0);
    if name.len() == 0 {
        "rusty-cli"@
    } else {
        name
    }
}

/// What stands behind the last `/` of `path`; all of it without one.
pub open spec fn last_field(path: Seq<char>) -> Seq<char>
    decreases path.len(),
{
    if path.len() == 0 || path.last() == '/' {
        Seq::empty()
    } else {
        last_field(path.drop_last()).push(path.last())
    }
}

/// The line that tells the version. Called as `resty` the program tells
/// the version whose behaviour it reproduces, as `0.29`; under any other
/// name it tells its own.
pub open spec fn version_text(arg_0: Seq<char>, version: Seq<char>, compat: Version) -> Seq<
    char,
> {
    if program_name(arg_0) == "resty"@ {
        "resty "@ + decimal_digits(compat.maj as nat) + "."@ + decimal_digits(compat.min as nat)
    } else {
        program_name(arg_0) + " "@ + version
    }
}

/// The line that tells the version.
pub fn version_line(arg_0: &str, version: &str, compat: Version) -> (line: String)
    ensures
        line@ == version_text(arg_0@, version@, compat),
{
    let chars = chars_of(arg_0);
    let mut from: usize = chars.len();
    assert(chars@.take(from as int) == chars@);
    while from > 0 && chars[from - 1] != '/'
        invariant
            from <= chars.len(),
            last_field(chars@) == last_field(chars@.take(from as int)) + chars@.subrange(
                from as int,
                chars.len() as int,
            ),
        decreases from,
    {
        proof {
            let upto = chars@.take(from as int);
            assert(upto.drop_last() == chars@.take(from - 1));
        }
        from = from - 1;
    }
    let name = if from == chars.len() {
        String::from_str("rusty-cli")
    } else {
        string_of(&chars, from, chars.len())
    };
    if same_text(name.as_str(), "resty") {
        let mut line = String::from_str("resty ");
        push_decimal(&mut line, compat.maj as u128);
        line.append(".");
        push_decimal(&mut line, compat.min as u128);
        line
    } else {
        let mut line = name;
        line.append(" ");
        line.append(version);
        line
    }
}

/// An option's name, without dashes, and whether a value follows it.
#[derive(Debug, Clone, PartialEq, Eq)]
pub struct OptionSpec {
    pub name: String,
    pub takes_value: bool,
}

/// The options as plain values.
pub open spec fn option_table(options: Seq<OptionSpec>) -> Seq<(Seq<char>, bool)> {
    Seq::new(options.len(), |i: int| (options[i].name@, options[i].takes_value))
}

/// Whether a value follows the option called `name`: as its last entry in
/// the table says, and not for a name that the table lacks.
pub open spec fn takes_value(options: Seq<(Seq<char>, bool)>, name: Seq<char>) -> bool
    decreases options.len(),
{
    if options.len() == 0 {
        false
    } else if options.last().0 == name {
        options.last().1
    } else {
        takes_value(options.drop_last(), name)
    }
}

/// Whether a value follows the option written as `arg`, dashes included.
pub fn option_takes_value(options: &Vec<OptionSpec>, arg: &str) -> (b: bool)
    ensures
        b == takes_value(option_table(options@), without_leading(arg@, '-')),
{
    let name = trim_start_char(arg, '-');
    let mut i: usize = options.len();
    assert(option_table(options@).take(i as int) == option_table(options@));
    while i > 0
        invariant
            i <= options.len(),
            name@ == without_leading(arg@, '-'),
            takes_value(option_table(options@), name@) == takes_value(
                option_table(options@).take(i as int),
                name@,
            ),
        decreases i,
    {
        let ghost table = option_table(options@).take(i as int);
        assert(table.drop_last() == option_table(options@).take(i - 1));
        if same_text(options[i - 1].name.as_str(), name.as_str()) {
            return options[i - 1].takes_value;
        }
        i = i - 1;
    }
    false
}

/// The arguments in front of the Lua code's own, and those.
pub struct SplitArgs {
    /// The options and, at most, the script file.
    pub options: Vec<String>,
    /// What is handed to the Lua code.
    pub lua_args: Vec<String>,
}

/// Divides the arguments behind the program's name into the options and the
/// Lua code's arguments.
///
/// Options are read up to `--`, which is dropped, or up to the first
/// argument without a leading `-`, the script file, which is kept with the
/// options. An option that takes a value keeps the argument behind it.
/// Everything after that belongs to the Lua code.
pub open spec fn split_args(args: Seq<Seq<char>>, options: Seq<(Seq<char>, bool)>) -> (
    Seq<Seq<char>>,
    Seq<Seq<char>>,
)
    decreases args.len(),
{
    if args.len() == 0 {
        (Seq::empty(), Seq::empty())
    } else if args[0] == "--"@ {
        (Seq::empty(), args.drop_first())
    } else if args[0].len() > 0 && args[0][0] == '-' {
        if takes_value(options, without_leading(args[0], '-')) && args.len() >= 2 {
            let rest = split_args(args.skip(2), options);
            (seq![args[0], args[1]] + rest.0, rest.1)
        } else {
            let rest = split_args(args.drop_first(), options);
            (seq![args[0]] + rest.0, rest.1)
        }
    } else {
        (seq![args[0]], args.drop_first())
    }
}

/// The program's name followed by the options among `argv`, and the Lua
/// code's arguments.
pub open spec fn preparsed(argv: Seq<Seq<char>>, options: Seq<(Seq<char>, bool)>) -> (
    Seq<Seq<char>>,
    Seq<Seq<char>>,
) {
    if argv.len() == 0 {
        (Seq::empty(), Seq::empty())
    } else {
        let rest = split_args(argv.drop_first(), options);
        (seq![argv[0]] + rest.0, rest.1)
    }
}

/// Divides the command line `argv`, program name first, into what the
/// option parser is given and what the Lua code is given.
pub fn preparse_args(argv: &Vec<String>, options: &Vec<OptionSpec>) -> (r: SplitArgs)
    ensures
        (texts(r.options@), texts(r.lua_args@)) == preparsed(
            texts(argv@),
            option_table(options@),
        ),
{
    let mut front: Vec<String> = Vec::new();
    let mut lua_args: Vec<String> = Vec::new();
    let ghost all = texts(argv@);
    let ghost table = option_table(options@);
    if argv.len() == 0 {
        return SplitArgs { options: front, lua_args };
    }
    front.push(argv[0].clone());
    let mut i: usize = 1;
    let mut reading: bool = true;
    while reading && i < argv.len()
        invariant
            1 <= i <= argv.len(),
            all == texts(argv@),
            table == option_table(options@),
            reading ==> preparsed(all, table) == (
                texts(front@) + split_args(all.skip(i as int), table).0,
                split_args(all.skip(i as int), table).1,
            ),
            !reading ==> preparsed(all, table) == (texts(front@), all.skip(i as int)),
        decreases argv.len() - i,
    {
        let ghost rest = all.skip(i as int);
        assert(rest.drop_first() == all.skip(i + 1));
        let elem = argv[i].as_str();
        let chars = chars_of(elem);
        if same_text(elem, "--") {
            reading = false;
            i = i + 1;
        } else if chars.len() > 0 && chars[0] == '-' {
            if option_takes_value(options, elem) && i + 1 < argv.len() {
                front.push(argv[i].clone());
                front.push(argv[i + 1].clone());
                assert(rest.skip(2) == all.skip(i + 2));
                i = i + 2;
            } else {
                front.push(argv[i].clone());
                i = i + 1;
            }
        } else {
            front.push(argv[i].clone());
            reading = false;
            i = i + 1;
        }
    }
    while i < argv.len()
        invariant
            1 <= i <= argv.len(),
            all == texts(argv@),
            preparsed(all, table).0 == texts(front@),
            preparsed(all, table).1 == texts(lua_args@) + all.skip(i as int),
        decreases argv.len() - i,
    {
        lua_args.push(argv[i].clone());
        i = i + 1;
    }
    SplitArgs { options: front, lua_args }
}

/// The `resolver` directive: the name servers, then `ipv6=off` unless
/// addresses of both kinds are to be looked up.
pub open spec fn resolver_line(nameservers: Seq<Seq<char>>, resolve_ipv6: bool) -> Seq<char> {
    "resolver "@ + joined(
        if resolve_ipv6 {
            nameservers
        } else {
            nameservers.push("ipv6=off"@)
        },
        seq![' '],
    ) + ";"@
}

/// The `resolver` directive for the given name servers.
pub fn resolver(nameservers: &Vec<String>, resolve_ipv6: bool) -> (line: String)
    ensures
        line@ == resolver_line(texts(nameservers@), resolve_ipv6),
{
    let mut ns = nameservers.clone();
    if !resolve_ipv6 {
        let ghost before = ns@;
        ns.push(String::from_str("ipv6=off"));
        proof {
            lemma_texts_push(before, ns@.last());
        }
    }
    proof {
        reveal_strlit(" ");
        assert(" "@ == seq![' ']);
    }
    let mut line = String::from_str("resolver ");
    line.append(join(&ns, " ").as_str());
    line.append(";");
    line
}

/// A configuration line as the child wants it: without the whitespace
/// around it and with exactly one `;` at its end.
pub open spec fn normalized(line: Seq<char>) -> Seq<char> {
    without_trailing(trimmed(line), ';') + seq![';']
}

/// Puts a configuration line into the form the child wants.
pub fn normalize_conf_line(line: &str) -> (out: String)
    ensures
        out@ == normalized(line@),
{
    let text = trim(line);
    let mut out = trim_end_char(text.as_str(), ';');
    push_char(&mut out, ';');
    out
}

/// Each of `items` between `prefix` and `suffix`.
pub open spec fn wrapped(prefix: Seq<char>, items: Seq<Seq<char>>, suffix: Seq<char>) -> Seq<
    Seq<char>,
> {
    Seq::new(items.len(), |i: int| prefix + items[i] + suffix)
}

/// Each of `lines` in the form the child wants.
pub open spec fn all_normalized(lines: Seq<Seq<char>>) -> Seq<Seq<char>> {
    Seq::new(lines.len(), |i: int| normalized(lines[i]))
}

/// The one text as a list, or an empty list for none.
pub open spec fn optional(line: Option<Seq<char>>) -> Seq<Seq<char>> {
    match line {
        Some(line) => seq![line],
        None => Seq::empty(),
    }
}

/// Puts each of `items` between `prefix` and `suffix`.
fn wrap_each(prefix: &str, items: &Vec<String>, suffix: &str) -> (out: Vec<String>)
    ensures
        texts(out@) == wrapped(prefix@, texts(items@), suffix@),
{
    let mut out: Vec<String> = Vec::new();
    let mut i: usize = 0;
    while i < items.len()
        invariant
            i <= items.len(),
            out@.len() == i,
            forall|j: int| 0 <= j < i ==> (#[trigger] out@[j])@ == prefix@ + items@[j]@ + suffix@,
        decreases items.len() - i,
    {
        let mut line = String::from_str(prefix);
        line.append(items[i].as_str());
        line.append(suffix);
        out.push(line);
        i = i + 1;
    }
    out
}

/// Puts each of `lines` into the form the child wants.
fn normalize_each(lines: &Vec<String>) -> (out: Vec<String>)
    ensures
        texts(out@) == all_normalized(texts(lines@)),
{
    let mut out: Vec<String> = Vec::new();
    let mut i: usize = 0;
    while i < lines.len()
        invariant
            i <= lines.len(),
            out@.len() == i,
            forall|j: int| 0 <= j < i ==> (#[trigger] out@[j])@ == normalized(lines@[j]@),
        decreases lines.len() - i,
    {
        out.push(normalize_conf_line(lines[i].as_str()));
        i = i + 1;
    }
    out
}

/// Moves the strings of `more` to the end of `out`.
fn append_all(out: &mut Vec<String>, more: Vec<String>)
    ensures
        texts(final(out)@) == texts(old(out)@) + texts(more@),
{
    let mut more = more;
    out.append(&mut more);
}

/// The directives that pass the environment's variables on to the child,
/// one for each name, in the order of their texts.
pub open spec fn env_lines(names: Seq<Seq<char>>) -> Seq<Seq<char>> {
    stably_sorted(wrapped("env "@, names, ";"@), by_text())
}

/// The directives that pass the variables named on to the child.
pub fn env_vars(names: &Vec<String>) -> (lines: Vec<String>)
    ensures
        texts(lines@) == env_lines(texts(names@)),
{
    sort_lines(wrap_each("env ", names, ";"))
}

/// The section that an include option belongs to: its name up to the
/// first `-`.
pub open spec fn section_of(id: Seq<char>) -> Seq<char> {
    id.take(len_before(id, '-') as int)
}

/// The section that an include option belongs to.
pub fn include_section(id: &str) -> (section: String)
    ensures
        section@ == section_of(id@),
{
    let chars = chars_of(id);
    assert(chars@.skip(0) == chars@);
    let end = find_char(&chars, 0, '-');
    string_of(&chars, 0, end)
}

/// The main section: the environment, the level of the error log, the
/// lines given and the files included.
pub open spec fn main_conf_lines(
    env_names: Seq<Seq<char>>,
    level: LogLevel,
    confs: Seq<Seq<char>>,
    includes: Seq<Seq<char>>,
) -> Seq<Seq<char>> {
    env_lines(env_names) + seq!["error_log stderr "@ + level.name() + ";"@] + all_normalized(confs)
        + wrapped("include "@, includes, ";"@)
}

/// The lines of the main section. `includes` are the files to include, by
/// the paths to write.
pub fn main_conf(
    env_names: &Vec<String>,
    level: LogLevel,
    confs: &Vec<String>,
    includes: &Vec<String>,
) -> (lines: Vec<String>)
    ensures
        texts(lines@) == main_conf_lines(
            texts(env_names@),
            level,
            texts(confs@),
            texts(includes@),
        ),
{
    let mut lines = env_vars(env_names);
    let mut log = String::from_str("error_log stderr ");
    log.append(level.as_str());
    log.append(";");
    lines.push(log);
    append_all(&mut lines, normalize_each(confs));
    append_all(&mut lines, wrap_each("include ", includes, ";"));
    lines
}

/// What the resolver and the search paths contribute to a section.
pub open spec fn shared_conf_lines(
    nameservers: Seq<Seq<char>>,
    resolve_ipv6: bool,
    lua_package_path: Seq<Seq<char>>,
) -> Seq<Seq<char>> {
    seq![resolver_line(nameservers, resolve_ipv6)] + optional(package_path_text(lua_package_path))
        + optional(package_cpath_text(lua_package_path))
}

/// The lines that the http and the stream section begin with.
fn shared_conf(nameservers: &Vec<String>, resolve_ipv6: bool, lua_package_path: &Vec<String>) -> (lines:
    Vec<String>)
    ensures
        texts(lines@) == shared_conf_lines(
            texts(nameservers@),
            resolve_ipv6,
            texts(lua_package_path@),
        ),
{
    let mut lines: Vec<String> = Vec::new();
    lines.push(resolver(nameservers, resolve_ipv6));
    match package_path(lua_package_path) {
        Some(path) => {
            lines.push(path);
        },
        None => {},
    }
    match package_cpath(lua_package_path) {
        Some(path) => {
            lines.push(path);
        },
        None => {},
    }
    lines
}

/// The http section: the resolver, the search paths, the shared
/// dictionaries, the lines given and the files included.
pub open spec fn http_conf_lines(
    nameservers: Seq<Seq<char>>,
    resolve_ipv6: bool,
    lua_package_path: Seq<Seq<char>>,
    shdicts: Seq<Seq<char>>,
    confs: Seq<Seq<char>>,
    includes: Seq<Seq<char>>,
) -> Seq<Seq<char>> {
    shared_conf_lines(nameservers, resolve_ipv6, lua_package_path) + wrapped(
        "lua_shared_dict "@,
        shdicts,
        ";"@,
    ) + all_normalized(confs) + wrapped("include "@, includes, ";"@)
}

/// The lines of the http section.
pub fn http_conf(
    nameservers: &Vec<String>,
    resolve_ipv6: bool,
    lua_package_path: &Vec<String>,
    shdicts: &Vec<String>,
    confs: &Vec<String>,
    includes: &Vec<String>,
) -> (lines: Vec<String>)
    ensures
        texts(lines@) == http_conf_lines(
            texts(nameservers@),
            resolve_ipv6,
            texts(lua_package_path@),
            texts(shdicts@),
            texts(confs@),
            texts(includes@),
        ),
{
    let mut lines = shared_conf(nameservers, resolve_ipv6, lua_package_path);
    append_all(&mut lines, wrap_each("lua_shared_dict ", shdicts, ";"));
    append_all(&mut lines, normalize_each(confs));
    append_all(&mut lines, wrap_each("include ", includes, ";"));
    lines
}

/// The stream section: nothing where streams are switched off, else the
/// resolver, the search paths and the lines given, as they are.
pub open spec fn stream_conf_lines(
    no_stream: bool,
    nameservers: Seq<Seq<char>>,
    resolve_ipv6: bool,
    lua_package_path: Seq<Seq<char>>,
    confs: Seq<Seq<char>>,
) -> Seq<Seq<char>> {
    if no_stream {
        Seq::empty()
    } else {
        shared_conf_lines(nameservers, resolve_ipv6, lua_package_path) + confs
    }
}

/// The lines of the stream section.
pub fn stream_conf(
    no_stream: bool,
    nameservers: &Vec<String>,
    resolve_ipv6: bool,
    lua_package_path: &Vec<String>,
    confs: &Vec<String>,
) -> (lines: Vec<String>)
    ensures
        texts(lines@) == stream_conf_lines(
            no_stream,
            texts(nameservers@),
            resolve_ipv6,
            texts(lua_package_path@),
            texts(confs@),
        ),
{
    if no_stream {
        let lines: Vec<String> = Vec::new();
        return lines;
    }
    let mut lines = shared_conf(nameservers, resolve_ipv6, lua_package_path);
    let copy = confs.clone();
    append_all(&mut lines, copy);
    lines
}

/// The statement that loads the library called `name`.
pub open spec fn require_text(name: Seq<char>) -> Seq<char> {
    "require("@ + quoted(name) + ")"@
}

/// The libraries to load, each as the statement that loads it, at the place
/// where it was asked for.
pub open spec fn required(libs: Seq<(nat, Seq<char>)>) -> Seq<(nat, Seq<char>)> {
    Seq::new(libs.len(), |i: int| (libs[i].0, require_text(libs[i].1)))
}

/// The inline code to run: the statement for the just-in-time compiler
/// first, then the pieces given and the statements that load libraries, in
/// the order in which the command line named them.
pub open spec fn inline_lua_text(
    jit: Option<JitCmd>,
    exprs: Seq<(nat, Seq<char>)>,
    libs: Seq<(nat, Seq<char>)>,
) -> Seq<Seq<char>> {
    (match jit {
        Some(cmd) => seq![cmd.lua()],
        None => Seq::empty(),
    }) + values_of(stably_sorted(exprs + required(libs), by_index()))
}

/// Puts the inline code together.
pub fn inline_lua(jit: Option<JitCmd>, exprs: Vec<ValueWithIndex>, libs: Vec<ValueWithIndex>) -> (code:
    Vec<String>)
    ensures
        texts(code@) == inline_lua_text(jit, indexed(exprs@), indexed(libs@)),
{
    let mut all = exprs;
    let mut i: usize = 0;
    while i < libs.len()
        invariant
            i <= libs.len(),
            indexed(all@) == indexed(exprs@) + required(indexed(libs@)).take(i as int),
        decreases libs.len() - i,
    {
        let mut value = String::from_str("require(");
        value.append(quote_lua_string(libs[i].value.as_str()).as_str());
        value.append(")");
        let ghost before = indexed(all@);
        let item = ValueWithIndex { value, index: libs[i].index };
        all.push(item);
        i = i + 1;
        proof {
            assert(indexed(all@) == before.push((item.index as nat, item.value@)));
        }
    }
    assert(required(indexed(libs@)).take(i as int) == required(indexed(libs@)));
    let sorted = sort_by_index(all);
    let mut code: Vec<String> = Vec::new();
    match jit {
        Some(cmd) => {
            code.push(cmd.to_lua());
        },
        None => {},
    }
    let ghost head = texts(code@);
    let mut j: usize = 0;
    while j < sorted.len()
        invariant
            j <= sorted.len(),
            texts(code@) == head + values_of(indexed(sorted@)).take(j as int),
        decreases sorted.len() - j,
    {
        let ghost before = code@;
        let value = sorted[j].value.clone();
        code.push(value);
        j = j + 1;
        proof {
            lemma_texts_push(before, value);
        }
    }
    code
}

} // verus!
