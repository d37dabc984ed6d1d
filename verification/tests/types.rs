use rusty_cli::types::{trim_brackets, ArgError, Buf, InvalidShdict, JitCmd, LogLevel, Shdict};

fn must_parse(input: &str, (name, size): (&str, &str)) {
    assert_eq!(
        Ok(format!("{} {}", name, size)),
        Shdict::from_str(input).map(|dict| dict.into_string())
    )
}

fn must_not_parse(s: &str) {
    assert_eq!(Err(InvalidShdict(s.to_string())), Shdict::from_str(s))
}

#[test]
fn shdict_from_str() {
    must_parse("foo_1 10k", ("foo_1", "10k"));
    must_parse("foo_1 10K", ("foo_1", "10K"));
    must_parse("foo_1 10m", ("foo_1", "10m"));
    must_parse("foo_1 10M", ("foo_1", "10M"));
    must_parse("cats_dogs   20000", ("cats_dogs", "20000"));

    must_not_parse("");
    must_not_parse("foo 10 extra");
    must_not_parse("foo 10 extra extra");
    must_not_parse("- 10");
    must_not_parse("   foo 10");
    must_not_parse("foo");
    must_not_parse("foo f");
    must_not_parse("foo 10.0");
    must_not_parse("foo 10b");
    must_not_parse("foo 10g");
    must_not_parse("foo 10km");
    must_not_parse("fo--o 10k");
    must_not_parse("foo -10k");
    must_not_parse("foo -10");
}

#[test]
fn shdict_edges() {
    must_not_parse("foo 10 ");
    must_not_parse(" ");
    must_not_parse("foo k");
    must_not_parse("foo +");
    must_not_parse("foo 4294967296");
    must_not_parse("foo 99999999999999999999999999k");
    must_not_parse("f\u{e9}e 10");
    must_parse("foo 4294967295", ("foo", "4294967295"));
    must_parse("foo 4294967295m", ("foo", "4294967295m"));
    must_parse("foo +10k", ("foo", "+10k"));
    must_parse("foo 007", ("foo", "007"));
    must_parse("A_z09\t1", ("A_z09", "1"));
    // only a space at either end is refused outright
    must_parse("\tfoo 10\n", ("foo", "10"));
    must_parse("foo\u{2003}10", ("foo", "10"));
}

#[test]
fn shdict_forms() {
    let dict = Shdict::from_str("dogs  1m").unwrap();
    assert_eq!("dogs 1m", dict.as_str());
    assert_eq!("lua_shared_dict dogs 1m;", dict.to_nginx());
    assert_eq!("expecting NAME SIZE", InvalidShdict(String::from("x")).message());
}

#[test]
fn brackets_are_trimmed_in_pairs() {
    assert_eq!("::1", trim_brackets("[::1]"));
    assert_eq!(
        "2003:dead:beef:4dad:23:46:bb:101",
        trim_brackets("[2003:dead:beef:4dad:23:46:bb:101]")
    );
    assert_eq!("127.0.0.1", trim_brackets("127.0.0.1"));
    assert_eq!("", trim_brackets("[]"));
    assert_eq!("[", trim_brackets("["));
    assert_eq!("]", trim_brackets("]"));
    assert_eq!("[::1", trim_brackets("[::1"));
    assert_eq!("::1]", trim_brackets("::1]"));
    assert_eq!("[a]", trim_brackets("[[a]]"));
    assert_eq!("", trim_brackets(""));
}

#[test]
fn log_levels() {
    let all = [
        (LogLevel::Debug, "debug"),
        (LogLevel::Info, "info"),
        (LogLevel::Notice, "notice"),
        (LogLevel::Warn, "warn"),
        (LogLevel::Error, "error"),
        (LogLevel::Crit, "crit"),
        (LogLevel::Alert, "alert"),
        (LogLevel::Emerg, "emerg"),
    ];
    for (level, name) in all {
        assert_eq!(name, level.as_str());
        assert_eq!(Some(level), LogLevel::from_str(name));
    }
    assert_eq!(None, LogLevel::from_str("Warn"));
    assert_eq!(None, LogLevel::from_str(""));
    assert_eq!(None, LogLevel::from_str("warning"));
    assert_eq!(LogLevel::Warn, LogLevel::default());
}

#[test]
fn jit_commands() {
    assert_eq!(Some(JitCmd::V), JitCmd::from_str("v"));
    assert_eq!(Some(JitCmd::Dump), JitCmd::from_str("dump"));
    assert_eq!(Some(JitCmd::Off), JitCmd::from_str("off"));
    assert_eq!(None, JitCmd::from_str("on"));
    assert_eq!(None, JitCmd::from_str("V"));
    assert_eq!(r#"require "jit.v".on()"#, JitCmd::V.to_lua());
    assert_eq!(r#"require "jit.dump".on()"#, JitCmd::Dump.to_lua());
    assert_eq!(r#"require "jit".off()"#, JitCmd::Off.to_lua());
}

#[test]
fn buf_indents_lines() {
    let mut buf = Buf::new();
    buf.append("a");
    buf.indent();
    buf.append("b");
    buf.newline();
    buf.indent();
    buf.append("c");
    buf.append("");
    buf.dedent();
    buf.dedent();
    buf.append("d");
    assert_eq!(vec!["a", "    b", "", "        c", "        ", "d"], buf.finalize());
    assert!(Buf::new().finalize().is_empty());
}

#[test]
fn arg_error_exit_codes() {
    let s = || String::from("x");
    assert_eq!(2, ArgError::MissingInclude(s(), s()).exit_code());
    assert_eq!(25, ArgError::Conflict(s(), s()).exit_code());
    assert_eq!(1, ArgError::UnknownArgument(s()).exit_code());
    assert_eq!(255, ArgError::InvalidValue { arg: s(), value: s(), err: s() }.exit_code());
    assert_eq!(255, ArgError::MissingValue(s()).exit_code());
    assert_eq!(2, ArgError::NoLuaInput.exit_code());
    assert_eq!(2, ArgError::LuaFileNotFound(s()).exit_code());
    assert_eq!(255, ArgError::Duplicate(s()).exit_code());
}

#[test]
fn arg_error_messages() {
    let s = |t: &str| String::from(t);
    assert_eq!(
        "ERROR: could not find http include file 'a.conf'",
        ArgError::MissingInclude(s("http"), s("a.conf")).message()
    );
    assert_eq!(
        "ERROR: options --gdb and --rr cannot be specified at the same time.",
        ArgError::Conflict(s("--gdb"), s("--rr")).message()
    );
    assert_eq!(
        "ERROR: Invalid -c option value: x\n  (not a number)",
        ArgError::InvalidValue { arg: s("-c"), value: s("x"), err: s("not a number") }.message()
    );
    assert_eq!("unknown argument: `--nope`", ArgError::UnknownArgument(s("--nope")).message());
    assert_eq!(
        "option -e takes an argument but found none.",
        ArgError::MissingValue(s("-e")).message()
    );
    assert_eq!(
        "Neither Lua input file nor -e \"\" option specified.",
        ArgError::NoLuaInput.message()
    );
    assert_eq!("duplicate --ns options", ArgError::Duplicate(s("--ns")).message());
    assert_eq!(
        "Lua input file a.lua not found.",
        ArgError::LuaFileNotFound(s("a.lua")).message()
    );
}
