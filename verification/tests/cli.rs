use rusty_cli::cli::{
    assemble, command_line, env_vars, http_conf, include_section, inline_lua, main_conf,
    normalize_conf_line, option_has_value, option_takes_value, preparse_args, resolver,
    stream_conf, version_line, CommandError, CommandLine, OptionSpec, Runner, RunnerOptions,
};
use rusty_cli::compat_version::Version;
use rusty_cli::order::ValueWithIndex;
use rusty_cli::types::{JitCmd, LogLevel};

fn strings(items: &[&str]) -> Vec<String> {
    items.iter().map(|s| s.to_string()).collect()
}

fn command(program: &str, args: &[&str]) -> CommandLine {
    CommandLine { program: program.to_string(), args: strings(args) }
}

fn options() -> Vec<OptionSpec> {
    [("V", false), ("e", true), ("I", true), ("ns", true), ("rr", false), ("gdb-opts", true)]
        .iter()
        .map(|(name, takes_value)| OptionSpec { name: name.to_string(), takes_value: *takes_value })
        .collect()
}

fn no_runner() -> RunnerOptions {
    RunnerOptions {
        rr: false,
        stap: false,
        stap_opts: None,
        valgrind: false,
        valgrind_opts: None,
        gdb: false,
        gdb_opts: None,
        user_runner: None,
    }
}

#[test]
fn runner_selection_order() {
    let some = |s: &str| Some(s.to_string());
    assert_eq!(Runner::Default, Runner::select(no_runner()));
    let all = RunnerOptions {
        rr: true,
        stap: true,
        stap_opts: some("-s"),
        valgrind: true,
        valgrind_opts: some("-v"),
        gdb: true,
        gdb_opts: some("-g"),
        user_runner: some("u"),
    };
    assert_eq!(Runner::RR, Runner::select(all.clone()));
    assert_eq!(Runner::Stap(some("-s")), Runner::select(RunnerOptions { rr: false, ..all.clone() }));
    assert_eq!(
        Runner::Valgrind(some("-v")),
        Runner::select(RunnerOptions { rr: false, stap: false, ..all.clone() })
    );
    assert_eq!(
        Runner::Gdb(some("-g")),
        Runner::select(RunnerOptions { rr: false, stap: false, valgrind: false, ..all.clone() })
    );
    assert_eq!(
        Runner::User("u".to_string()),
        Runner::select(RunnerOptions {
            rr: false,
            stap: false,
            valgrind: false,
            gdb: false,
            ..all.clone()
        })
    );
    // options without their flag select nothing
    assert_eq!(
        Runner::Default,
        Runner::select(RunnerOptions { gdb_opts: some("-g"), stap_opts: some("-s"), ..no_runner() })
    );
    assert_eq!(Runner::Gdb(None), Runner::select(RunnerOptions { gdb: true, ..no_runner() }));
}

#[test]
fn command_without_runner() {
    assert_eq!(
        Ok(command("/usr/sbin/nginx", &["-p", "/tmp/resty_abc/", "-c", "conf/nginx.conf"])),
        command_line(&Runner::Default, "/usr/sbin/nginx", "/tmp/resty_abc")
    );
    assert_eq!(
        Ok(command("nginx", &["-p", "/tmp/x/", "-c", "conf/nginx.conf"])),
        command_line(&Runner::Default, "nginx", "/tmp/x///")
    );
    assert_eq!(
        Ok(command("nginx", &["-p", "/", "-c", "conf/nginx.conf"])),
        command_line(&Runner::Default, "nginx", "/")
    );
}

#[test]
fn command_under_runners() {
    let some = |s: &str| Some(s.to_string());
    assert_eq!(
        Ok(command("rr", &["record", "nginx", "-p", "/t/", "-c", "conf/nginx.conf"])),
        command_line(&Runner::RR, "nginx", "/t")
    );
    assert_eq!(
        Ok(command(
            "valgrind",
            &["--leak-check=full", "-q", "nginx", "-p", "/t/", "-c", "conf/nginx.conf"]
        )),
        command_line(&Runner::Valgrind(some("--leak-check=full -q")), "nginx", "/t")
    );
    assert_eq!(
        Ok(command("valgrind", &["nginx", "-p", "/t/", "-c", "conf/nginx.conf"])),
        command_line(&Runner::Valgrind(None), "nginx", "/t")
    );
    assert_eq!(
        Ok(command(
            "gdb",
            &["-ex", "b main", "--args", "nginx", "-p", "/t/", "-c", "conf/nginx.conf"]
        )),
        command_line(&Runner::Gdb(some("-ex 'b main'")), "nginx", "/t")
    );
    assert_eq!(
        Ok(command("stap", &["-v", "-c", "/my\\ nginx -p /t/ -c conf/nginx.conf"])),
        command_line(&Runner::Stap(some("-v")), "/my nginx", "/t")
    );
    assert_eq!(
        Ok(command("stap", &["-c", "nginx -p /t/ -c conf/nginx.conf"])),
        command_line(&Runner::Stap(None), "nginx", "/t")
    );
    assert_eq!(
        Ok(command("strace", &["-f", "nginx", "-p", "/t/", "-c", "conf/nginx.conf"])),
        command_line(&Runner::User("strace -f".to_string()), "nginx", "/t")
    );
}

#[test]
fn command_errors() {
    assert_eq!(
        Err(CommandError::EmptyRunner),
        command_line(&Runner::User("   ".to_string()), "nginx", "/t")
    );
    assert_eq!(
        Err(CommandError::InvalidShellArgs),
        command_line(&Runner::User("sh -c 'oops".to_string()), "nginx", "/t")
    );
    assert_eq!(
        Err(CommandError::InvalidShellArgs),
        command_line(&Runner::Gdb(Some("\\".to_string())), "nginx", "/t")
    );
}

#[test]
fn assemble_uses_the_words_it_is_given() {
    assert_eq!(
        Some(command("w0", &["w1", "nginx", "-p", "r/", "-c", "conf/nginx.conf"])),
        assemble(&Runner::User("ignored here".to_string()), strings(&["w0", "w1"]), "nginx", "r")
    );
    assert_eq!(None, assemble(&Runner::User("x".to_string()), vec![], "nginx", "r"));
    assert_eq!(
        Some(command("nginx", &["-p", "r/", "-c", "conf/nginx.conf"])),
        assemble(&Runner::Default, strings(&["dropped"]), "nginx", "r")
    );
}

#[test]
fn options_and_their_values() {
    let table = options();
    assert!(option_takes_value(&table, "-e"));
    assert!(option_takes_value(&table, "--ns"));
    assert!(option_takes_value(&table, "---e"));
    assert!(option_takes_value(&table, "e"));
    assert!(!option_takes_value(&table, "-V"));
    assert!(!option_takes_value(&table, "--unknown"));
    assert!(!option_takes_value(&table, "-"));
    assert!(!option_takes_value(&table, ""));
    // the last entry of a name decides
    let mut twice = options();
    twice.push(OptionSpec { name: "e".to_string(), takes_value: false });
    assert!(!option_takes_value(&twice, "-e"));
}

fn split(argv: &[&str]) -> (Vec<String>, Vec<String>) {
    let r = preparse_args(&strings(argv), &options());
    (r.options, r.lua_args)
}

#[test]
fn arguments_are_divided_at_the_script() {
    assert_eq!(
        (strings(&["resty", "-e", "print(1)", "a.lua"]), strings(&["-x", "--", "y"])),
        split(&["resty", "-e", "print(1)", "a.lua", "-x", "--", "y"])
    );
    assert_eq!(
        (strings(&["resty", "a.lua"]), vec![]),
        split(&["resty", "a.lua"])
    );
}

#[test]
fn arguments_are_divided_at_the_double_dash() {
    assert_eq!(
        (strings(&["resty", "-e", "print(1)"]), strings(&["-V", "a.lua"])),
        split(&["resty", "-e", "print(1)", "--", "-V", "a.lua"])
    );
    assert_eq!((strings(&["resty"]), vec![]), split(&["resty", "--"]));
    assert_eq!((strings(&["resty"]), strings(&["--"])), split(&["resty", "--", "--"]));
}

#[test]
fn option_values_are_not_taken_for_the_script() {
    assert_eq!(
        (strings(&["resty", "-I", "lib", "--ns", "--", "-V"]), vec![]),
        split(&["resty", "-I", "lib", "--ns", "--", "-V"])
    );
    // an option at the very end keeps nothing
    assert_eq!((strings(&["resty", "-V", "-e"]), vec![]), split(&["resty", "-V", "-e"]));
    // an unknown option takes no value, so the next word is the script
    assert_eq!(
        (strings(&["resty", "--what", "x"]), strings(&["y"])),
        split(&["resty", "--what", "x", "y"])
    );
    assert_eq!((strings(&["resty", ""]), strings(&["-e"])), split(&["resty", "", "-e"]));
}

#[test]
fn empty_command_line() {
    assert_eq!((vec![], vec![]), split(&[]));
    assert_eq!((strings(&["--"]), vec![]), split(&["--"]));
    assert_eq!((strings(&["resty"]), vec![]), split(&["resty"]));
}

#[test]
fn resolver_directive() {
    assert_eq!("resolver 8.8.8.8 8.8.4.4 ipv6=off;", resolver(&strings(&["8.8.8.8", "8.8.4.4"]), false));
    assert_eq!("resolver 8.8.8.8 8.8.4.4;", resolver(&strings(&["8.8.8.8", "8.8.4.4"]), true));
    assert_eq!("resolver [::1];", resolver(&strings(&["[::1]"]), true));
    assert_eq!("resolver ipv6=off;", resolver(&vec![], false));
    assert_eq!("resolver ;", resolver(&vec![], true));
}

#[test]
fn configuration_lines_end_in_one_semicolon() {
    assert_eq!("worker_processes 1;", normalize_conf_line("worker_processes 1"));
    assert_eq!("worker_processes 1;", normalize_conf_line("  worker_processes 1;;;  "));
    assert_eq!("a; b;", normalize_conf_line("a; b"));
    assert_eq!("a ;", normalize_conf_line("a ;"));
    assert_eq!(";", normalize_conf_line(""));
    assert_eq!(";", normalize_conf_line(" ;; "));
}

fn at(index: usize, value: &str) -> ValueWithIndex {
    ValueWithIndex { value: value.to_string(), index }
}

#[test]
fn environment_is_passed_on_in_order() {
    assert!(env_vars(&vec![]).is_empty());
    assert_eq!(
        strings(&["env A1;", "env A;", "env HOME;", "env PATH;"]),
        env_vars(&strings(&["PATH", "A", "HOME", "A1"]))
    );
}

#[test]
fn include_options_name_their_section() {
    assert_eq!("main", include_section("main-include"));
    assert_eq!("http", include_section("http-include"));
    assert_eq!("http", include_section("http-conf-more"));
    assert_eq!("plain", include_section("plain"));
    assert_eq!("", include_section("-x"));
    assert_eq!("", include_section(""));
}

#[test]
fn main_section() {
    assert_eq!(
        strings(&[
            "env HOME;",
            "env PATH;",
            "error_log stderr warn;",
            "daemon off;",
            "worker_processes 2;",
            "include /etc/a.conf;",
        ]),
        main_conf(
            &strings(&["PATH", "HOME"]),
            LogLevel::Warn,
            &strings(&["daemon off", " worker_processes 2;; "]),
            &strings(&["/etc/a.conf"]),
        )
    );
    assert_eq!(
        strings(&["error_log stderr debug;"]),
        main_conf(&vec![], LogLevel::Debug, &vec![], &vec![])
    );
}

#[test]
fn http_section() {
    assert_eq!(
        strings(&[
            "resolver 8.8.8.8 ipv6=off;",
            "lua_package_path \"/l/?.ljbc;/l/?.lua;/l/?/init.ljbc;/l/?/init.lua;;\";",
            "lua_package_cpath \"/l/?.so;;\";",
            "lua_shared_dict dogs 1m;",
            "lua_shared_dict cats 10k;",
            "access_log off;",
            "include /etc/h.conf;",
        ]),
        http_conf(
            &strings(&["8.8.8.8"]),
            false,
            &strings(&["/l"]),
            &strings(&["dogs 1m", "cats 10k"]),
            &strings(&["access_log off"]),
            &strings(&["/etc/h.conf"]),
        )
    );
    assert_eq!(
        strings(&["resolver 1.1.1.1;"]),
        http_conf(&strings(&["1.1.1.1"]), true, &vec![], &vec![], &vec![], &vec![])
    );
}

#[test]
fn stream_section() {
    assert!(stream_conf(true, &strings(&["8.8.8.8"]), false, &strings(&["/l"]), &strings(&["x"]))
        .is_empty());
    assert_eq!(
        strings(&[
            "resolver 8.8.8.8 ipv6=off;",
            "lua_package_path \"/l/?.ljbc;/l/?.lua;/l/?/init.ljbc;/l/?/init.lua;;\";",
            "lua_package_cpath \"/l/?.so;;\";",
            " as given ",
        ]),
        stream_conf(false, &strings(&["8.8.8.8"]), false, &strings(&["/l"]), &strings(&[" as given "]))
    );
}

#[test]
fn inline_code_follows_the_command_line() {
    assert_eq!(
        strings(&[
            "require \"jit\".off()",
            "print(\"first\")",
            "require([=[my-library]=])",
            "print(\"third\")",
        ]),
        inline_lua(
            Some(JitCmd::Off),
            vec![at(2, "print(\"first\")"), at(6, "print(\"third\")")],
            vec![at(4, "my-library")],
        )
    );
    assert_eq!(
        strings(&["require([=[a]=])", "require([==[b]=]]==])", "x"]),
        inline_lua(None, vec![at(9, "x")], vec![at(1, "a"), at(3, "b]=]")])
    );
    assert!(inline_lua(None, vec![], vec![]).is_empty());
    assert_eq!(strings(&["require \"jit.v\".on()"]), inline_lua(Some(JitCmd::V), vec![], vec![]));
}

#[test]
fn switches_and_help_take_no_value() {
    assert!(option_has_value("inline-lua", false));
    assert!(!option_has_value("rr", true));
    assert!(!option_has_value("help", false));
    assert!(!option_has_value("help", true));
    assert!(option_has_value("Help", false));
}

#[test]
fn version_lines() {
    let compat = Version::new(0, 29);
    assert_eq!("rusty-cli 0.3.1", version_line("rusty-cli", "0.3.1", compat));
    assert_eq!("rusty-cli 0.3.1", version_line("/usr/local/bin/rusty-cli", "0.3.1", compat));
    assert_eq!("my-special-command 0.3.1", version_line("/tmp/x/my-special-command", "0.3.1", compat));
    assert_eq!("resty 0.29", version_line("/tmp/x/resty", "0.3.1", compat));
    assert_eq!("resty 0.29", version_line("resty", "0.3.1", compat));
    assert_eq!("resty 1.0", version_line("./resty", "0.3.1", Version::new(1, 0)));
    assert_eq!("Resty 0.3.1", version_line("Resty", "0.3.1", compat));
    assert_eq!("rusty-cli 0.3.1", version_line("", "0.3.1", compat));
    assert_eq!("rusty-cli 0.3.1", version_line("/bin/", "0.3.1", compat));
}
