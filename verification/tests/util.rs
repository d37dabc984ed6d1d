use rusty_cli::util::{
    escape_shell_arg, impl_try_parse_resolv_conf, is_ipv4_address, join_shell_args,
    nameserver_entry, nameservers, split_shell_args, MAX_NAMESERVERS,
};

fn strings(items: &[&str]) -> Vec<String> {
    items.iter().map(|s| s.to_string()).collect()
}

#[test]
fn test_split_shell_args() {
    let tests = vec![
        (r#"-a -b"#, vec!["-a", "-b"]),
        (r#"\(\) \[\] \{\} \<\>"#, vec!["()", "[]", "{}", "<>"]),
        (r#"\\ \" \' \`"#, vec!["\\", "\"", "'", "`"]),
        (
            r#"\& \* \# \$ \? \! \; \|"#,
            vec!["&", "*", "#", "$", "?", "!", ";", "|"],
        ),
        (r#"'single quote'"#, vec!["single quote"]),
        (r#"escaped\ space"#, vec!["escaped space"]),
    ];

    for (input, expect) in tests {
        assert_eq!(Some(strings(&expect)), split_shell_args(input));
    }
}

#[test]
fn test_join_shell_args() {
    let tests = vec![
        (r#"-a -b"#, vec!["-a", "-b"]),
        (r#"\(\) \[\] \{\} \<\>"#, vec!["()", "[]", "{}", "<>"]),
        (r#"\\ \" \' \`"#, vec!["\\", "\"", "'", "`"]),
        (
            r#"\& \* \# \$ \? \! \; \|"#,
            vec!["&", "*", "#", "$", "?", "!", ";", "|"],
        ),
        (r#"single\ quote"#, vec!["single quote"]),
        (r#"escaped\ space"#, vec!["escaped space"]),
    ];

    for (expect, input) in tests {
        assert_eq!(expect, join_shell_args(&strings(&input)));
    }
}

#[test]
fn test_args_round_trip() {
    let args = strings(&[
        "--nx",
        "-batch",
        "-ex",
        "b main",
        "--test",
        "!",
        "--test",
        "($",
        "'\\\\\\\"",
        "`echo 123`",
    ]);

    let joined = join_shell_args(&args);
    let split = split_shell_args(&joined).expect("Invalid shell args");
    let rejoined = join_shell_args(&split);
    let resplit = split_shell_args(&rejoined).expect("Invalid shell args");
    assert_eq!(joined, rejoined);
    assert_eq!(args, resplit);
}

#[test]
fn split_refuses_unfinished_lines() {
    assert_eq!(None, split_shell_args("'open"));
    assert_eq!(None, split_shell_args("\"open"));
    assert_eq!(None, split_shell_args("trailing\\"));
    assert_eq!(Some(vec![]), split_shell_args(""));
    assert_eq!(Some(vec![]), split_shell_args("   "));
    assert_eq!(Some(strings(&["a b", "c"])), split_shell_args("\"a b\"  c"));
}

#[test]
fn escaping_by_character() {
    assert_eq!("", escape_shell_arg(""));
    assert_eq!("plain-arg_1.2/3", escape_shell_arg("plain-arg_1.2/3"));
    assert_eq!("a\\\tb\\\rc\\\nd", escape_shell_arg("a\tb\rc\nd"));
    assert_eq!("\\{\\}", escape_shell_arg("{}"));
    assert_eq!("h\u{e9}\\ \u{4e16}", escape_shell_arg("h\u{e9} \u{4e16}"));
    assert_eq!("", join_shell_args(&vec![]));
    assert_eq!("a", join_shell_args(&strings(&["a"])));
    assert_eq!(" a", join_shell_args(&strings(&["", "a"])));
}

fn parse_resolv_conf(input: &str) -> Vec<String> {
    impl_try_parse_resolv_conf(&input.as_bytes().to_vec())
}

#[test]
fn test_impl_try_parse_resolv_conf() {
    let input = r##"# This is /run/systemd/resolve/stub-resolv.conf managed by man:systemd-resolved(8).
# Do not edit.
#
# This file might be symlinked as /etc/resolv.conf. If you're looking at
# /etc/resolv.conf and seeing this text, you have followed the symlink.
#
# This is a dynamic resolv.conf file for connecting local clients to the
# internal DNS stub resolver of systemd-resolved. This file lists all
# configured search domains.
#
# Run "resolvectl status" to see details about the uplink DNS servers
# currently in use.
#
# Third party programs should typically not access this file directly, but only
# through the symlink at /etc/resolv.conf. To manage man:resolv.conf(5) in a
# different way, replace this symlink by a static file or a different symlink.
#
# See man:systemd-resolved.service(8) for details about the supported modes of
# operation for /etc/resolv.conf.

nameserver 127.0.0.53
options edns0 trust-ad
search example.com"##;

    assert_eq!(strings(&["127.0.0.53"]), parse_resolv_conf(input));

    let input = "nameserver 127.0.0.53";

    assert_eq!(strings(&["127.0.0.53"]), parse_resolv_conf(input));

    let input = r##"
_nameserver 127.0.0.1
nameserver 127.0.0.2
nameserver 127.0.0.3 oops extra stuff
"##;

    assert_eq!(strings(&["127.0.0.2"]), parse_resolv_conf(input));

    let input = r##"
nameserver 127.0.0.1
nameserver 127.0.0.2
nameserver 127.0.0.3
"##;

    assert_eq!(
        strings(&["127.0.0.1", "127.0.0.2", "127.0.0.3"]),
        parse_resolv_conf(input)
    );

    let input = r##"
nameserver 127.0.0.1
nameserver 127.0.0.2
nameserver 127.0.0.3
nameserver 127.0.0.4
nameserver 127.0.0.5
nameserver 127.0.0.6
nameserver 127.0.0.7
nameserver 127.0.0.8
nameserver 127.0.0.9
nameserver 127.0.0.10
nameserver 127.0.0.11
nameserver 127.0.0.12
"##;

    assert_eq!(
        strings(&[
            "127.0.0.1",
            "127.0.0.2",
            "127.0.0.3",
            "127.0.0.4",
            "127.0.0.5",
            "127.0.0.6",
            "127.0.0.7",
            "127.0.0.8",
            "127.0.0.9",
            "127.0.0.10",
            "127.0.0.11"
        ]),
        parse_resolv_conf(input)
    );

    let input = r##"
nameserver 127.0.0.1
nameserver ::1
nameserver ::1/128
nameserver 0:0:0:0:0:0:0:1
nameserver 127.0.0.3
"##;
    assert_eq!(strings(&["127.0.0.1", "127.0.0.3"]), parse_resolv_conf(input));
}

#[test]
fn nameserver_lines() {
    assert_eq!(Some(String::from("1.2.3.4")), nameserver_entry("nameserver 1.2.3.4"));
    assert_eq!(Some(String::from("1.2.3.4")), nameserver_entry("  nameserver\t1.2.3.4  "));
    assert_eq!(Some(String::from("anything")), nameserver_entry("nameserver anything"));
    assert_eq!(None, nameserver_entry(""));
    assert_eq!(None, nameserver_entry("   "));
    assert_eq!(None, nameserver_entry("# nameserver 1.2.3.4"));
    assert_eq!(None, nameserver_entry("  #nameserver 1.2.3.4"));
    assert_eq!(None, nameserver_entry("nameserver"));
    assert_eq!(None, nameserver_entry("nameserver 1.2.3.4 5.6.7.8"));
    assert_eq!(None, nameserver_entry("Nameserver 1.2.3.4"));
    assert_eq!(None, nameserver_entry("search example.com"));
}

#[test]
fn nameserver_choice() {
    let user = strings(&["10.0.0.1"]);
    let system = strings(&["127.0.0.53", "127.0.0.54"]);
    assert_eq!(user, nameservers(user.clone(), system.clone()));
    assert_eq!(system, nameservers(vec![], system.clone()));
    assert_eq!(strings(&["8.8.8.8", "8.8.4.4"]), nameservers(vec![], vec![]));
}

#[test]
fn nameserver_limit() {
    assert_eq!(11, MAX_NAMESERVERS);
    let conf: String = (0..20).map(|i| format!("nameserver 10.0.0.{i}\n")).collect();
    let expected: Vec<String> = (0..11).map(|i| format!("10.0.0.{i}")).collect();
    assert_eq!(expected, parse_resolv_conf(&conf));
    let conf: String = (0..11).map(|i| format!("nameserver 10.0.0.{i}\n")).collect();
    assert_eq!(expected, parse_resolv_conf(&conf));
    // nothing is read once enough are found
    let mut bytes = conf.into_bytes();
    bytes.push(0xff);
    assert_eq!(expected, impl_try_parse_resolv_conf(&bytes));
}

#[test]
fn resolv_conf_edges() {
    assert!(parse_resolv_conf("").is_empty());
    assert_eq!(strings(&["[10.0.0.1]"]), parse_resolv_conf("nameserver [10.0.0.1]\r\n"));
    // reading ends at a line that is not text
    let mut bytes = b"nameserver 10.0.0.1\n".to_vec();
    bytes.extend_from_slice(&[0xff, b'\n']);
    bytes.extend_from_slice(b"nameserver 10.0.0.2\n");
    assert_eq!(strings(&["10.0.0.1"]), impl_try_parse_resolv_conf(&bytes));
    // a name server in the last line counts without a line feed
    assert_eq!(
        strings(&["10.0.0.1", "10.0.0.2"]),
        parse_resolv_conf("nameserver 10.0.0.1\n# c\n\nnameserver 10.0.0.2")
    );
}

#[test]
fn ipv4_addresses() {
    for good in ["0.0.0.0", "127.0.0.1", "255.255.255.255", "1.2.3.4", "10.20.30.40"] {
        assert!(is_ipv4_address(good), "{good}");
    }
    for bad in [
        "", ".", "1", "1.2.3", "1.2.3.4.5", "1.2.3.", ".1.2.3", "1..2.3", "256.1.1.1",
        "1.1.1.256", "01.1.1.1", "1.1.1.00", "1.1.1.1000", "1.1.1.-1", "1.1.1.+1",
        " 1.1.1.1", "1.1.1.1 ", "a.b.c.d", "::1", "0x1.1.1.1", "1.1.1.\u{661}",
    ] {
        assert!(!is_ipv4_address(bad), "{bad}");
    }
}
