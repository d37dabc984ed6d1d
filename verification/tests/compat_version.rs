use rusty_cli::compat_version::Version;

fn parse(input: &str, (maj, min): (u16, u16)) {
    assert_eq!(
        Some(Version::new(maj, min)),
        Version::from_str(input),
        "Version::from_str(\"{input}\") => {maj}.{min}"
    );
}

fn no_parse(input: &str) {
    assert_eq!(
        None,
        Version::from_str(input),
        "Version::from_str(\"{input}\") should fail"
    );
}

#[test]
fn resty_version_parser() {
    parse(".1", (0, 1));
    parse(".1", (0, 1));
    parse(".12", (0, 12));

    parse("1", (1, 0));
    parse("1.2", (1, 2));
    parse("1.2.3", (1, 2));
    parse("1.2.3-extra", (1, 2));
    parse("v1", (1, 0));
    parse("v1.2", (1, 2));
    parse("v1.2.3", (1, 2));
    parse("v1.2.3-extra", (1, 2));

    parse("0.1", (0, 1));
    parse("0.1.2", (0, 1));
    parse("0.1.2", (0, 1));
    parse("0.1.2-extra", (0, 1));
    parse("v0.1", (0, 1));
    parse("v0.1.2", (0, 1));
    parse("v0.1.2", (0, 1));
    parse("v0.1.2-extra", (0, 1));

    parse("0.12", (0, 12));
    parse("0.12.34", (0, 12));
    parse("0.12.34", (0, 12));
    parse("0.12.34-extra", (0, 12));
    parse("v0.12", (0, 12));
    parse("v0.12.34", (0, 12));
    parse("v0.12.34", (0, 12));
    parse("v0.12.34-extra", (0, 12));

    parse("0.123", (0, 123));
    parse("0.123.456", (0, 123));
    parse("0.123.456", (0, 123));
    parse("0.123.456-extra", (0, 123));
    parse("v0.123", (0, 123));
    parse("v0.123.456", (0, 123));
    parse("v0.123.456", (0, 123));
    parse("v0.123.456-extra", (0, 123));

    no_parse("");
    no_parse("v");
    no_parse("-1");
    no_parse("vv1");
    no_parse("0..1");
    no_parse("..1");
    no_parse("vv1");

    no_parse("999999999999999999999");
    no_parse("9999999999999999999999999");
    no_parse("1000000000000000000000000000000");

    parse("10000", (10_000, 0));
    parse("10000.10000", (10_000, 10_000));
    no_parse("100000");

    parse("65535", (65_535, 0));
    parse("65535.65535", (65_535, 65_535));
    parse("0.65535", (0, 65_535));
    no_parse("65536");

    no_parse("00000000000000");
}

#[test]
fn version_field_edges() {
    // a lone dot reads as two empty fields, the second of which is absent
    parse(".", (0, 0));
    parse("v.", (0, 0));
    parse("1.", (1, 0));
    // the minor field must end at the end or at a dot
    no_parse("1.2-extra");
    no_parse("1.x");
    // five digits are read, six are not
    parse("00001", (1, 0));
    no_parse("000001");
    parse("1.00002", (1, 2));
    no_parse("1.000002");
    no_parse("1.65536");
    no_parse("1..");
}

#[test]
fn version_from_bytes_matches_from_str() {
    assert_eq!(Some(Version::new(0, 29)), Version::from_bytes(b"v0.29"));
    assert_eq!(None, Version::from_bytes(b""));
    assert_eq!(None, Version::from_bytes(&[0xff, b'1']));
}

#[test]
fn version_to_string() {
    assert_eq!("v0.28", Version::new(0, 28).to_string());
    assert_eq!("v65535.0", Version::new(65_535, 0).to_string());
    assert_eq!("v0.28", Version::compat_min().to_string());
    assert_eq!("v0.30", Version::compat_max().to_string());
}

#[test]
fn version_ordering() {
    assert!(Version::new(0, 28) < Version::new(0, 29));
    assert!(Version::new(0, 99) < Version::new(1, 0));
    assert!(Version::new(1, 0) > Version::new(0, 65_535));
    assert!(Version::new(2, 3) <= Version::new(2, 3));
    assert!(Version::new(2, 3) >= Version::new(2, 3));
    assert!(!(Version::new(2, 3) < Version::new(2, 3)));
    assert!(Version::compat_min() < Version::compat_max());
}

#[test]
fn version_from_the_environment() {
    let some = |s: &str| Some(s.to_string());
    assert_eq!(None, Version::from_env(None));
    assert_eq!(None, Version::from_env(some("")));
    assert_eq!(None, Version::from_env(some("  \t")));
    assert_eq!(Some(Ok(Version::new(0, 29))), Version::from_env(some("v0.29")));
    assert_eq!(Some(Ok(Version::new(0, 29))), Version::from_env(some("  0.29\n")));
    assert_eq!(Some(Err(String::from(" nope "))), Version::from_env(some(" nope ")));
    assert_eq!(Some(Err(String::from("0. 29"))), Version::from_env(some("0. 29")));
}

#[test]
fn version_in_force() {
    let some = |s: &str| Some(s.to_string());
    let default = Version::compat_max();
    assert_eq!((default, None), Version::select(None, default));
    assert_eq!((default, None), Version::select(some(" "), default));
    assert_eq!((Version::new(0, 28), None), Version::select(some("0.28"), default));
    assert_eq!((Version::new(0, 29), None), Version::select(some("v0.29.1"), default));
    assert_eq!((Version::new(0, 30), None), Version::select(some("0.30"), default));
    assert_eq!(
        (
            Version::new(0, 31),
            some("WARN: RESTY_CLI_COMPAT_VERSION (v0.31) is greater than max supported version (v0.30)")
        ),
        Version::select(some("0.31"), default)
    );
    assert_eq!(
        (
            Version::new(1, 0),
            some("WARN: RESTY_CLI_COMPAT_VERSION (v1.0) is greater than max supported version (v0.30)")
        ),
        Version::select(some("1"), default)
    );
    assert_eq!(
        (
            Version::new(0, 27),
            some("WARN: RESTY_CLI_COMPAT_VERSION (v0.27) is less than the minimum supported version (v0.28)")
        ),
        Version::select(some("0.27"), default)
    );
    assert_eq!(
        (
            Version::new(0, 28),
            some("WARN: value of RESTY_CLI_COMPAT_VERSION env var (`bogus`) is invalid")
        ),
        Version::select(some("bogus"), Version::new(0, 28))
    );
}

#[test]
fn version_and_pairs() {
    assert_eq!(Version::new(3, 4), Version::from((3, 4)));
    let pair: (u16, u16) = Version::new(3, 4).into();
    assert_eq!((3, 4), pair);
    assert_eq!(std::cmp::Ordering::Less, Version::new(0, 9).cmp(&Version::new(0, 10)));
    assert_eq!(Version::new(2, 0), Version::new(1, 9).max(Version::new(2, 0)));
}
