use nue::version::{
    parse_decimal, parse_version, version_compare, version_lt_exec, version_to_string, NodeVersion,
    Order, PreId, Version,
};

fn ver(major: u64, minor: u64, patch: u64) -> Version {
    Version { major, minor, patch, prerelease: Vec::new() }
}

#[test]
fn parses_plain_version() {
    let v = parse_version("20.11.0").unwrap();
    assert_eq!(v.major, 20);
    assert_eq!(v.minor, 11);
    assert_eq!(v.patch, 0);
    assert!(v.prerelease.is_empty());
}

#[test]
fn parses_v_prefixed_version() {
    let v = parse_version("v18.20.1").unwrap();
    assert_eq!((v.major, v.minor, v.patch), (18, 20, 1));
}

#[test]
fn parses_prerelease_identifiers() {
    let v = parse_version("1.2.3-rc.1").unwrap();
    assert_eq!(v.prerelease.len(), 2);
    assert!(matches!(&v.prerelease[0], PreId::Alpha(s) if s == "rc"));
    assert!(matches!(&v.prerelease[1], PreId::Num(1)));
}

#[test]
fn rejects_malformed_versions() {
    assert!(parse_version("").is_none());
    assert!(parse_version("18").is_none());
    assert!(parse_version("18.20").is_none());
    assert!(parse_version("18.20.").is_none());
    assert!(parse_version("a.b.c").is_none());
    assert!(parse_version("1.2.3-").is_none());
    assert!(parse_version("1.2.3-rc..1").is_none());
    assert!(parse_version("1.2.3-rc.\u{e9}").is_none());
}

#[test]
fn rejects_redundant_leading_zeros() {
    assert!(parse_version("01.2.3").is_none());
    assert!(parse_version("1.02.3").is_none());
    assert!(parse_version("1.2.3-01").is_none());
    assert!(parse_version("0.2.3").is_some());
}

#[test]
fn renders_canonically() {
    let v = parse_version("v20.11.0").unwrap();
    assert_eq!(version_to_string(&v), "20.11.0");
    let p = parse_version("1.2.3-beta.7").unwrap();
    assert_eq!(version_to_string(&p), "1.2.3-beta.7");
}

#[test]
fn orders_numerically_not_textually() {
    assert!(version_lt_exec(&ver(1, 2, 3), &ver(1, 10, 0)));
    assert!(version_lt_exec(&ver(9, 0, 0), &ver(10, 0, 0)));
    assert!(!version_lt_exec(&ver(10, 0, 0), &ver(9, 9, 9)));
}

#[test]
fn orders_prerelease_below_release() {
    let pre = parse_version("1.0.0-rc.1").unwrap();
    let rel = ver(1, 0, 0);
    assert!(version_lt_exec(&pre, &rel));
    assert!(!version_lt_exec(&rel, &pre));
}

#[test]
fn orders_numeric_prerelease_ids_numerically() {
    let a = parse_version("1.0.0-rc.2").unwrap();
    let b = parse_version("1.0.0-rc.10").unwrap();
    assert!(version_lt_exec(&a, &b));
}

#[test]
fn orders_numeric_ids_below_alphanumeric() {
    let a = parse_version("1.0.0-1").unwrap();
    let b = parse_version("1.0.0-alpha").unwrap();
    assert!(version_lt_exec(&a, &b));
}

#[test]
fn orders_prefix_prerelease_lists_first() {
    let a = parse_version("1.0.0-alpha").unwrap();
    let b = parse_version("1.0.0-alpha.1").unwrap();
    assert!(version_lt_exec(&a, &b));
}

#[test]
fn compares_equal_versions_as_equal() {
    let a = parse_version("v4.9.1").unwrap();
    let b = parse_version("4.9.1").unwrap();
    assert!(matches!(version_compare(&a, &b), Order::Equal));
}

#[test]
fn parses_decimal_numbers() {
    assert_eq!(parse_decimal("0"), Some(0));
    assert_eq!(parse_decimal("48392"), Some(48392));
    assert_eq!(parse_decimal(""), None);
    assert_eq!(parse_decimal("007"), None);
    assert_eq!(parse_decimal("12a"), None);
    assert_eq!(parse_decimal("18446744073709551615"), Some(u64::MAX));
    assert_eq!(parse_decimal("18446744073709551616"), None);
}

#[test]
fn reads_node_version_requests() {
    assert!(matches!(NodeVersion::parse("latest"), NodeVersion::Latest));
    assert!(matches!(NodeVersion::parse("lts"), NodeVersion::Lts));
    assert!(matches!(NodeVersion::parse("v20.1.0"), NodeVersion::Semver(s) if s == "20.1.0"));
    assert!(matches!(NodeVersion::parse("18"), NodeVersion::Semver(s) if s == "18"));
}

#[test]
fn rendering_and_parsing_round_trip() {
    for text in ["0.0.0", "20.11.0", "1.2.3-rc.1", "10.0.0-alpha.beta-2.7"] {
        let v = parse_version(text).unwrap();
        let rendered = version_to_string(&v);
        assert_eq!(rendered, text);
        let again = parse_version(&rendered).unwrap();
        assert!(matches!(version_compare(&v, &again), Order::Equal));
        assert_eq!((again.major, again.minor, again.patch), (v.major, v.minor, v.patch));
    }
}
