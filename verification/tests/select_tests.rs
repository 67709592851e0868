use nue::lts::Lts;
use nue::platform::{LinuxArch, Platform};
use nue::release::Release;
use nue::select::{filter_releases, matches_query, select, VersionInputs};
use nue::version::parse_version;

fn rel(version: &str, files: &[&str], lts: Lts) -> Release {
    Release {
        version: parse_version(version).unwrap(),
        files: files.iter().map(|f| f.to_string()).collect(),
        lts,
    }
}

fn linux_rel(version: &str, lts: Lts) -> Release {
    rel(version, &["linux-x64", "osx-arm64-tar", "win-x64-7z"], lts)
}

#[test]
fn exact_prefix_returns_first_index_match_not_highest() {
    let releases = vec![
        linux_rel("18.20.1", Lts::False),
        linux_rel("18.19.0", Lts::False),
    ];
    let query = VersionInputs::VersionString("18".to_string());
    let picked = select(&query, &releases).unwrap();
    assert_eq!(picked, 0);

    let reordered = vec![
        linux_rel("18.19.0", Lts::False),
        linux_rel("18.20.1", Lts::False),
    ];
    assert_eq!(select(&query, &reordered).unwrap(), 0);
}

#[test]
fn exact_prefix_matches_textually() {
    let releases = vec![
        linux_rel("20.11.0", Lts::False),
        linux_rel("2.0.0", Lts::False),
    ];
    let query = VersionInputs::VersionString("2".to_string());
    assert_eq!(select(&query, &releases).unwrap(), 0);
    let query20 = VersionInputs::VersionString("2.".to_string());
    assert_eq!(select(&query20, &releases).unwrap(), 1);
}

#[test]
fn latest_returns_highest_version_wherever_it_sits() {
    let releases = vec![
        linux_rel("18.20.1", Lts::False),
        linux_rel("21.0.0", Lts::False),
        linux_rel("20.11.0", Lts::False),
    ];
    assert_eq!(select(&VersionInputs::Latest, &releases).unwrap(), 1);
}

#[test]
fn latest_honours_prerelease_precedence() {
    let releases = vec![
        linux_rel("21.0.0-rc.1", Lts::False),
        linux_rel("21.0.0", Lts::False),
        linux_rel("20.11.0", Lts::False),
    ];
    assert_eq!(select(&VersionInputs::Latest, &releases).unwrap(), 1);
}

#[test]
fn latest_on_empty_index_finds_nothing() {
    let releases: Vec<Release> = Vec::new();
    assert!(select(&VersionInputs::Latest, &releases).is_none());
}

#[test]
fn lts_query_returns_first_code_name() {
    let releases = vec![
        linux_rel("21.0.0", Lts::False),
        linux_rel("20.11.0", Lts::CodeName("Iron".to_string())),
        linux_rel("18.20.1", Lts::CodeName("Hydrogen".to_string())),
    ];
    assert_eq!(select(&VersionInputs::Lts(None), &releases).unwrap(), 1);
}

#[test]
fn lts_code_name_matches_case_insensitively() {
    let releases = vec![
        linux_rel("21.0.0", Lts::False),
        linux_rel("20.11.0", Lts::CodeName("Iron".to_string())),
        linux_rel("18.20.1", Lts::CodeName("Hydrogen".to_string())),
    ];
    let query = VersionInputs::parse("HYDROGEN");
    assert_eq!(select(&query, &releases).unwrap(), 2);
    let query2 = VersionInputs::parse("hydrogen");
    assert_eq!(select(&query2, &releases).unwrap(), 2);
}

#[test]
fn lts_query_never_matches_plain_releases() {
    let plain = linux_rel("21.0.0", Lts::False);
    assert!(!matches_query(&VersionInputs::Lts(None), &plain));
    assert!(!matches_query(&VersionInputs::Lts(Some("iron".to_string())), &plain));
    let releases = vec![plain];
    assert!(select(&VersionInputs::Lts(Some("iron".to_string())), &releases).is_none());
}

#[test]
fn parses_version_inputs() {
    assert!(matches!(VersionInputs::parse("latest"), VersionInputs::Latest));
    assert!(matches!(VersionInputs::parse("LATEST"), VersionInputs::Latest));
    assert!(matches!(VersionInputs::parse("lts"), VersionInputs::Lts(None)));
    assert!(matches!(
        VersionInputs::parse("v18.20.1"),
        VersionInputs::VersionString(s) if s == "18.20.1"
    ));
    assert!(matches!(
        VersionInputs::parse("18"),
        VersionInputs::VersionString(s) if s == "18"
    ));
    assert!(matches!(
        VersionInputs::parse("Hydrogen"),
        VersionInputs::Lts(Some(s)) if s == "hydrogen"
    ));
}

#[test]
fn filters_by_support_and_query() {
    let platform = Platform::Linux(LinuxArch::X64);
    let releases = vec![
        linux_rel("21.0.0", Lts::False),
        rel("20.11.0", &["osx-arm64-tar"], Lts::CodeName("Iron".to_string())),
        linux_rel("20.10.0", Lts::CodeName("Iron".to_string())),
    ];
    let all = filter_releases(&VersionInputs::Latest, &releases, &platform);
    assert_eq!(all, vec![0, 2]);
    let lts_only = filter_releases(&VersionInputs::Lts(None), &releases, &platform);
    assert_eq!(lts_only, vec![2]);
    let by_prefix = filter_releases(
        &VersionInputs::VersionString("20".to_string()),
        &releases,
        &platform,
    );
    assert_eq!(by_prefix, vec![2]);
}
