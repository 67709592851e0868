use nue::engine::EngineError;
use nue::index::{parse_release_index, release_from_fields};
use nue::lts::Lts;
use nue::version::version_to_string;

const SAMPLE_INDEX: &str = r#"[
  {"version":"v21.0.0","date":"2023-10-17","files":["linux-x64","osx-arm64-tar","win-x64-7z"],"lts":false,"security":false},
  {"version":"v20.11.0","date":"2024-01-09","files":["linux-x64","linux-arm64"],"lts":"Iron","security":false}
]"#;

#[test]
fn decodes_the_release_index() {
    let releases = parse_release_index(SAMPLE_INDEX).unwrap();
    assert_eq!(releases.len(), 2);
    assert_eq!(version_to_string(&releases[0].version), "21.0.0");
    assert!(matches!(releases[0].lts, Lts::False));
    assert_eq!(version_to_string(&releases[1].version), "20.11.0");
    assert!(matches!(&releases[1].lts, Lts::CodeName(n) if n == "Iron"));
    assert_eq!(releases[1].files, vec!["linux-x64".to_string(), "linux-arm64".to_string()]);
}

#[test]
fn rejects_malformed_json() {
    assert_eq!(parse_release_index("not json").unwrap_err(), EngineError::Decode);
    assert_eq!(parse_release_index("{}").unwrap_err(), EngineError::Decode);
    assert_eq!(parse_release_index("[1,2]").unwrap_err(), EngineError::Decode);
}

#[test]
fn rejects_unparsable_version_strings() {
    let bad = r#"[{"version":"vnext","files":["linux-x64"],"lts":false}]"#;
    assert_eq!(parse_release_index(bad).unwrap_err(), EngineError::Decode);
}

#[test]
fn rejects_missing_fields() {
    let no_files = r#"[{"version":"v20.11.0","lts":false}]"#;
    assert_eq!(parse_release_index(no_files).unwrap_err(), EngineError::Decode);
    let no_lts = r#"[{"version":"v20.11.0","files":[]}]"#;
    assert_eq!(parse_release_index(no_lts).unwrap_err(), EngineError::Decode);
}

#[test]
fn builds_releases_from_plain_fields() {
    let release = release_from_fields(
        "v20.11.0",
        vec!["linux-x64".to_string()],
        Lts::CodeName("Iron".to_string()),
    )
    .unwrap();
    assert_eq!(version_to_string(&release.version), "20.11.0");
    assert_eq!(release.files, vec!["linux-x64".to_string()]);
    assert!(release_from_fields("twenty", Vec::new(), Lts::False).is_err());
}
