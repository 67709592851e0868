use nue::engine::{
    install_step, plan_install, plan_uninstall, prune_plan, resolve, EngineError, InstallEvent,
    InstallPlan, InstallState, UninstallOutcome,
};
use nue::lts::Lts;
use nue::platform::{LinuxArch, Platform};
use nue::release::Release;
use nue::select::VersionInputs;
use nue::version::parse_version;

fn rel(version: &str, files: &[&str], lts: Lts) -> Release {
    Release {
        version: parse_version(version).unwrap(),
        files: files.iter().map(|f| f.to_string()).collect(),
        lts,
    }
}

fn linux_rel(version: &str) -> Release {
    rel(version, &["linux-x64", "osx-arm64-tar"], Lts::False)
}

fn linux() -> Platform {
    Platform::Linux(LinuxArch::X64)
}

#[test]
fn resolve_reports_version_not_found() {
    let releases = vec![linux_rel("20.11.0")];
    let query = VersionInputs::VersionString("99".to_string());
    assert_eq!(resolve(&query, &releases, &linux()), Err(EngineError::VersionNotFound));
}

#[test]
fn resolve_distinguishes_unsupported_platform_from_not_found() {
    let releases = vec![
        rel("20.11.0", &["osx-arm64-tar", "win-x64-7z"], Lts::False),
        linux_rel("18.20.1"),
    ];
    let query = VersionInputs::VersionString("20".to_string());
    assert_eq!(resolve(&query, &releases, &linux()), Err(EngineError::UnsupportedPlatform));
    let query18 = VersionInputs::VersionString("18".to_string());
    assert_eq!(resolve(&query18, &releases, &linux()), Ok(1));
}

#[test]
fn install_is_idempotent_without_force() {
    let release = linux_rel("20.11.0");
    let pointer = "node-v20.11.0-linux-x64".to_string();
    let cache = vec![pointer.clone()];
    let plan = plan_install(&release, &linux(), Some(&pointer), &cache, false, false).unwrap();
    assert!(matches!(plan, InstallPlan::AlreadyInstalled));
}

#[test]
fn force_reinstalls_over_matching_pointer() {
    let release = linux_rel("20.11.0");
    let pointer = "node-v20.11.0-linux-x64".to_string();
    let cache = vec![pointer.clone()];
    let plan = plan_install(&release, &linux(), Some(&pointer), &cache, true, false).unwrap();
    match plan {
        InstallPlan::LinkFromCache { entry } => assert_eq!(entry, "node-v20.11.0-linux-x64"),
        other => panic!("expected a cache relink, got {:?}", other),
    }
}

#[test]
fn cache_hit_avoids_download() {
    let release = linux_rel("20.11.0");
    let cache = vec![
        "node-v18.20.1-linux-x64".to_string(),
        "node-v20.11.0-linux-x64".to_string(),
    ];
    let plan = plan_install(&release, &linux(), None, &cache, false, false).unwrap();
    assert!(matches!(plan, InstallPlan::LinkFromCache { entry } if entry == "node-v20.11.0-linux-x64"));
}

#[test]
fn no_cache_flag_forces_download() {
    let release = linux_rel("20.11.0");
    let cache = vec!["node-v20.11.0-linux-x64".to_string()];
    let plan = plan_install(&release, &linux(), None, &cache, false, true).unwrap();
    match plan {
        InstallPlan::DownloadExtractLink { url, entry } => {
            assert_eq!(entry, "node-v20.11.0-linux-x64");
            assert_eq!(
                url,
                "https://nodejs.org/dist/v20.11.0/node-v20.11.0-linux-x64.tar.xz"
            );
        },
        other => panic!("expected a download, got {:?}", other),
    }
}

#[test]
fn cache_miss_downloads() {
    let release = linux_rel("20.11.0");
    let cache = vec!["node-v18.20.1-linux-x64".to_string()];
    let plan = plan_install(&release, &linux(), None, &cache, false, false).unwrap();
    assert!(matches!(plan, InstallPlan::DownloadExtractLink { .. }));
}

#[test]
fn unsupported_release_never_installs() {
    let release = rel("20.11.0", &["win-x64-7z"], Lts::False);
    let cache = vec!["node-v20.11.0-linux-x64".to_string()];
    let plan = plan_install(&release, &linux(), None, &cache, false, false);
    assert_eq!(
        match plan {
            Err(e) => e,
            Ok(p) => panic!("expected an error, got {:?}", p),
        },
        EngineError::UnsupportedPlatform
    );
}

#[test]
fn clean_spares_only_the_current_target() {
    let entries = vec![
        "node-v18.20.1-linux-x64".to_string(),
        "node-v20.11.0-linux-x64".to_string(),
        "node-v21.0.0-linux-x64".to_string(),
    ];
    let current = "node-v20.11.0-linux-x64".to_string();
    let doomed = prune_plan(&entries, Some(&current));
    assert_eq!(
        doomed,
        vec![
            "node-v18.20.1-linux-x64".to_string(),
            "node-v21.0.0-linux-x64".to_string(),
        ]
    );
    assert!(!doomed.contains(&current));
}

#[test]
fn clean_without_pointer_removes_everything() {
    let entries = vec![
        "node-v18.20.1-linux-x64".to_string(),
        "node-v20.11.0-linux-x64".to_string(),
    ];
    let doomed = prune_plan(&entries, None);
    assert_eq!(doomed, entries);
}

#[test]
fn uninstall_without_pointer_reports_not_installed() {
    assert_eq!(plan_uninstall(false), UninstallOutcome::NotInstalled);
    assert_eq!(plan_uninstall(true), UninstallOutcome::Removed);
}

#[test]
fn error_messages_are_specific() {
    assert_eq!(
        EngineError::VersionNotFound.message(),
        "No release found with given version or LTS code name."
    );
    assert_eq!(
        EngineError::UnsupportedPlatform.message(),
        "This release is not supported by the current platform."
    );
    assert_eq!(
        EngineError::NetworkStatus(404).message(),
        "The release server answered with status 404."
    );
    assert!(EngineError::LinkDeveloperMode.message().contains("Developer mode"));
}

#[test]
fn install_machine_walks_the_download_path() {
    let query = VersionInputs::VersionString("20".to_string());
    let platform = linux();
    let step = |state: &InstallState, event: InstallEvent| {
        install_step(&query, &platform, false, false, state, event)
    };

    let s1 = step(&InstallState::Idle, InstallEvent::Start);
    assert!(matches!(s1, InstallState::Resolving));

    let releases = vec![linux_rel("20.11.0")];
    let s2 = step(&s1, InstallEvent::IndexFetched(Ok(releases)));
    match &s2 {
        InstallState::CacheCheck { url, entry } => {
            assert_eq!(entry, "node-v20.11.0-linux-x64");
            assert_eq!(url, "https://nodejs.org/dist/v20.11.0/node-v20.11.0-linux-x64.tar.xz");
        }
        other => panic!("expected the cache check, got {:?}", other),
    }

    let s3 = step(
        &s2,
        InstallEvent::StateObserved { installed: None, cache_entries: vec![] },
    );
    assert!(matches!(&s3, InstallState::Downloading { .. }));

    let s4 = step(&s3, InstallEvent::Downloaded(Ok(())));
    assert!(matches!(&s4, InstallState::Extracting { entry } if entry == "node-v20.11.0-linux-x64"));

    let s5 = step(&s4, InstallEvent::Extracted(Ok(())));
    assert!(matches!(&s5, InstallState::Linking { entry } if entry == "node-v20.11.0-linux-x64"));

    let s6 = step(&s5, InstallEvent::PointerLinked(Ok(())));
    assert!(matches!(s6, InstallState::Linked));

    let s7 = step(&s6, InstallEvent::Finish);
    assert!(matches!(s7, InstallState::Done));
}

#[test]
fn install_machine_short_circuits_on_cache_and_pointer() {
    let query = VersionInputs::Latest;
    let platform = linux();
    let cache_check = InstallState::CacheCheck {
        url: "https://nodejs.org/dist/v20.11.0/node-v20.11.0-linux-x64.tar.xz".to_string(),
        entry: "node-v20.11.0-linux-x64".to_string(),
    };

    let already = install_step(
        &query,
        &platform,
        false,
        false,
        &cache_check,
        InstallEvent::StateObserved {
            installed: Some("node-v20.11.0-linux-x64".to_string()),
            cache_entries: vec![],
        },
    );
    assert!(matches!(already, InstallState::Done));

    let from_cache = install_step(
        &query,
        &platform,
        false,
        false,
        &cache_check,
        InstallEvent::StateObserved {
            installed: None,
            cache_entries: vec!["node-v20.11.0-linux-x64".to_string()],
        },
    );
    assert!(matches!(from_cache, InstallState::Linking { .. }));
}

#[test]
fn install_machine_fails_terminally() {
    let query = VersionInputs::Latest;
    let platform = linux();
    let failed = install_step(
        &query,
        &platform,
        false,
        false,
        &InstallState::Resolving,
        InstallEvent::IndexFetched(Err(EngineError::NetworkStatus(503))),
    );
    assert!(matches!(failed, InstallState::Failed(EngineError::NetworkStatus(503))));

    let still_failed = install_step(&query, &platform, false, false, &failed, InstallEvent::Start);
    assert!(matches!(still_failed, InstallState::Failed(EngineError::NetworkStatus(503))));

    let not_found = install_step(
        &query,
        &platform,
        false,
        false,
        &InstallState::Resolving,
        InstallEvent::IndexFetched(Ok(vec![])),
    );
    assert!(matches!(not_found, InstallState::Failed(EngineError::VersionNotFound)));
}

#[test]
fn install_machine_ignores_unexpected_events() {
    let query = VersionInputs::Latest;
    let platform = linux();
    let unchanged = install_step(
        &query,
        &platform,
        false,
        false,
        &InstallState::Idle,
        InstallEvent::Downloaded(Ok(())),
    );
    assert!(matches!(unchanged, InstallState::Idle));
}
