use nue::cache::{find_cached_node_downloads, generate_string, Folder};
use nue::lts::Lts;
use nue::pathcheck::{available_shell_profiles, is_node_in_path};
use nue::platform::{LinuxArch, MacArch, Platform, WindowsArch};
use nue::release::Release;
use nue::strutil::{ascii_to_lowercase, str_contains, u64_to_string, Ext};
use nue::urls::NodeURLs;
use nue::version::parse_version;

fn release(version: &str) -> Release {
    Release {
        version: parse_version(version).unwrap(),
        files: vec!["linux-x64".to_string()],
        lts: Lts::False,
    }
}

#[test]
fn archive_names_follow_the_convention() {
    let rel = release("20.11.0");
    assert_eq!(
        rel.get_archive_string(&Platform::Linux(LinuxArch::X64)),
        "node-v20.11.0-linux-x64"
    );
    assert_eq!(
        rel.get_archive_string(&Platform::Mac(MacArch::ARM64)),
        "node-v20.11.0-darwin-arm64"
    );
}

#[test]
fn download_urls_follow_the_convention() {
    let rel = release("20.11.0");
    assert_eq!(
        rel.get_download_url(&Platform::Linux(LinuxArch::X64)),
        "https://nodejs.org/dist/v20.11.0/node-v20.11.0-linux-x64.tar.xz"
    );
    assert_eq!(
        rel.get_download_url(&Platform::Windows(WindowsArch::X64)),
        "https://nodejs.org/dist/v20.11.0/node-v20.11.0-win-x64.7z"
    );
}

#[test]
fn release_pages_point_at_the_repository() {
    assert_eq!(
        release("18.20.1").get_github_release_url(),
        "https://github.com/nodejs/node/releases/tag/v18.20.1"
    );
}

#[test]
fn support_check_reads_the_files_list() {
    let rel = release("20.11.0");
    assert!(rel.is_supported_by_current_platform(&Platform::Linux(LinuxArch::X64)));
    assert!(!rel.is_supported_by_current_platform(&Platform::Mac(MacArch::ARM64)));
}

#[test]
fn reported_versions_compare_exactly() {
    let rel = release("20.11.0");
    assert!(rel.reported_version_matches("v20.11.0"));
    assert!(!rel.reported_version_matches("20.11.0"));
    assert!(!rel.reported_version_matches("v20.11.1"));
}

#[test]
fn node_urls_derive_paths() {
    let urls = NodeURLs::default();
    assert_eq!(urls.home, "https://nodejs.org");
    assert_eq!(urls.github, "https://github.com/nodejs/node");
    assert_eq!(urls.get_releases_index(), "https://nodejs.org/dist/index.json");
    assert_eq!(urls.get_distribution_path(), "https://nodejs.org/dist");
}

#[test]
fn cache_listing_keeps_only_node_entries() {
    let names = vec![
        "node-v20.11.0-linux-x64".to_string(),
        "stray-file".to_string(),
        "node-v18.20.1-linux-x64".to_string(),
    ];
    let caches = find_cached_node_downloads(&names);
    assert_eq!(
        caches,
        vec![
            "node-v20.11.0-linux-x64".to_string(),
            "node-v18.20.1-linux-x64".to_string(),
        ]
    );
}

#[test]
fn random_names_are_alphanumeric() {
    let s = generate_string(8);
    assert_eq!(s.len(), 8);
    assert!(s.chars().all(|c| c.is_ascii_alphanumeric()));
    assert_eq!(generate_string(0), "");
}

#[test]
fn scratch_folders_are_named_under_the_temp_root() {
    let folder = Folder::new("/tmp".to_string());
    assert_eq!(folder.prefix, "nue");
    assert_eq!(folder.uid.len(), 8);
    let path = folder.get_full_path();
    assert_eq!(path, format!("/tmp/nue-{}", folder.uid));
    let listing = vec![
        format!("nue-{}", folder.uid),
        "something-else".to_string(),
        "nue-abcdefgh".to_string(),
    ];
    let caches = folder.find_caches(&listing);
    assert_eq!(caches.len(), 2);
}

#[test]
fn path_detection_matches_whole_components() {
    let linux = Platform::Linux(LinuxArch::X64);
    assert!(is_node_in_path("/usr/bin:/home/me/.nue/node/bin", &linux));
    assert!(is_node_in_path("/home/me/.nue/node/bin/:/usr/bin", &linux));
    assert!(!is_node_in_path("/usr/bin:/home/me/x.nue/node/bin", &linux));
    assert!(!is_node_in_path("/usr/bin", &linux));
    assert!(!is_node_in_path("", &linux));
    let windows = Platform::Windows(WindowsArch::X64);
    assert!(is_node_in_path(r"C:\Users\me\AppData\Local\Programs\nue\node;C:\Windows", &windows));
    assert!(!is_node_in_path(r"C:\Windows;C:\Users\me\nue", &windows));
}

#[test]
fn shell_profiles_depend_on_the_shell() {
    assert_eq!(
        available_shell_profiles(Some("zsh")),
        vec!["~/.zprofile", "~/.zshenv", "~/.zshrc"]
    );
    assert_eq!(
        available_shell_profiles(Some("bash")),
        vec!["~/.bash_profile", "~/.bashrc"]
    );
    assert_eq!(available_shell_profiles(Some("fish")), vec!["~/.profile"]);
    assert_eq!(available_shell_profiles(None), vec!["~/.profile"]);
}

#[test]
fn lowercasing_touches_only_ascii_letters() {
    assert_eq!(ascii_to_lowercase("Hydrogen"), "hydrogen");
    assert_eq!(ascii_to_lowercase("LTS-2024"), "lts-2024");
    assert_eq!(ascii_to_lowercase("caf\u{e9}"), "caf\u{e9}");
}

#[test]
fn renders_decimals_without_leading_zeros() {
    assert_eq!(u64_to_string(0), "0");
    assert_eq!(u64_to_string(7), "7");
    assert_eq!(u64_to_string(20), "20");
    assert_eq!(u64_to_string(u64::MAX), "18446744073709551615");
}

#[test]
fn hyperlinks_wrap_text_in_osc_8() {
    let text = "v20.11.0".to_string();
    let linked = text.hyperlink("https://nodejs.org");
    assert_eq!(
        linked,
        "\u{1b}]8;;https://nodejs.org\u{7}v20.11.0\u{1b}]8;;\u{7}"
    );
}

#[test]
fn lts_markers_display_their_code_name() {
    assert_eq!(Lts::CodeName("Iron".to_string()).display_string(), "Iron");
    assert_eq!(Lts::False.display_string(), "false");
    assert!(Lts::CodeName("Iron".to_string()).is_code_name());
    assert!(!Lts::False.is_code_name());
}

#[test]
fn substring_search_finds_whole_occurrences() {
    assert!(str_contains("source $HOME/.nue/env here", "$HOME/.nue/env"));
    assert!(!str_contains("source $HOME/.nue/en here", "$HOME/.nue/env"));
    assert!(str_contains("abc", ""));
    assert!(str_contains("aaab", "aab"));
    assert!(!str_contains("ab", "abc"));
}
