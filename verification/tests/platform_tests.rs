use nue::platform::{LinuxArch, MacArch, Platform, WindowsArch};

#[test]
fn recognises_linux_architectures() {
    assert_eq!(Platform::from_os_arch("linux", "x86_64"), Some(Platform::Linux(LinuxArch::X64)));
    assert_eq!(Platform::from_os_arch("linux", "aarch64"), Some(Platform::Linux(LinuxArch::ARM64)));
    assert_eq!(Platform::from_os_arch("linux", "arm"), Some(Platform::Linux(LinuxArch::ARMv7l)));
    assert_eq!(
        Platform::from_os_arch("linux", "powerpc64"),
        Some(Platform::Linux(LinuxArch::Ppc64le))
    );
    assert_eq!(Platform::from_os_arch("linux", "s390x"), Some(Platform::Linux(LinuxArch::S390x)));
}

#[test]
fn recognises_mac_and_windows_architectures() {
    assert_eq!(Platform::from_os_arch("macos", "aarch64"), Some(Platform::Mac(MacArch::ARM64)));
    assert_eq!(Platform::from_os_arch("macos", "x86_64"), Some(Platform::Mac(MacArch::X64)));
    assert_eq!(
        Platform::from_os_arch("windows", "x86_64"),
        Some(Platform::Windows(WindowsArch::X64))
    );
    assert_eq!(Platform::from_os_arch("windows", "x86"), Some(Platform::Windows(WindowsArch::X86)));
}

#[test]
fn rejects_unknown_platforms() {
    assert_eq!(Platform::from_os_arch("freebsd", "x86_64"), None);
    assert_eq!(Platform::from_os_arch("linux", "riscv64"), None);
    assert_eq!(Platform::from_os_arch("macos", "arm"), None);
    assert_eq!(Platform::from_os_arch("", ""), None);
}

#[test]
fn builds_archive_platform_strings() {
    assert_eq!(Platform::Linux(LinuxArch::X64).node_platform_string(), "linux-x64");
    assert_eq!(Platform::Mac(MacArch::ARM64).node_platform_string(), "darwin-arm64");
    assert_eq!(Platform::Windows(WindowsArch::X64).node_platform_string(), "win-x64");
}

#[test]
fn builds_index_platform_strings() {
    assert_eq!(Platform::Linux(LinuxArch::ARMv7l).node_index_platform_string(), "linux-armv7l");
    assert_eq!(Platform::Mac(MacArch::ARM64).node_index_platform_string(), "osx-arm64-tar");
    assert_eq!(Platform::Windows(WindowsArch::X86).node_index_platform_string(), "win-x86-7z");
}

#[test]
fn picks_archive_extensions() {
    assert_eq!(Platform::Linux(LinuxArch::X64).node_archive_extension(), "tar.xz");
    assert_eq!(Platform::Mac(MacArch::X64).node_archive_extension(), "tar.xz");
    assert_eq!(Platform::Windows(WindowsArch::ARM64).node_archive_extension(), "7z");
}
