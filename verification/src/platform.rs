//! The platform model: the operating system / CPU architecture pairs the
//! engine recognises, and the three distinct string encodings each pair
//! produces (archive-name token, download-index token, archive extension).

use vstd::prelude::*;

use crate::strutil::str_eq;

verus! {

/// CPU architectures with Linux builds.
#[derive(Debug, Clone, Copy, PartialEq, Eq, Structural)]
pub enum LinuxArch {
    ARM64,
    ARMv7l,
    Ppc64le,
    S390x,
    X64,
}

/// CPU architectures with macOS builds.
#[derive(Debug, Clone, Copy, PartialEq, Eq, Structural)]
pub enum MacArch {
    ARM64,
    X64,
}

/// CPU architectures with Windows builds.
#[derive(Debug, Clone, Copy, PartialEq, Eq, Structural)]
pub enum WindowsArch {
    ARM64,
    X86,
    X64,
}

/// An operating system together with a recognised CPU architecture.
#[derive(Debug, Clone, Copy, PartialEq, Eq, Structural)]
pub enum Platform {
    Linux(LinuxArch),
    Mac(MacArch),
    Windows(WindowsArch),
}

/// The architecture token used in archive names and index entries.
pub open spec fn spec_node_arch(p: Platform) -> Seq<char> {
    match p {
        Platform::Linux(LinuxArch::ARM64) => "arm64"@,
        Platform::Linux(LinuxArch::ARMv7l) => "armv7l"@,
        Platform::Linux(LinuxArch::Ppc64le) => "ppc64le"@,
        Platform::Linux(LinuxArch::S390x) => "s390x"@,
        Platform::Linux(LinuxArch::X64) => "x64"@,
        Platform::Mac(MacArch::ARM64) => "arm64"@,
        Platform::Mac(MacArch::X64) => "x64"@,
        Platform::Windows(WindowsArch::ARM64) => "arm64"@,
        Platform::Windows(WindowsArch::X86) => "x86"@,
        Platform::Windows(WindowsArch::X64) => "x64"@,
    }
}

/// The archive file extension: a `tar.xz` everywhere but on Windows,
/// which downloads a `7z`.
pub open spec fn spec_archive_extension(p: Platform) -> Seq<char> {
    match p {
        Platform::Linux(_) => "tar.xz"@,
        Platform::Mac(_) => "tar.xz"@,
        Platform::Windows(_) => "7z"@,
    }
}

/// The platform token used inside archive names.
pub open spec fn spec_platform_string(p: Platform) -> Seq<char> {
    match p {
        Platform::Linux(_) => "linux-"@ + spec_node_arch(p),
        Platform::Mac(_) => "darwin-"@ + spec_node_arch(p),
        Platform::Windows(_) => "win-"@ + spec_node_arch(p),
    }
}

/// The platform token used in the `files` list of the release index; it
/// differs from the archive token on macOS and Windows.
pub open spec fn spec_index_platform_string(p: Platform) -> Seq<char> {
    match p {
        Platform::Linux(_) => "linux-"@ + spec_node_arch(p),
        Platform::Mac(_) => "osx-"@ + spec_node_arch(p) + "-tar"@,
        Platform::Windows(_) => "win-"@ + spec_node_arch(p) + "-7z"@,
    }
}

/// The platform recognised for an OS name and a CPU architecture name as
/// the Rust toolchain reports them, if any.
pub open spec fn spec_platform_of(os: Seq<char>, arch: Seq<char>) -> Option<Platform> {
    if os == "linux"@ {
        if arch == "aarch64"@ {
            Some(Platform::Linux(LinuxArch::ARM64))
        } else if arch == "arm"@ {
            Some(Platform::Linux(LinuxArch::ARMv7l))
        } else if arch == "powerpc64"@ {
            Some(Platform::Linux(LinuxArch::Ppc64le))
        } else if arch == "s390x"@ {
            Some(Platform::Linux(LinuxArch::S390x))
        } else if arch == "x86_64"@ {
            Some(Platform::Linux(LinuxArch::X64))
        } else {
            None
        }
    } else if os == "macos"@ {
        if arch == "aarch64"@ {
            Some(Platform::Mac(MacArch::ARM64))
        } else if arch == "x86_64"@ {
            Some(Platform::Mac(MacArch::X64))
        } else {
            None
        }
    } else if os == "windows"@ {
        if arch == "aarch64"@ {
            Some(Platform::Windows(WindowsArch::ARM64))
        } else if arch == "x86"@ {
            Some(Platform::Windows(WindowsArch::X86))
        } else if arch == "x86_64"@ {
            Some(Platform::Windows(WindowsArch::X64))
        } else {
            None
        }
    } else {
        None
    }
}

impl Platform {
    /// Maps the running system's OS and architecture names to a platform;
    /// an unrecognised pair is reported as `None`, which callers treat as
    /// an unsupported platform.
    pub fn from_os_arch(os: &str, arch: &str) -> (r: Option<Platform>)
        ensures
            r == spec_platform_of(os@, arch@),
    {
        if str_eq(os, "linux") {
            if str_eq(arch, "aarch64") {
                Some(Platform::Linux(LinuxArch::ARM64))
            } else if str_eq(arch, "arm") {
                Some(Platform::Linux(LinuxArch::ARMv7l))
            } else if str_eq(arch, "powerpc64") {
                Some(Platform::Linux(LinuxArch::Ppc64le))
            } else if str_eq(arch, "s390x") {
                Some(Platform::Linux(LinuxArch::S390x))
            } else if str_eq(arch, "x86_64") {
                Some(Platform::Linux(LinuxArch::X64))
            } else {
                None
            }
        } else if str_eq(os, "macos") {
            if str_eq(arch, "aarch64") {
                Some(Platform::Mac(MacArch::ARM64))
            } else if str_eq(arch, "x86_64") {
                Some(Platform::Mac(MacArch::X64))
            } else {
                None
            }
        } else if str_eq(os, "windows") {
            if str_eq(arch, "aarch64") {
                Some(Platform::Windows(WindowsArch::ARM64))
            } else if str_eq(arch, "x86") {
                Some(Platform::Windows(WindowsArch::X86))
            } else if str_eq(arch, "x86_64") {
                Some(Platform::Windows(WindowsArch::X64))
            } else {
                None
            }
        } else {
            None
        }
    }

    /// The architecture token used in archive names.
    pub fn node_arch(&self) -> (r: &'static str)
        ensures
            r@ == spec_node_arch(*self),
    {
        match self {
            Platform::Linux(LinuxArch::ARM64) => "arm64",
            Platform::Linux(LinuxArch::ARMv7l) => "armv7l",
            Platform::Linux(LinuxArch::Ppc64le) => "ppc64le",
            Platform::Linux(LinuxArch::S390x) => "s390x",
            Platform::Linux(LinuxArch::X64) => "x64",
            Platform::Mac(MacArch::ARM64) => "arm64",
            Platform::Mac(MacArch::X64) => "x64",
            Platform::Windows(WindowsArch::ARM64) => "arm64",
            Platform::Windows(WindowsArch::X86) => "x86",
            Platform::Windows(WindowsArch::X64) => "x64",
        }
    }

    /// The archive file extension for this platform's download.
    pub fn node_archive_extension(&self) -> (r: &'static str)
        ensures
            r@ == spec_archive_extension(*self),
    {
        match self {
            Platform::Linux(_) => "tar.xz",
            Platform::Mac(_) => "tar.xz",
            Platform::Windows(_) => "7z",
        }
    }

    /// The platform token used inside archive names.
    pub fn node_platform_string(&self) -> (r: String)
        ensures
            r@ == spec_platform_string(*self),
    {
        let mut out = String::new();
        match self {
            Platform::Linux(_) => out.append("linux-"),
            Platform::Mac(_) => out.append("darwin-"),
            Platform::Windows(_) => out.append("win-"),
        }
        out.append(self.node_arch());
        out
    }

    /// The platform token used in the release index's `files` list.
    pub fn node_index_platform_string(&self) -> (r: String)
        ensures
            r@ == spec_index_platform_string(*self),
    {
        let mut out = String::new();
        match self {
            Platform::Linux(_) => out.append("linux-"),
            Platform::Mac(_) => out.append("osx-"),
            Platform::Windows(_) => out.append("win-"),
        }
        out.append(self.node_arch());
        match self {
            Platform::Linux(_) => {},
            Platform::Mac(_) => out.append("-tar"),
            Platform::Windows(_) => out.append("-7z"),
        }
        out
    }
}

} // verus!
