//! A release from the published index, and the names derived from it:
//! the archive/cache-entry name, the download URL, and the project page,
//! together with the platform-support test.

use vstd::prelude::*;

use crate::lts::Lts;
use crate::platform::{
    spec_archive_extension, spec_index_platform_string, spec_platform_string, Platform,
};
use crate::version::{version_chars, version_to_string, Version};

verus! {

/// One release of the runtime as the index describes it: its version,
/// the platform tokens it was built for, and its support marker.
#[derive(Debug, Clone)]
pub struct Release {
    pub version: Version,
    pub files: Vec<String>,
    pub lts: Lts,
}

/// The deterministic archive name `node-v<version>-<platform>`, which
/// also names the release's cache entry.
pub open spec fn spec_archive_string(v: Version, p: Platform) -> Seq<char> {
    "node-v"@ + version_chars(v) + "-"@ + spec_platform_string(p)
}

/// The download URL `<dist>/v<version>/<archive>.<ext>`.
pub open spec fn spec_download_url(v: Version, p: Platform) -> Seq<char> {
    "https://nodejs.org/dist/v"@ + version_chars(v) + "/"@ + spec_archive_string(v, p) + "."@
        + spec_archive_extension(p)
}

/// The release has a build for platform `p`: the index's `files` list
/// holds `p`'s index token.
pub open spec fn spec_supported(r: Release, p: Platform) -> bool {
    exists|i: int| 0 <= i < r.files@.len() && r.files@[i]@ == spec_index_platform_string(p)
}

impl Release {
    /// The archive name `node-v<version>-<platform>`.
    pub fn get_archive_string(&self, platform: &Platform) -> (r: String)
        ensures
            r@ == spec_archive_string(self.version, *platform),
    {
        let mut out = String::new();
        out.append("node-v");
        let ver = version_to_string(&self.version);
        out.append(ver.as_str());
        out.append("-");
        let plat = platform.node_platform_string();
        out.append(plat.as_str());
        out
    }

    /// The URL the release's archive is downloaded from.
    pub fn get_download_url(&self, platform: &Platform) -> (r: String)
        ensures
            r@ == spec_download_url(self.version, *platform),
    {
        let mut out = String::new();
        out.append("https://nodejs.org/dist/v");
        let ver = version_to_string(&self.version);
        out.append(ver.as_str());
        out.append("/");
        let archive = self.get_archive_string(platform);
        out.append(archive.as_str());
        out.append(".");
        out.append(platform.node_archive_extension());
        out
    }

    /// The release's page in the runtime's source repository.
    pub fn get_github_release_url(&self) -> (r: String)
        ensures
            r@ == "https://github.com/nodejs/node/releases/tag/v"@ + version_chars(self.version),
    {
        let mut out = String::new();
        out.append("https://github.com/nodejs/node/releases/tag/v");
        let ver = version_to_string(&self.version);
        out.append(ver.as_str());
        out
    }

    /// Whether the version string a running `node --version` reports is
    /// exactly this release's version with its leading `v`.
    pub fn reported_version_matches(&self, reported: &str) -> (r: bool)
        ensures
            r == (reported@ == "v"@ + version_chars(self.version)),
    {
        let mut expected = String::new();
        expected.append("v");
        let ver = version_to_string(&self.version);
        expected.append(ver.as_str());
        crate::strutil::str_eq(reported, expected.as_str())
    }

    /// Whether this release has a build for the given platform.
    pub fn is_supported_by_current_platform(&self, platform: &Platform) -> (r: bool)
        ensures
            r == spec_supported(*self, *platform),
    {
        let token = platform.node_index_platform_string();
        let mut i: usize = 0;
        while i < self.files.len()
            invariant
                i <= self.files@.len(),
                token@ == spec_index_platform_string(*platform),
                forall|j: int| 0 <= j < i ==> self.files@[j]@ != token@,
            decreases self.files@.len() - i,
        {
            if self.files[i].eq(&token) {
                return true;
            }
            i += 1;
        }
        false
    }
}

} // verus!
