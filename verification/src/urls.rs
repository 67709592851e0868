//! The fixed web locations the runtime is published at, and the paths
//! derived from them.

use vstd::prelude::*;

verus! {

/// The base URLs of the runtime's distribution site and source
/// repository.
#[derive(Debug, Clone)]
pub struct NodeURLs {
    pub home: String,
    pub github: String,
}

impl NodeURLs {
    /// The URL of the release index document.
    pub fn get_releases_index(&self) -> (r: String)
        ensures
            r@ == self.home@ + "/dist/index.json"@,
    {
        let mut out = self.home.clone();
        out.append("/dist/index.json");
        out
    }

    /// The base path all release archives hang under.
    pub fn get_distribution_path(&self) -> (r: String)
        ensures
            r@ == self.home@ + "/dist"@,
    {
        let mut out = self.home.clone();
        out.append("/dist");
        out
    }
}

impl Default for NodeURLs {
    /// The runtime's public distribution site and source repository.
    fn default() -> (r: Self)
        ensures
            r.home@ == "https://nodejs.org"@,
            r.github@ == "https://github.com/nodejs/node"@,
    {
        let mut home = String::new();
        home.append("https://nodejs.org");
        let mut github = String::new();
        github.append("https://github.com/nodejs/node");
        NodeURLs { home, github }
    }
}

} // verus!
