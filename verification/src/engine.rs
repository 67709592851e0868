//! The install/cache engine: the error taxonomy, and the decisions behind
//! install (already installed / relink from cache / download), clean and
//! uninstall. The engine only decides; the surrounding application carries
//! the filesystem and network actions out and reports their outcomes.

use vstd::prelude::*;

use crate::platform::Platform;
use crate::release::{spec_archive_string, spec_download_url, spec_supported, Release};
use crate::select::{
    first_match_selection_ok, latest_selection_ok, select, spec_matches, VersionInputs,
};
use crate::strutil::{dec_digits, u64_to_string};
use crate::version::version_cmp;

verus! {

/// Everything that can end a command: network and decoding failures
/// around the index, resolution failures, and failures of the archive,
/// link and filesystem steps that the application reports back.
#[derive(Debug, Clone, Copy, PartialEq, Eq, Structural)]
pub enum EngineError {
    /// The release server could not be reached.
    NetworkTransport,
    /// The release server answered with a non-success status.
    NetworkStatus(u16),
    /// The index document or a version string in it could not be parsed.
    Decode,
    /// No release satisfies the query.
    VersionNotFound,
    /// The platform is unrecognised, or the selected release has no build
    /// for it.
    UnsupportedPlatform,
    /// The downloaded archive could not be unpacked.
    Archive,
    /// The install pointer could not be created.
    Link,
    /// The install pointer could not be created because developer mode is
    /// disabled.
    LinkDeveloperMode,
    /// A cache or pointer path could not be created, read or removed.
    Filesystem,
}

impl EngineError {
    /// The message shown to the user for this error.
    pub fn message(&self) -> (r: String)
        ensures
            match self {
                EngineError::NetworkTransport => r@ == "Failed to reach the release server."@,
                EngineError::NetworkStatus(code) => r@ == "The release server answered with status "@
                    + dec_digits(*code as nat) + "."@,
                EngineError::Decode => r@ == "Failed to parse the release index."@,
                EngineError::VersionNotFound => r@
                    == "No release found with given version or LTS code name."@,
                EngineError::UnsupportedPlatform => r@
                    == "This release is not supported by the current platform."@,
                EngineError::Archive => r@ == "Failed to unpack the downloaded archive."@,
                EngineError::Link => r@ == "Failed to link the node folder."@,
                EngineError::LinkDeveloperMode => r@
                    == "Developer mode must be enabled to install nue. For more information: https://learn.microsoft.com/en-us/windows/apps/get-started/enable-your-device-for-development"@,
                EngineError::Filesystem => r@ == "Failed to access the nue directory."@,
            },
    {
        let mut out = String::new();
        match self {
            EngineError::NetworkTransport => out.append("Failed to reach the release server."),
            EngineError::NetworkStatus(code) => {
                out.append("The release server answered with status ");
                let digits = u64_to_string(*code as u64);
                out.append(digits.as_str());
                out.append(".");
            },
            EngineError::Decode => out.append("Failed to parse the release index."),
            EngineError::VersionNotFound => out.append(
                "No release found with given version or LTS code name.",
            ),
            EngineError::UnsupportedPlatform => out.append(
                "This release is not supported by the current platform.",
            ),
            EngineError::Archive => out.append("Failed to unpack the downloaded archive."),
            EngineError::Link => out.append("Failed to link the node folder."),
            EngineError::LinkDeveloperMode => out.append(
                "Developer mode must be enabled to install nue. For more information: https://learn.microsoft.com/en-us/windows/apps/get-started/enable-your-device-for-development",
            ),
            EngineError::Filesystem => out.append("Failed to access the nue directory."),
        }
        out
    }
}

/// Whether the selector would pick position `r` for `q` (both the
/// `Latest` precedence rule and the first-match rule for textual
/// queries).
pub open spec fn selection_ok(q: VersionInputs, releases: Seq<Release>, r: Option<usize>) -> bool {
    if q is Latest {
        latest_selection_ok(releases, r)
    } else {
        first_match_selection_ok(q, releases, r)
    }
}

/// Resolves a query to a release that is supported on the platform.
///
/// "No release satisfies the query" and "the release exists but has no
/// build for this platform" are distinct outcomes, reported as
/// `VersionNotFound` and `UnsupportedPlatform` respectively.
pub fn resolve(query: &VersionInputs, releases: &Vec<Release>, platform: &Platform) -> (r: Result<
    usize,
    EngineError,
>)
    ensures
        r matches Ok(i) ==> selection_ok(*query, releases@, Some(i)) && spec_supported(
            releases@[i as int],
            *platform,
        ),
        (r == Err::<usize, EngineError>(EngineError::VersionNotFound)) <==> selection_ok(
            *query,
            releases@,
            None::<usize>,
        ),
        (r == Err::<usize, EngineError>(EngineError::UnsupportedPlatform)) <==> (exists|i: usize|
            selection_ok(*query, releases@, Some(i)) && !spec_supported(
                releases@[i as int],
                *platform,
            )),
        r is Ok || r == Err::<usize, EngineError>(EngineError::VersionNotFound) || r == Err::<
            usize,
            EngineError,
        >(EngineError::UnsupportedPlatform),
{
    match select(query, releases) {
        None => {
            proof {
                if exists|i: usize|
                    selection_ok(*query, releases@, Some(i)) && !spec_supported(
                        releases@[i as int],
                        *platform,
                    ) {
                    let w = choose|i: usize|
                        selection_ok(*query, releases@, Some(i)) && !spec_supported(
                            releases@[i as int],
                            *platform,
                        );
                    assert(false);
                }
            }
            Err(EngineError::VersionNotFound)
        },
        Some(i) => {
            if releases[i].is_supported_by_current_platform(platform) {
                proof {
                    if exists|j: usize|
                        selection_ok(*query, releases@, Some(j)) && !spec_supported(
                            releases@[j as int],
                            *platform,
                        ) {
                        let w = choose|j: usize|
                            selection_ok(*query, releases@, Some(j)) && !spec_supported(
                                releases@[j as int],
                                *platform,
                            );
                        lemma_selection_unique(*query, releases@, w, i);
                    }
                }
                Ok(i)
            } else {
                proof {
                    assert(selection_ok(*query, releases@, Some(i)) && !spec_supported(
                        releases@[i as int],
                        *platform,
                    ));
                }
                Err(EngineError::UnsupportedPlatform)
            }
        },
    }
}

/// The selector's guarantee pins a single position: two positions that
/// both satisfy it are equal.
proof fn lemma_selection_unique(q: VersionInputs, releases: Seq<Release>, a: usize, b: usize)
    requires
        0 <= a < releases.len(),
        0 <= b < releases.len(),
        selection_ok(q, releases, Some(a)),
        selection_ok(q, releases, Some(b)),
    ensures
        a == b,
{
    if a != b {
        if q is Latest {
            if a < b {
                assert(version_cmp(releases[b as int].version, releases[a as int].version) < 0);
                assert(version_cmp(releases[b as int].version, releases[a as int].version) >= 0);
            } else {
                assert(version_cmp(releases[a as int].version, releases[b as int].version) < 0);
                assert(version_cmp(releases[a as int].version, releases[b as int].version) >= 0);
            }
        } else {
            if a < b {
                assert(spec_matches(q, releases[a as int]));
                assert(!spec_matches(q, releases[a as int]));
            } else {
                assert(spec_matches(q, releases[b as int]));
                assert(!spec_matches(q, releases[b as int]));
            }
        }
    }
}

/// The decided course of one install invocation.
#[derive(Debug, Clone)]
pub enum InstallPlan {
    /// The install pointer already targets this release's cache entry and
    /// no reinstall was forced: nothing is downloaded, nothing changes.
    AlreadyInstalled,
    /// A cache entry of the expected name exists and the cache is not
    /// disabled: relink the pointer to `entry`, with no network traffic.
    LinkFromCache { entry: String },
    /// Download from `url`, unpack into a cache entry named `entry`
    /// (replacing a stale entry of that name), then link the pointer.
    DownloadExtractLink { url: String, entry: String },
}

/// Decides an install invocation from the resolved release and the
/// observed state: the current install-pointer target (if any), the
/// cache entry names, and the `--force` / `--no-cache` flags.
pub fn plan_install(
    release: &Release,
    platform: &Platform,
    installed: Option<&String>,
    cache_entries: &Vec<String>,
    force: bool,
    no_cache: bool,
) -> (r: Result<InstallPlan, EngineError>)
    ensures
        ({
            let expected = spec_archive_string(release.version, *platform);
            let already = !force && (installed matches Some(t) && t@ == expected);
            let cache_hit = !no_cache && (exists|k: int|
                0 <= k < cache_entries@.len() && #[trigger] cache_entries@[k]@ == expected);
            &&& ((r is Err) <==> !spec_supported(*release, *platform))
            &&& (r matches Err(e) ==> e == EngineError::UnsupportedPlatform)
            &&& ((r == Ok::<InstallPlan, EngineError>(InstallPlan::AlreadyInstalled)) <==> (
            spec_supported(*release, *platform) && already))
            &&& ((r matches Ok(p) && p is LinkFromCache) <==> (spec_supported(*release, *platform)
                && !already && cache_hit))
            &&& (r matches Ok(p) ==> (p matches InstallPlan::LinkFromCache { entry } ==> entry@
                == expected))
            &&& ((r matches Ok(p) && p is DownloadExtractLink) <==> (spec_supported(
                *release,
                *platform,
            ) && !already && !cache_hit))
            &&& (r matches Ok(p) ==> (p matches InstallPlan::DownloadExtractLink { url, entry }
                ==> url@ == spec_download_url(release.version, *platform) && entry@ == expected))
        }),
{
    if !release.is_supported_by_current_platform(platform) {
        return Err(EngineError::UnsupportedPlatform);
    }
    let expected = release.get_archive_string(platform);
    let mut already = false;
    if !force {
        match installed {
            Some(target) => {
                if target.eq(&expected) {
                    already = true;
                }
            },
            None => {},
        }
    }
    if already {
        return Ok(InstallPlan::AlreadyInstalled);
    }
    if !no_cache {
        let mut k: usize = 0;
        while k < cache_entries.len()
            invariant
                k <= cache_entries@.len(),
                expected@ == spec_archive_string(release.version, *platform),
                spec_supported(*release, *platform),
                !no_cache,
                !(!force && (installed matches Some(t) && t@ == expected@)),
                forall|j: int| 0 <= j < k ==> #[trigger] cache_entries@[j]@ != expected@,
            decreases cache_entries@.len() - k,
        {
            if cache_entries[k].eq(&expected) {
                return Ok(InstallPlan::LinkFromCache { entry: expected });
            }
            k += 1;
        }
    }
    let url = release.get_download_url(platform);
    Ok(InstallPlan::DownloadExtractLink { url, entry: expected })
}

/// Whether a cache entry survives a clean: everything but the entry the
/// install pointer currently targets is removed.
pub open spec fn spec_kept_on_clean(entry: String, current: Option<Seq<char>>) -> bool {
    match current {
        Some(c) => entry@ == c,
        None => false,
    }
}

/// The "delete this entry" predicate of a clean invocation.
pub open spec fn spec_clean_pred(current: Option<Seq<char>>) -> spec_fn(String) -> bool {
    |e: String| !spec_kept_on_clean(e, current)
}

/// Decides a clean invocation: of the cache entries, returns those to
/// delete — every entry except the install pointer's current target.
pub fn prune_plan(entries: &Vec<String>, current: Option<&String>) -> (r: Vec<String>)
    ensures
        ({
            let cur = match current {
                Some(c) => Some(c@),
                None => None,
            };
            &&& r@ == entries@.filter(spec_clean_pred(cur))
            &&& forall|k: int| 0 <= k < r@.len() ==> !spec_kept_on_clean(#[trigger] r@[k], cur)
            &&& current matches Some(c) ==> forall|k: int| 0 <= k < r@.len() ==> #[trigger] r@[k]@
                != c@
        }),
{
    let ghost cur = match current {
        Some(c) => Some(c@),
        None => None::<Seq<char>>,
    };
    let mut out: Vec<String> = Vec::new();
    let mut i: usize = 0;
    proof {
        reveal(Seq::filter);
        assert(entries@.take(0) =~= Seq::<String>::empty());
    }
    while i < entries.len()
        invariant
            i <= entries@.len(),
            cur == (match current {
                Some(c) => Some(c@),
                None => None::<Seq<char>>,
            }),
            out@ == entries@.take(i as int).filter(spec_clean_pred(cur)),
        decreases entries@.len() - i,
    {
        let keep = match current {
            Some(c) => !entries[i].eq(c),
            None => true,
        };
        proof {
            reveal(Seq::filter);
            assert(entries@.take(i + 1).drop_last() =~= entries@.take(i as int));
            assert(entries@.take(i + 1).last() == entries@[i as int]);
        }
        if keep {
            out.push(entries[i].clone());
        }
        i += 1;
    }
    proof {
        assert(entries@.take(entries@.len() as int) =~= entries@);
        assert forall|k: int| 0 <= k < out@.len() implies !spec_kept_on_clean(
            #[trigger] out@[k],
            cur,
        ) by {
            entries@.lemma_filter_pred(spec_clean_pred(cur), k);
        }
    }
    out
}

/// The states of one install invocation. Each non-terminal state names
/// the outside step the application performs next; the outcome comes
/// back as an [`InstallEvent`] and drives [`install_step`].
#[derive(Debug)]
pub enum InstallState {
    /// Nothing has happened yet.
    Idle,
    /// The release index is being fetched.
    Resolving,
    /// A supported release is resolved; the install pointer's target and
    /// the cache listing are to be observed. `entry` is the release's
    /// cache-entry name, `url` its download URL.
    CacheCheck { url: String, entry: String },
    /// The archive is being downloaded from `url`.
    Downloading { url: String, entry: String },
    /// The downloaded archive is being unpacked into the cache entry.
    Extracting { entry: String },
    /// The install pointer is being replaced with a link to the entry.
    Linking { entry: String },
    /// The pointer now targets the entry.
    Linked,
    /// The invocation is complete.
    Done,
    /// The invocation failed; no step is retried.
    Failed(EngineError),
}

impl Clone for InstallState {
    fn clone(&self) -> (res: Self)
        ensures
            res == *self,
    {
        match self {
            InstallState::Idle => InstallState::Idle,
            InstallState::Resolving => InstallState::Resolving,
            InstallState::CacheCheck { url, entry } => InstallState::CacheCheck {
                url: url.clone(),
                entry: entry.clone(),
            },
            InstallState::Downloading { url, entry } => InstallState::Downloading {
                url: url.clone(),
                entry: entry.clone(),
            },
            InstallState::Extracting { entry } => InstallState::Extracting {
                entry: entry.clone(),
            },
            InstallState::Linking { entry } => InstallState::Linking { entry: entry.clone() },
            InstallState::Linked => InstallState::Linked,
            InstallState::Done => InstallState::Done,
            InstallState::Failed(e) => InstallState::Failed(*e),
        }
    }
}

/// What the application reports back to the install engine: the outcome
/// of the outside step the current state asked for.
#[derive(Debug)]
pub enum InstallEvent {
    /// Begin the invocation.
    Start,
    /// The index fetch finished.
    IndexFetched(Result<Vec<Release>, EngineError>),
    /// The install pointer's target and the cache listing were read.
    StateObserved { installed: Option<String>, cache_entries: Vec<String> },
    /// The download finished.
    Downloaded(Result<(), EngineError>),
    /// The unpack finished.
    Extracted(Result<(), EngineError>),
    /// The pointer replacement finished.
    PointerLinked(Result<(), EngineError>),
    /// Acknowledge the new pointer and finish.
    Finish,
}

/// What the resolution step leaves behind: either the failure the
/// resolver reports, or a `CacheCheck` state carrying exactly the
/// resolved release's entry name and download URL.
pub open spec fn spec_resolved_next(
    q: VersionInputs,
    p: Platform,
    releases: Seq<Release>,
    next: InstallState,
) -> bool {
    &&& ((next == InstallState::Failed(EngineError::VersionNotFound)) <==> selection_ok(
        q,
        releases,
        None::<usize>,
    ))
    &&& (next matches InstallState::Failed(e) ==> e == EngineError::VersionNotFound || e
        == EngineError::UnsupportedPlatform)
    &&& ((next is CacheCheck) <==> (exists|i: usize|
        selection_ok(q, releases, Some(i)) && spec_supported(releases[i as int], p)))
    &&& (next matches InstallState::CacheCheck { url, entry } ==> exists|i: usize|
        selection_ok(q, releases, Some(i)) && spec_supported(releases[i as int], p) && url@
            == spec_download_url(releases[i as int].version, p) && entry@ == spec_archive_string(
            releases[i as int].version,
            p,
        ))
    &&& (next is CacheCheck || next is Failed)
}

/// One step of the install state machine, from the current state and
/// the reported event to the next state. The decisions are exactly the
/// planner's; the state order enforces that a download completes before
/// extraction begins, and extraction before linking. An event that the
/// current state did not ask for changes nothing.
pub fn install_step(
    query: &VersionInputs,
    platform: &Platform,
    force: bool,
    no_cache: bool,
    state: &InstallState,
    event: InstallEvent,
) -> (next: InstallState)
    ensures
        state is Idle ==> (match event {
            InstallEvent::Start => next is Resolving,
            _ => next == *state,
        }),
        state is Resolving ==> (match event {
            InstallEvent::IndexFetched(res) => match res {
                Ok(releases) => spec_resolved_next(*query, *platform, releases@, next),
                Err(e) => next == InstallState::Failed(e),
            },
            _ => next == *state,
        }),
        (state matches InstallState::CacheCheck { url, entry } ==> (match event {
            InstallEvent::StateObserved { installed, cache_entries } => ({
                let already = !force && (installed matches Some(t) && t@ == entry@);
                let cache_hit = !no_cache && (exists|k: int|
                    0 <= k < cache_entries@.len() && #[trigger] cache_entries@[k]@ == entry@);
                &&& ((next == InstallState::Done) <==> already)
                &&& ((next is Linking) <==> (!already && cache_hit))
                &&& ((next is Downloading) <==> (!already && !cache_hit))
                &&& (next matches InstallState::Linking { entry: e } ==> e@ == entry@)
                &&& (next matches InstallState::Downloading { url: u, entry: e } ==> u@ == url@
                    && e@ == entry@)
            }),
            _ => next == *state,
        })),
        (state matches InstallState::Downloading { url, entry } ==> (match event {
            InstallEvent::Downloaded(res) => match res {
                Ok(_) => next == (InstallState::Extracting { entry: *entry }),
                Err(e) => next == InstallState::Failed(e),
            },
            _ => next == *state,
        })),
        (state matches InstallState::Extracting { entry } ==> (match event {
            InstallEvent::Extracted(res) => match res {
                Ok(_) => next == (InstallState::Linking { entry: *entry }),
                Err(e) => next == InstallState::Failed(e),
            },
            _ => next == *state,
        })),
        (state matches InstallState::Linking { entry } ==> (match event {
            InstallEvent::PointerLinked(res) => match res {
                Ok(_) => next is Linked,
                Err(e) => next == InstallState::Failed(e),
            },
            _ => next == *state,
        })),
        state is Linked ==> (match event {
            InstallEvent::Finish => next is Done,
            _ => next == *state,
        }),
        state is Done ==> next == *state,
        state is Failed ==> next == *state,
        next is Extracting ==> (state is Downloading || state is Extracting),
        next is Linking ==> (state is CacheCheck || state is Extracting || state is Linking),
        next is Linked ==> (state is Linking || state is Linked),
        next is Done ==> (state is CacheCheck || state is Linked || state is Done),
{
    match state {
        InstallState::Idle => match event {
            InstallEvent::Start => InstallState::Resolving,
            _ => state.clone(),
        },
        InstallState::Resolving => match event {
            InstallEvent::IndexFetched(res) => match res {
                Ok(releases) => resolved_next(query, platform, &releases),
                Err(e) => InstallState::Failed(e),
            },
            _ => state.clone(),
        },
        InstallState::CacheCheck { url, entry } => match event {
            InstallEvent::StateObserved { installed, cache_entries } => cache_next(
                url,
                entry,
                &installed,
                &cache_entries,
                force,
                no_cache,
            ),
            _ => state.clone(),
        },
        InstallState::Downloading { url: _, entry } => match event {
            InstallEvent::Downloaded(res) => match res {
                Ok(_) => InstallState::Extracting { entry: entry.clone() },
                Err(e) => InstallState::Failed(e),
            },
            _ => state.clone(),
        },
        InstallState::Extracting { entry } => match event {
            InstallEvent::Extracted(res) => match res {
                Ok(_) => InstallState::Linking { entry: entry.clone() },
                Err(e) => InstallState::Failed(e),
            },
            _ => state.clone(),
        },
        InstallState::Linking { entry: _ } => match event {
            InstallEvent::PointerLinked(res) => match res {
                Ok(_) => InstallState::Linked,
                Err(e) => InstallState::Failed(e),
            },
            _ => state.clone(),
        },
        InstallState::Linked => match event {
            InstallEvent::Finish => InstallState::Done,
            _ => state.clone(),
        },
        InstallState::Done => state.clone(),
        InstallState::Failed(_) => state.clone(),
    }
}

/// The resolution step: resolves the query against the fetched index
/// and either fails or moves on to the cache check, carrying the
/// release's entry name and download URL.
fn resolved_next(query: &VersionInputs, platform: &Platform, releases: &Vec<Release>) -> (next:
    InstallState)
    ensures
        spec_resolved_next(*query, *platform, releases@, next),
{
    match resolve(query, releases, platform) {
        Ok(i) => {
            let release = &releases[i];
            InstallState::CacheCheck {
                url: release.get_download_url(platform),
                entry: release.get_archive_string(platform),
            }
        },
        Err(e) => {
            proof {
                if exists|j: usize|
                    selection_ok(*query, releases@, Some(j)) && spec_supported(
                        releases@[j as int],
                        *platform,
                    ) {
                    let j = choose|j: usize|
                        selection_ok(*query, releases@, Some(j)) && spec_supported(
                            releases@[j as int],
                            *platform,
                        );
                    if e == EngineError::UnsupportedPlatform {
                        let w = choose|w: usize|
                            selection_ok(*query, releases@, Some(w)) && !spec_supported(
                                releases@[w as int],
                                *platform,
                            );
                        lemma_selection_unique(*query, releases@, w, j);
                    }
                }
            }
            InstallState::Failed(e)
        },
    }
}

/// The cache check: with the pointer target and the cache listing
/// observed, decide between "already installed", a relink from cache,
/// and a download.
fn cache_next(
    url: &String,
    entry: &String,
    installed: &Option<String>,
    cache_entries: &Vec<String>,
    force: bool,
    no_cache: bool,
) -> (next: InstallState)
    ensures
        ({
            let already = !force && (installed matches Some(t) && t@ == entry@);
            let cache_hit = !no_cache && (exists|k: int|
                0 <= k < cache_entries@.len() && #[trigger] cache_entries@[k]@ == entry@);
            &&& ((next == InstallState::Done) <==> already)
            &&& ((next is Linking) <==> (!already && cache_hit))
            &&& ((next is Downloading) <==> (!already && !cache_hit))
            &&& (next matches InstallState::Linking { entry: e } ==> e@ == entry@)
            &&& (next matches InstallState::Downloading { url: u, entry: e } ==> u@ == url@ && e@
                == entry@)
        }),
{
    let mut already = false;
    if !force {
        match installed {
            Some(target) => {
                if target.eq(entry) {
                    already = true;
                }
            },
            None => {},
        }
    }
    if already {
        return InstallState::Done;
    }
    if !no_cache {
        let mut k: usize = 0;
        while k < cache_entries.len()
            invariant
                k <= cache_entries@.len(),
                !no_cache,
                !(!force && (installed matches Some(t) && t@ == entry@)),
                forall|j: int| 0 <= j < k ==> #[trigger] cache_entries@[j]@ != entry@,
            decreases cache_entries@.len() - k,
        {
            if cache_entries[k].eq(entry) {
                return InstallState::Linking { entry: entry.clone() };
            }
            k += 1;
        }
    }
    InstallState::Downloading { url: url.clone(), entry: entry.clone() }
}

/// What an uninstall invocation found.
#[derive(Debug, Clone, PartialEq, Eq, Structural)]
pub enum UninstallOutcome {
    /// The install pointer existed; its target tree is to be removed.
    Removed,
    /// Nothing was installed; nothing is to be deleted.
    NotInstalled,
}

/// Decides an uninstall invocation from whether the install pointer
/// exists: without a pointer nothing is deleted and the outcome is
/// `NotInstalled`.
pub fn plan_uninstall(pointer_exists: bool) -> (r: UninstallOutcome)
    ensures
        (r == UninstallOutcome::NotInstalled) <==> !pointer_exists,
        (r == UninstallOutcome::Removed) <==> pointer_exists,
{
    if pointer_exists {
        UninstallOutcome::Removed
    } else {
        UninstallOutcome::NotInstalled
    }
}

} // verus!
