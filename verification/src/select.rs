//! The version selector: resolving a version query against the release
//! index, preserving the index's own order for textual queries and full
//! semver precedence for `latest`.

use vstd::prelude::*;

use crate::lts::Lts;
use crate::release::{spec_supported, Release};
use crate::strutil::{ascii_to_lowercase, lower_seq, seq_starts_with, str_eq, str_starts_with};
use crate::version::{
    lemma_version_cmp_antisym, lemma_version_ge_trans, version_chars, version_cmp, version_lt,
    version_lt_exec, version_to_string,
};

verus! {

/// A version query: a textual version (prefix) match, the highest
/// version, or a long-term-support release, optionally by code name.
#[derive(Debug, Clone)]
pub enum VersionInputs {
    VersionString(String),
    Latest,
    Lts(Option<String>),
}

/// Whether a release satisfies a query, in the sense of the textual
/// filters: a `VersionString` is a prefix of the rendered version, an
/// `Lts` query asks for a code name, matched case-insensitively in the
/// release's name when one is given. `Latest` filters nothing; it is
/// resolved by precedence instead.
pub open spec fn spec_matches(q: VersionInputs, r: Release) -> bool {
    match q {
        VersionInputs::VersionString(v) => seq_starts_with(version_chars(r.version), v@),
        VersionInputs::Latest => true,
        VersionInputs::Lts(None) => r.lts is CodeName,
        VersionInputs::Lts(Some(c)) => match r.lts {
            Lts::CodeName(n) => lower_seq(n@) == c@,
            Lts::False => false,
        },
    }
}

/// What `node_semver::Range::parse` accepts: a function of the
/// characters alone.
pub uninterp spec fn semver_range_ok(s: Seq<char>) -> bool;

/// Relies on `node_semver::Range`'s parser, to recognise whether an
/// argument is version-like at all; only acceptance is used, so only a
/// name for it is stated.
#[verifier::external_body]
fn is_semver_range(s: &str) -> (r: bool)
    ensures
        r == semver_range_ok(s@),
{
    s.parse::<node_semver::Range>().is_ok()
}

impl VersionInputs {
    /// Reads a version query from a command-line word. The word is ASCII
    /// lower-cased first; `latest` and `lts` are keywords; a version-like
    /// word (with one leading `v` stripped) queries by version string;
    /// anything else is taken as an LTS code name.
    pub fn parse(s: &str) -> (r: VersionInputs)
        ensures
            ({
                let low = lower_seq(s@);
                let v_version = low.len() > 0 && low[0] == 'v' && semver_range_ok(low.skip(1));
                match r {
                    VersionInputs::Latest => low == "latest"@,
                    VersionInputs::Lts(None) => low == "lts"@,
                    VersionInputs::VersionString(v) => low != "latest"@ && low != "lts"@ && ((
                    v_version && v@ == low.skip(1)) || (!v_version && semver_range_ok(low) && v@
                        == low)),
                    VersionInputs::Lts(Some(c)) => low != "latest"@ && low != "lts"@ && !v_version
                        && !semver_range_ok(low) && c@ == low,
                }
            }),
    {
        let low = ascii_to_lowercase(s);
        if str_eq(low.as_str(), "latest") {
            return VersionInputs::Latest;
        }
        if str_eq(low.as_str(), "lts") {
            return VersionInputs::Lts(None);
        }
        let n = low.as_str().unicode_len();
        if n > 0 && low.as_str().get_char(0) == 'v' {
            let tail = low.as_str().substring_char(1, n);
            proof {
                assert(tail@ =~= lower_seq(s@).skip(1));
            }
            if is_semver_range(tail) {
                return VersionInputs::VersionString(tail.to_owned());
            }
        }
        if is_semver_range(low.as_str()) {
            return VersionInputs::VersionString(low);
        }
        VersionInputs::Lts(Some(low))
    }
}

impl VersionInputs {
    /// The text shown for a query: the version string, a keyword, or the
    /// code name.
    pub fn display_string(&self) -> (r: String)
        ensures
            match self {
                VersionInputs::VersionString(v) => r@ == v@,
                VersionInputs::Latest => r@ == "latest"@,
                VersionInputs::Lts(None) => r@ == "lts"@,
                VersionInputs::Lts(Some(c)) => r@ == c@,
            },
    {
        let mut out = String::new();
        match self {
            VersionInputs::VersionString(v) => out.append(v.as_str()),
            VersionInputs::Latest => out.append("latest"),
            VersionInputs::Lts(None) => out.append("lts"),
            VersionInputs::Lts(Some(c)) => out.append(c.as_str()),
        }
        out
    }
}

/// Whether a release satisfies a query.
pub fn matches_query(query: &VersionInputs, release: &Release) -> (r: bool)
    ensures
        r == spec_matches(*query, *release),
{
    match query {
        VersionInputs::VersionString(v) => {
            let rendered = version_to_string(&release.version);
            str_starts_with(rendered.as_str(), v.as_str())
        },
        VersionInputs::Latest => true,
        VersionInputs::Lts(None) => release.lts.is_code_name(),
        VersionInputs::Lts(Some(c)) => match &release.lts {
            Lts::CodeName(n) => {
                let low = ascii_to_lowercase(n.as_str());
                low.eq(c)
            },
            Lts::False => false,
        },
    }
}

/// What `select` guarantees for a `Latest` query: some release is picked
/// exactly when the index is non-empty; the pick is not below any entry
/// in precedence, and every later entry is strictly below it (so among
/// equals the last one is picked).
pub open spec fn latest_selection_ok(releases: Seq<Release>, r: Option<usize>) -> bool {
    &&& ((r is None) <==> releases.len() == 0)
    &&& match r {
        Some(i) => {
            &&& 0 <= i < releases.len()
            &&& forall|j: int|
                0 <= j < releases.len() ==> version_cmp(
                    releases[i as int].version,
                    #[trigger] releases[j].version,
                ) >= 0
            &&& forall|j: int|
                i < j < releases.len() ==> version_cmp(
                    #[trigger] releases[j].version,
                    releases[i as int].version,
                ) < 0
        },
        None => true,
    }
}

/// What `select` guarantees for a textual query: the pick is the first
/// entry, in index order, that satisfies the query, and `None` is
/// returned exactly when no entry does.
pub open spec fn first_match_selection_ok(
    q: VersionInputs,
    releases: Seq<Release>,
    r: Option<usize>,
) -> bool {
    &&& ((r is None) <==> (forall|j: int|
        0 <= j < releases.len() ==> !spec_matches(q, #[trigger] releases[j])))
    &&& match r {
        Some(i) => {
            &&& 0 <= i < releases.len()
            &&& spec_matches(q, releases[i as int])
            &&& forall|j: int| 0 <= j < i ==> !spec_matches(q, #[trigger] releases[j])
        },
        None => true,
    }
}

/// Resolves a query against the index, returning the position of the
/// selected release.
///
/// Textual queries return the first match in index order — deliberately
/// not the highest matching version. `Latest` returns the release with
/// the highest semver precedence; among equals, the last.
pub fn select(query: &VersionInputs, releases: &Vec<Release>) -> (r: Option<usize>)
    ensures
        *query is Latest ==> latest_selection_ok(releases@, r),
        !(*query is Latest) ==> first_match_selection_ok(*query, releases@, r),
{
    match query {
        VersionInputs::Latest => {
            if releases.len() == 0 {
                return None;
            }
            proof {
                lemma_version_cmp_antisym(releases@[0].version, releases@[0].version);
            }
            let mut best: usize = 0;
            let mut i: usize = 1;
            while i < releases.len()
                invariant
                    0 <= best < i <= releases@.len(),
                    forall|j: int|
                        0 <= j < i ==> version_cmp(
                            releases@[best as int].version,
                            #[trigger] releases@[j].version,
                        ) >= 0,
                    forall|j: int|
                        best < j < i ==> version_cmp(
                            #[trigger] releases@[j].version,
                            releases@[best as int].version,
                        ) < 0,
                decreases releases@.len() - i,
            {
                let ghost vb = releases@[best as int].version;
                let ghost vi = releases@[i as int].version;
                if !version_lt_exec(&releases[i].version, &releases[best].version) {
                    proof {
                        lemma_version_cmp_antisym(vi, vb);
                        assert forall|j: int| 0 <= j <= i implies version_cmp(
                            vi,
                            #[trigger] releases@[j].version,
                        ) >= 0 by {
                            if j < i {
                                lemma_version_ge_trans(vi, vb, releases@[j].version);
                            } else {
                                lemma_version_cmp_antisym(vi, vi);
                            }
                        }
                    }
                    best = i;
                } else {
                    proof {
                        lemma_version_cmp_antisym(vi, vb);
                    }
                }
                i += 1;
            }
            Some(best)
        },
        VersionInputs::VersionString(_) => select_first_match(query, releases),
        VersionInputs::Lts(_) => select_first_match(query, releases),
    }
}

/// The first release, in index order, that satisfies the query.
fn select_first_match(query: &VersionInputs, releases: &Vec<Release>) -> (r: Option<usize>)
    ensures
        first_match_selection_ok(*query, releases@, r),
{
    let mut i: usize = 0;
    while i < releases.len()
        invariant
            i <= releases@.len(),
            forall|j: int| 0 <= j < i ==> !spec_matches(*query, #[trigger] releases@[j]),
        decreases releases@.len() - i,
    {
        if matches_query(query, &releases[i]) {
            return Some(i);
        }
        i += 1;
    }
    None
}

/// Positions of the releases that are supported on `platform` and
/// satisfy the query, in index order.
pub fn filter_releases(query: &VersionInputs, releases: &Vec<Release>, platform: &crate::platform::Platform) -> (r: Vec<usize>)
    ensures
        forall|k: int|
            0 <= k < r@.len() ==> {
                &&& 0 <= #[trigger] r@[k] < releases@.len()
                &&& spec_supported(releases@[r@[k] as int], *platform)
                &&& spec_matches(*query, releases@[r@[k] as int])
            },
        forall|k1: int, k2: int| 0 <= k1 < k2 < r@.len() ==> r@[k1] < r@[k2],
        forall|j: int|
            0 <= j < releases@.len() && spec_supported(#[trigger] releases@[j], *platform)
                && spec_matches(*query, releases@[j]) ==> exists|k: int|
                0 <= k < r@.len() && r@[k] == j,
{
    let mut out: Vec<usize> = Vec::new();
    let mut i: usize = 0;
    while i < releases.len()
        invariant
            i <= releases@.len(),
            forall|k: int|
                0 <= k < out@.len() ==> {
                    &&& 0 <= #[trigger] out@[k] < i
                    &&& spec_supported(releases@[out@[k] as int], *platform)
                    &&& spec_matches(*query, releases@[out@[k] as int])
                },
            forall|k1: int, k2: int| 0 <= k1 < k2 < out@.len() ==> out@[k1] < out@[k2],
            forall|j: int|
                0 <= j < i && spec_supported(#[trigger] releases@[j], *platform) && spec_matches(
                    *query,
                    releases@[j],
                ) ==> exists|k: int| 0 <= k < out@.len() && out@[k] == j,
        decreases releases@.len() - i,
    {
        let keep = releases[i].is_supported_by_current_platform(platform) && matches_query(
            query,
            &releases[i],
        );
        if keep {
            let ghost old_out = out@;
            out.push(i);
            proof {
                assert(out@[out@.len() - 1] == i);
                assert forall|j: int|
                    0 <= j < i + 1 && spec_supported(#[trigger] releases@[j], *platform)
                        && spec_matches(*query, releases@[j]) implies exists|k: int|
                    0 <= k < out@.len() && out@[k] == j by {
                    if j < i {
                        let k0 = choose|k: int| 0 <= k < old_out.len() && old_out[k] == j;
                        assert(out@[k0] == j);
                    } else {
                        assert(out@[out@.len() - 1] == j);
                    }
                }
            }
        }
        i += 1;
    }
    out
}

/// If one release outranks every other in semver precedence, `latest`
/// resolution picks exactly that release: from the selector's guarantee
/// that its pick is not below any entry, the pick must be the greatest.
pub proof fn lemma_latest_selects_greatest(releases: Seq<Release>, sel: int, top: int)
    requires
        0 <= sel < releases.len(),
        0 <= top < releases.len(),
        forall|j: int|
            0 <= j < releases.len() ==> version_cmp(
                releases[sel].version,
                #[trigger] releases[j].version,
            ) >= 0,
        forall|j: int|
            0 <= j < releases.len() && j != top ==> version_lt(
                #[trigger] releases[j].version,
                releases[top].version,
            ),
    ensures
        sel == top,
{
    if sel != top {
        assert(version_lt(releases[sel].version, releases[top].version));
        assert(version_cmp(releases[sel].version, releases[top].version) >= 0);
    }
}

/// An `Lts` query can only ever match a release whose marker carries a
/// code name; a plain release is never selected for it.
pub proof fn lemma_lts_query_matches_only_code_names(q: VersionInputs, r: Release)
    requires
        q is Lts,
        spec_matches(q, r),
    ensures
        r.lts is CodeName,
{
}

/// Matching an LTS query is insensitive to the letter case of the
/// release's code name: two releases whose code names agree up to ASCII
/// case satisfy exactly the same LTS queries.
pub proof fn lemma_lts_match_case_insensitive(
    q: VersionInputs,
    r1: Release,
    r2: Release,
    n1: String,
    n2: String,
)
    requires
        q is Lts,
        r1.lts == Lts::CodeName(n1),
        r2.lts == Lts::CodeName(n2),
        lower_seq(n1@) == lower_seq(n2@),
    ensures
        spec_matches(q, r1) == spec_matches(q, r2),
{
}

} // verus!
