//! Cache naming: filtering directory listings down to cache entries, and
//! the randomly-suffixed scratch folder used while unpacking.

use vstd::prelude::*;

use crate::strutil::seq_starts_with;

verus! {

/// An ASCII letter or digit.
pub open spec fn is_ascii_alnum(c: char) -> bool {
    ('0' <= c && c <= '9') || ('a' <= c && c <= 'z') || ('A' <= c && c <= 'Z')
}

/// Relies on `fastrand::alphanumeric`: the generated character is drawn
/// from `a`-`z`, `A`-`Z` and `0`-`9`. Which one comes back is chance, so
/// only membership in that set is stated.
#[verifier::external_body]
fn random_alphanumeric_str() -> (r: String)
    ensures
        r@.len() == 1,
        is_ascii_alnum(r@[0]),
{
    String::from(fastrand::alphanumeric())
}

/// A random string of ASCII letters and digits of the given length.
pub fn generate_string(length: usize) -> (r: String)
    ensures
        r@.len() == length,
        forall|i: int| 0 <= i < length ==> is_ascii_alnum(#[trigger] r@[i]),
{
    let mut out = String::new();
    let mut i: usize = 0;
    while i < length
        invariant
            i <= length,
            out@.len() == i,
            forall|j: int| 0 <= j < i ==> is_ascii_alnum(#[trigger] out@[j]),
        decreases length - i,
    {
        let c = random_alphanumeric_str();
        out.append(c.as_str());
        i += 1;
    }
    out
}

/// The "keep names with this prefix" predicate of a listing filter.
pub open spec fn spec_prefix_pred(prefix: Seq<char>) -> spec_fn(String) -> bool {
    |n: String| seq_starts_with(n@, prefix)
}

/// The names that start with `prefix`, in their original order.
pub fn filter_by_prefix(names: &Vec<String>, prefix: &str) -> (r: Vec<String>)
    ensures
        r@ == names@.filter(spec_prefix_pred(prefix@)),
        forall|k: int| 0 <= k < r@.len() ==> seq_starts_with(#[trigger] r@[k]@, prefix@),
{
    let mut out: Vec<String> = Vec::new();
    let mut i: usize = 0;
    proof {
        reveal(Seq::filter);
        assert(names@.take(0) =~= Seq::<String>::empty());
    }
    while i < names.len()
        invariant
            i <= names@.len(),
            out@ == names@.take(i as int).filter(spec_prefix_pred(prefix@)),
        decreases names@.len() - i,
    {
        let keep = crate::strutil::str_starts_with(names[i].as_str(), prefix);
        proof {
            reveal(Seq::filter);
            assert(names@.take(i + 1).drop_last() =~= names@.take(i as int));
            assert(names@.take(i + 1).last() == names@[i as int]);
        }
        if keep {
            out.push(names[i].clone());
        }
        i += 1;
    }
    proof {
        assert(names@.take(names@.len() as int) =~= names@);
        assert forall|k: int| 0 <= k < out@.len() implies seq_starts_with(
            #[trigger] out@[k]@,
            prefix@,
        ) by {
            names@.lemma_filter_pred(spec_prefix_pred(prefix@), k);
        }
    }
    out
}

/// Of a cache-root directory listing, the names that are release cache
/// entries: those starting with `node-`.
pub fn find_cached_node_downloads(names: &Vec<String>) -> (r: Vec<String>)
    ensures
        r@ == names@.filter(spec_prefix_pred("node-"@)),
{
    filter_by_prefix(names, "node-")
}

/// A scratch folder under the system temporary directory, named
/// `nue-<uid>` with a random eight-character suffix.
#[derive(Debug, Clone)]
pub struct Folder {
    pub system_temp_path: String,
    pub prefix: String,
    pub uid: String,
}

impl Folder {
    /// Draws a fresh random suffix for a scratch folder under the given
    /// temporary directory. Creating the directory itself is the
    /// caller's task, at the returned full path.
    pub fn new(system_temp_path: String) -> (r: Folder)
        ensures
            r.system_temp_path@ == system_temp_path@,
            r.prefix@ == "nue"@,
            r.uid@.len() == 8,
            forall|i: int| 0 <= i < 8 ==> is_ascii_alnum(#[trigger] r.uid@[i]),
    {
        let uid = generate_string(8);
        let mut prefix = String::new();
        prefix.append("nue");
        Folder { system_temp_path, prefix, uid }
    }

    /// The folder's full path: `<temp>/nue-<uid>`.
    pub fn get_full_path(&self) -> (r: String)
        ensures
            r@ == self.system_temp_path@ + "/nue-"@ + self.uid@,
    {
        let mut out = self.system_temp_path.clone();
        out.append("/nue-");
        out.append(self.uid.as_str());
        out
    }

    /// Of a temporary-directory listing, the names belonging to this
    /// folder family: those starting with the folder prefix.
    pub fn find_caches(&self, names: &Vec<String>) -> (r: Vec<String>)
        ensures
            r@ == names@.filter(spec_prefix_pred(self.prefix@)),
    {
        filter_by_prefix(names, self.prefix.as_str())
    }
}

} // verus!
