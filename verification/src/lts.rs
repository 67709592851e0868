//! The long-term-support marker attached to each release index entry.

use vstd::prelude::*;

verus! {

/// Whether a release line is designated long-term support.
///
/// The release index marks each entry either with the code name of its
/// support line (for example "hydrogen") or with `false`.
#[derive(Debug, Clone)]
pub enum Lts {
    CodeName(String),
    False,
}

impl Lts {
    /// True exactly when the marker carries a code name.
    pub fn is_code_name(&self) -> (r: bool)
        ensures
            r == self is CodeName,
    {
        matches!(self, Lts::CodeName(_))
    }

    /// The text shown for the marker: the code name, or `false`.
    pub fn display_string(&self) -> (r: String)
        ensures
            match self {
                Lts::CodeName(n) => r@ == n@,
                Lts::False => r@ == "false"@,
            },
    {
        match self {
            Lts::CodeName(n) => n.clone(),
            Lts::False => {
                let mut out = String::new();
                out.append("false");
                out
            },
        }
    }
}

} // verus!
