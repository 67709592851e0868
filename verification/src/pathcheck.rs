//! Environment checks: whether the runtime's binary directory is already
//! on `PATH`, and which shell profile files an env script belongs in.

use vstd::prelude::*;

use crate::platform::Platform;
use crate::strutil::{
    find_char, find_char_from, lemma_find_char_from_props, lemma_find_char_from_shift, str_eq,
};

verus! {

/// `s` split at every occurrence of `sep`; separators are dropped, empty
/// pieces are kept.
pub open spec fn split_on(s: Seq<char>, sep: char) -> Seq<Seq<char>>
    decreases s.len() via split_on_dec
{
    let j = find_char_from(s, sep, 0);
    if j == s.len() {
        seq![s]
    } else {
        seq![s.take(j)] + split_on(s.skip(j + 1), sep)
    }
}

#[via_fn]
proof fn split_on_dec(s: Seq<char>, sep: char) {
    lemma_find_char_from_props(s, sep, 0);
}

/// Splits `s[start..]` at every occurrence of `sep`.
fn split_string_from(s: &str, sep: char, start: usize) -> (r: Vec<String>)
    requires
        start <= s@.len(),
    ensures
        r@.map_values(|x: String| x@) == split_on(s@.skip(start as int), sep),
        r@.len() > 0,
    decreases s@.len() - start,
{
    let n = s.unicode_len();
    let j = find_char(s, sep, start);
    proof {
        lemma_find_char_from_shift(s@, sep, start as int);
    }
    if j == n {
        let piece = s.substring_char(start, n);
        let mut out: Vec<String> = Vec::new();
        out.push(piece.to_owned());
        proof {
            assert(s@.subrange(start as int, n as int) =~= s@.skip(start as int));
            assert(out@.map_values(|x: String| x@) =~= seq![s@.skip(start as int)]);
        }
        out
    } else {
        let piece = s.substring_char(start, j);
        let rest = split_string_from(s, sep, j + 1);
        let ghost rest_view = rest@;
        let mut out = rest;
        out.insert(0, piece.to_owned());
        proof {
            assert(s@.skip(start as int).take(j - start) =~= s@.subrange(start as int, j as int));
            assert(s@.skip(start as int).skip(j - start + 1) =~= s@.skip(j + 1));
            assert(out@.map_values(|x: String| x@) =~= seq![s@.skip(start as int).take(j - start)]
                + rest_view.map_values(|x: String| x@));
        }
        out
    }
}

/// Splits `s` at every occurrence of `sep`.
pub fn split_string(s: &str, sep: char) -> (r: Vec<String>)
    ensures
        r@.map_values(|x: String| x@) == split_on(s@, sep),
        r@.len() > 0,
{
    proof {
        assert(s@.skip(0) =~= s@);
    }
    split_string_from(s, sep, 0)
}

/// The non-empty pieces of a split, in order: what remains after
/// duplicated or trailing separators are ignored.
pub open spec fn nonempty_only(segs: Seq<Seq<char>>) -> Seq<Seq<char>>
    decreases segs.len(),
{
    if segs.len() == 0 {
        Seq::<Seq<char>>::empty()
    } else if segs.last().len() > 0 {
        nonempty_only(segs.drop_last()) + seq![segs.last()]
    } else {
        nonempty_only(segs.drop_last())
    }
}

/// Keeps the non-empty strings, in order.
fn nonempty_segments(parts: &Vec<String>) -> (r: Vec<String>)
    ensures
        r@.map_values(|x: String| x@) == nonempty_only(parts@.map_values(|x: String| x@)),
{
    let ghost f = |x: String| x@;
    let mut out: Vec<String> = Vec::new();
    let mut i: usize = 0;
    proof {
        assert(parts@.take(0).map_values(f) =~= Seq::<Seq<char>>::empty());
    }
    while i < parts.len()
        invariant
            i <= parts@.len(),
            f == (|x: String| x@),
            out@.map_values(f) == nonempty_only(parts@.take(i as int).map_values(f)),
        decreases parts@.len() - i,
    {
        proof {
            assert(parts@.take(i + 1).map_values(f).drop_last() =~= parts@.take(
                i as int,
            ).map_values(f));
            assert(parts@.take(i + 1).map_values(f).last() == parts@[i as int]@);
        }
        if !parts[i].as_str().is_empty() {
            let ghost old_out = out@;
            out.push(parts[i].clone());
            proof {
                assert(out@.map_values(f) =~= old_out.map_values(f) + seq![parts@[i as int]@]);
            }
        }
        i += 1;
    }
    proof {
        assert(parts@.take(parts@.len() as int) =~= parts@);
    }
    out
}

/// The component suffix that marks the runtime's binary directory.
pub open spec fn spec_node_suffix(p: Platform) -> Seq<Seq<char>> {
    if p is Windows {
        seq!["nue"@, "node"@]
    } else {
        seq![".nue"@, "node"@, "bin"@]
    }
}

/// The character separating entries of the `PATH` variable.
pub open spec fn spec_path_list_sep(p: Platform) -> char {
    if p is Windows {
        ';'
    } else {
        ':'
    }
}

/// The character separating the components of one path.
pub open spec fn spec_component_sep(p: Platform) -> char {
    if p is Windows {
        '\\'
    } else {
        '/'
    }
}

/// A `PATH` entry exposes the runtime: its trailing path components are
/// the runtime's binary directory suffix.
pub open spec fn spec_entry_matches(e: Seq<char>, p: Platform) -> bool {
    let segs = nonempty_only(split_on(e, spec_component_sep(p)));
    let suf = spec_node_suffix(p);
    segs.len() >= suf.len() && segs.subrange(segs.len() - suf.len(), segs.len() as int) == suf
}

/// Some entry of the `PATH` variable exposes the runtime.
pub open spec fn spec_node_in_path(path_var: Seq<char>, p: Platform) -> bool {
    exists|k: int|
        0 <= k < split_on(path_var, spec_path_list_sep(p)).len() && spec_entry_matches(
            #[trigger] split_on(path_var, spec_path_list_sep(p))[k],
            p,
        )
}

/// Whether one `PATH` entry ends in the runtime's binary directory.
fn entry_matches(entry: &str, platform: &Platform) -> (r: bool)
    ensures
        r == spec_entry_matches(entry@, *platform),
{
    let windows = matches!(platform, Platform::Windows(_));
    let sep: char = if windows {
        '\\'
    } else {
        '/'
    };
    let parts = split_string(entry, sep);
    let segs = nonempty_segments(&parts);
    let ghost f = |x: String| x@;
    let ghost segs_view = nonempty_only(split_on(entry@, spec_component_sep(*platform)));
    proof {
        assert(segs@.map_values(f) == segs_view);
        assert(segs@.len() == segs_view.len());
    }
    let n = segs.len();
    if windows {
        if n < 2 {
            return false;
        }
        let ok = str_eq(segs[n - 2].as_str(), "nue") && str_eq(segs[n - 1].as_str(), "node");
        proof {
            assert(segs@[n - 2]@ == segs_view[segs_view.len() - 2]);
            assert(segs@[n - 1]@ == segs_view[segs_view.len() - 1]);
            if ok {
                assert(segs_view.subrange(segs_view.len() - 2, segs_view.len() as int)
                    =~= spec_node_suffix(*platform));
            } else {
                assert(segs_view.subrange(segs_view.len() - 2, segs_view.len() as int)[0]
                    == segs_view[segs_view.len() - 2]);
                assert(segs_view.subrange(segs_view.len() - 2, segs_view.len() as int)[1]
                    == segs_view[segs_view.len() - 1]);
            }
        }
        ok
    } else {
        if n < 3 {
            return false;
        }
        let ok = str_eq(segs[n - 3].as_str(), ".nue") && str_eq(segs[n - 2].as_str(), "node")
            && str_eq(segs[n - 1].as_str(), "bin");
        proof {
            assert(segs@[n - 3]@ == segs_view[segs_view.len() - 3]);
            assert(segs@[n - 2]@ == segs_view[segs_view.len() - 2]);
            assert(segs@[n - 1]@ == segs_view[segs_view.len() - 1]);
            if ok {
                assert(segs_view.subrange(segs_view.len() - 3, segs_view.len() as int)
                    =~= spec_node_suffix(*platform));
            } else {
                assert(segs_view.subrange(segs_view.len() - 3, segs_view.len() as int)[0]
                    == segs_view[segs_view.len() - 3]);
                assert(segs_view.subrange(segs_view.len() - 3, segs_view.len() as int)[1]
                    == segs_view[segs_view.len() - 2]);
                assert(segs_view.subrange(segs_view.len() - 3, segs_view.len() as int)[2]
                    == segs_view[segs_view.len() - 1]);
            }
        }
        ok
    }
}

/// Whether the `PATH` variable's entries already expose the runtime's
/// binary directory. The caller hands in the variable's value; an unset
/// variable is simply not checked here.
pub fn is_node_in_path(path_var: &str, platform: &Platform) -> (r: bool)
    ensures
        r == spec_node_in_path(path_var@, *platform),
{
    let windows = matches!(platform, Platform::Windows(_));
    let list_sep: char = if windows {
        ';'
    } else {
        ':'
    };
    let entries = split_string(path_var, list_sep);
    let ghost f = |x: String| x@;
    let ghost entries_view = split_on(path_var@, spec_path_list_sep(*platform));
    proof {
        assert(entries@.map_values(f) == entries_view);
    }
    let mut k: usize = 0;
    while k < entries.len()
        invariant
            k <= entries@.len(),
            entries@.map_values(f) == entries_view,
            entries_view == split_on(path_var@, spec_path_list_sep(*platform)),
            f == (|x: String| x@),
            forall|j: int| 0 <= j < k ==> !spec_entry_matches(#[trigger] entries_view[j], *platform),
        decreases entries@.len() - k,
    {
        if entry_matches(entries[k].as_str(), platform) {
            proof {
                assert(entries@[k as int]@ == entries_view[k as int]);
                assert(spec_entry_matches(entries_view[k as int], *platform));
            }
            return true;
        }
        proof {
            assert(entries@[k as int]@ == entries_view[k as int]);
        }
        k += 1;
    }
    false
}

/// The shell profile files an environment script is sourced from, for
/// the shell the user runs: zsh and bash have their own profiles, every
/// other shell gets the generic one.
pub fn available_shell_profiles(shell: Option<&str>) -> (r: Vec<&'static str>)
    ensures
        match shell {
            Some(name) if name@ == "zsh"@ => r@.len() == 3 && r@[0]@ == "~/.zprofile"@ && r@[1]@
                == "~/.zshenv"@ && r@[2]@ == "~/.zshrc"@,
            Some(name) if name@ == "bash"@ => r@.len() == 2 && r@[0]@ == "~/.bash_profile"@
                && r@[1]@ == "~/.bashrc"@,
            _ => r@.len() == 1 && r@[0]@ == "~/.profile"@,
        },
{
    let mut out: Vec<&'static str> = Vec::new();
    match shell {
        Some(name) => {
            if str_eq(name, "zsh") {
                out.push("~/.zprofile");
                out.push("~/.zshenv");
                out.push("~/.zshrc");
            } else if str_eq(name, "bash") {
                out.push("~/.bash_profile");
                out.push("~/.bashrc");
            } else {
                out.push("~/.profile");
            }
        },
        None => {
            out.push("~/.profile");
        },
    }
    out
}

} // verus!
