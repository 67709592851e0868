//! The semantic-version model: parsing of `vX.Y.Z[-pre]` strings from the
//! release index, rendering back to text, and the semver precedence order
//! (major, minor, patch, then pre-release identifiers, a pre-release being
//! lower than the plain release).

use vstd::prelude::*;

use crate::strutil::{
    dec_digits, digit_char, find_char, find_char_from, lemma_find_char_from_props,
    lemma_find_char_from_shift, str_eq, u64_to_string,
};

verus! {

/// One dot-separated pre-release identifier: purely numeric identifiers
/// compare numerically and below every alphanumeric one.
#[derive(Debug, Clone)]
pub enum PreId {
    Num(u64),
    Alpha(String),
}

/// A parsed semantic version.
#[derive(Debug, Clone)]
pub struct Version {
    pub major: u64,
    pub minor: u64,
    pub patch: u64,
    pub prerelease: Vec<PreId>,
}

/// Three-way comparison result.
#[derive(Debug, Clone, Copy, PartialEq, Eq, Structural)]
pub enum Order {
    Less,
    Equal,
    Greater,
}

/// The integer sign of an [`Order`].
pub open spec fn order_sign(o: Order) -> int {
    match o {
        Order::Less => -1,
        Order::Equal => 0,
        Order::Greater => 1,
    }
}

/// Lexicographic three-way comparison of character sequences.
pub open spec fn chars_cmp(a: Seq<char>, b: Seq<char>) -> int
    decreases a.len(),
{
    if a.len() == 0 && b.len() == 0 {
        0
    } else if a.len() == 0 {
        -1
    } else if b.len() == 0 {
        1
    } else if (a[0] as int) < (b[0] as int) {
        -1
    } else if (a[0] as int) > (b[0] as int) {
        1
    } else {
        chars_cmp(a.skip(1), b.skip(1))
    }
}

/// Semver comparison of single pre-release identifiers: numeric before
/// alphanumeric, numeric by value, alphanumeric lexicographically.
pub open spec fn pre_id_cmp(a: PreId, b: PreId) -> int {
    match (a, b) {
        (PreId::Num(x), PreId::Num(y)) => if x < y {
            -1
        } else if x > y {
            1
        } else {
            0
        },
        (PreId::Num(_), PreId::Alpha(_)) => -1,
        (PreId::Alpha(_), PreId::Num(_)) => 1,
        (PreId::Alpha(x), PreId::Alpha(y)) => chars_cmp(x@, y@),
    }
}

/// Lexicographic comparison of pre-release identifier lists; a shorter
/// list that is a prefix of the longer one is smaller.
pub open spec fn pre_seq_cmp(a: Seq<PreId>, b: Seq<PreId>) -> int
    decreases a.len(),
{
    if a.len() == 0 && b.len() == 0 {
        0
    } else if a.len() == 0 {
        -1
    } else if b.len() == 0 {
        1
    } else if pre_id_cmp(a[0], b[0]) != 0 {
        pre_id_cmp(a[0], b[0])
    } else {
        pre_seq_cmp(a.skip(1), b.skip(1))
    }
}

/// Full semver precedence: major, minor, patch, then pre-release, where a
/// version with a pre-release list is lower than the same version without.
pub open spec fn version_cmp(a: Version, b: Version) -> int {
    if a.major != b.major {
        if a.major < b.major {
            -1
        } else {
            1
        }
    } else if a.minor != b.minor {
        if a.minor < b.minor {
            -1
        } else {
            1
        }
    } else if a.patch != b.patch {
        if a.patch < b.patch {
            -1
        } else {
            1
        }
    } else if a.prerelease@.len() == 0 && b.prerelease@.len() == 0 {
        0
    } else if a.prerelease@.len() == 0 {
        1
    } else if b.prerelease@.len() == 0 {
        -1
    } else {
        pre_seq_cmp(a.prerelease@, b.prerelease@)
    }
}

/// Strict "lower precedence" on versions.
pub open spec fn version_lt(a: Version, b: Version) -> bool {
    version_cmp(a, b) < 0
}

/// Compares the tails of `a` and `b` from position `i` on.
fn chars_compare_from(a: &str, b: &str, i: usize) -> (r: Order)
    requires
        i <= a@.len(),
        i <= b@.len(),
    ensures
        order_sign(r) == chars_cmp(a@.skip(i as int), b@.skip(i as int)),
    decreases a@.len() - i,
{
    let alen = a.unicode_len();
    let blen = b.unicode_len();
    if i == alen && i == blen {
        Order::Equal
    } else if i == alen {
        Order::Less
    } else if i == blen {
        Order::Greater
    } else {
        let ca = a.get_char(i) as u32;
        let cb = b.get_char(i) as u32;
        if ca < cb {
            Order::Less
        } else if ca > cb {
            Order::Greater
        } else {
            proof {
                assert(a@.skip(i as int).skip(1) =~= a@.skip(i + 1));
                assert(b@.skip(i as int).skip(1) =~= b@.skip(i + 1));
            }
            chars_compare_from(a, b, i + 1)
        }
    }
}

/// Lexicographic comparison of two strings.
pub fn chars_compare(a: &str, b: &str) -> (r: Order)
    ensures
        order_sign(r) == chars_cmp(a@, b@),
{
    proof {
        assert(a@.skip(0) =~= a@);
        assert(b@.skip(0) =~= b@);
    }
    chars_compare_from(a, b, 0)
}

/// Semver comparison of two pre-release identifiers.
pub fn pre_id_compare(a: &PreId, b: &PreId) -> (r: Order)
    ensures
        order_sign(r) == pre_id_cmp(*a, *b),
{
    match (a, b) {
        (PreId::Num(x), PreId::Num(y)) => {
            if x < y {
                Order::Less
            } else if x > y {
                Order::Greater
            } else {
                Order::Equal
            }
        },
        (PreId::Num(_), PreId::Alpha(_)) => Order::Less,
        (PreId::Alpha(_), PreId::Num(_)) => Order::Greater,
        (PreId::Alpha(x), PreId::Alpha(y)) => chars_compare(x.as_str(), y.as_str()),
    }
}

/// Compares the tails of two pre-release lists from position `i` on.
fn pre_seq_compare_from(a: &Vec<PreId>, b: &Vec<PreId>, i: usize) -> (r: Order)
    requires
        i <= a@.len(),
        i <= b@.len(),
    ensures
        order_sign(r) == pre_seq_cmp(a@.skip(i as int), b@.skip(i as int)),
    decreases a@.len() - i,
{
    if i == a.len() && i == b.len() {
        Order::Equal
    } else if i == a.len() {
        Order::Less
    } else if i == b.len() {
        Order::Greater
    } else {
        let head = pre_id_compare(&a[i], &b[i]);
        match head {
            Order::Equal => {
                proof {
                    assert(a@.skip(i as int).skip(1) =~= a@.skip(i + 1));
                    assert(b@.skip(i as int).skip(1) =~= b@.skip(i + 1));
                }
                pre_seq_compare_from(a, b, i + 1)
            },
            _ => head,
        }
    }
}

/// Full semver precedence comparison of two versions.
pub fn version_compare(a: &Version, b: &Version) -> (r: Order)
    ensures
        order_sign(r) == version_cmp(*a, *b),
{
    if a.major != b.major {
        if a.major < b.major {
            Order::Less
        } else {
            Order::Greater
        }
    } else if a.minor != b.minor {
        if a.minor < b.minor {
            Order::Less
        } else {
            Order::Greater
        }
    } else if a.patch != b.patch {
        if a.patch < b.patch {
            Order::Less
        } else {
            Order::Greater
        }
    } else if a.prerelease.len() == 0 && b.prerelease.len() == 0 {
        Order::Equal
    } else if a.prerelease.len() == 0 {
        Order::Greater
    } else if b.prerelease.len() == 0 {
        Order::Less
    } else {
        proof {
            assert(a.prerelease@.skip(0) =~= a.prerelease@);
            assert(b.prerelease@.skip(0) =~= b.prerelease@);
        }
        pre_seq_compare_from(&a.prerelease, &b.prerelease, 0)
    }
}

/// `a` has strictly lower precedence than `b`.
pub fn version_lt_exec(a: &Version, b: &Version) -> (r: bool)
    ensures
        r == version_lt(*a, *b),
{
    matches!(version_compare(a, b), Order::Less)
}

/// Decimal digit test.
pub open spec fn is_digit(c: char) -> bool {
    '0' <= c && c <= '9'
}

/// The numeric value of a digit character (0 for non-digits).
pub open spec fn char_digit(c: char) -> nat {
    if is_digit(c) {
        ((c as int) - 48) as nat
    } else {
        0
    }
}

/// The number denoted by a digit sequence, most significant digit first.
pub open spec fn digits_val(t: Seq<char>) -> nat
    decreases t.len(),
{
    if t.len() == 0 {
        0
    } else {
        digits_val(t.drop_last()) * 10 + char_digit(t.last())
    }
}

/// A valid numeric component: digits only, no redundant leading zero, and
/// a value that fits in a `u64`.
pub open spec fn valid_num_chars(t: Seq<char>) -> bool {
    &&& t.len() > 0
    &&& forall|i: int| 0 <= i < t.len() ==> is_digit(#[trigger] t[i])
    &&& (t[0] == '0' ==> t.len() == 1)
    &&& digits_val(t) <= u64::MAX
}

/// A character allowed inside a pre-release identifier.
pub open spec fn id_char(c: char) -> bool {
    is_digit(c) || ('a' <= c && c <= 'z') || ('A' <= c && c <= 'Z') || c == '-'
}

/// A valid pre-release identifier: a numeric one obeys the numeric rules,
/// an alphanumeric one consists of identifier characters.
pub open spec fn valid_pre_id_chars(t: Seq<char>) -> bool {
    if forall|i: int| 0 <= i < t.len() ==> is_digit(#[trigger] t[i]) {
        valid_num_chars(t)
    } else {
        t.len() > 0 && forall|i: int| 0 <= i < t.len() ==> id_char(#[trigger] t[i])
    }
}

/// A valid dot-separated list of pre-release identifiers.
pub open spec fn valid_pre_chars(t: Seq<char>) -> bool
    decreases t.len() via valid_pre_chars_dec
{
    let j = find_char_from(t, '.', 0);
    if j == t.len() {
        valid_pre_id_chars(t)
    } else {
        valid_pre_id_chars(t.take(j)) && valid_pre_chars(t.skip(j + 1))
    }
}

#[via_fn]
proof fn valid_pre_chars_dec(t: Seq<char>) {
    lemma_find_char_from_props(t, '.', 0);
}

/// `s` with one optional leading `v` removed.
pub open spec fn strip_v(s: Seq<char>) -> Seq<char> {
    if s.len() > 0 && s[0] == 'v' {
        s.skip(1)
    } else {
        s
    }
}

/// A valid version string (after the leading `v` is stripped):
/// `major.minor.patch`, optionally followed by `-` and pre-release
/// identifiers.
pub open spec fn valid_version_chars(t: Seq<char>) -> bool {
    let d1 = find_char_from(t, '.', 0);
    if d1 == t.len() {
        false
    } else {
        let d2 = find_char_from(t, '.', d1 + 1);
        if d2 == t.len() {
            false
        } else {
            let h = find_char_from(t, '-', d2 + 1);
            &&& valid_num_chars(t.take(d1))
            &&& valid_num_chars(t.subrange(d1 + 1, d2))
            &&& valid_num_chars(t.subrange(d2 + 1, h))
            &&& (h == t.len() || valid_pre_chars(t.skip(h + 1)))
        }
    }
}

/// The text of one pre-release identifier.
pub open spec fn pre_id_chars(p: PreId) -> Seq<char> {
    match p {
        PreId::Num(n) => dec_digits(n as nat),
        PreId::Alpha(s) => s@,
    }
}

/// The dot-joined text of a pre-release identifier list.
pub open spec fn pre_seq_chars(ids: Seq<PreId>) -> Seq<char>
    decreases ids.len(),
{
    if ids.len() == 0 {
        Seq::<char>::empty()
    } else if ids.len() == 1 {
        pre_id_chars(ids[0])
    } else {
        pre_id_chars(ids[0]) + seq!['.'] + pre_seq_chars(ids.skip(1))
    }
}

/// The canonical text of a version, without the leading `v`.
pub open spec fn version_chars(v: Version) -> Seq<char> {
    dec_digits(v.major as nat) + seq!['.'] + dec_digits(v.minor as nat) + seq!['.'] + dec_digits(
        v.patch as nat,
    ) + (if v.prerelease@.len() == 0 {
        Seq::<char>::empty()
    } else {
        seq!['-'] + pre_seq_chars(v.prerelease@)
    })
}

proof fn lemma_chars_cmp_antisym(a: Seq<char>, b: Seq<char>)
    ensures
        chars_cmp(a, b) == -chars_cmp(b, a),
    decreases a.len(),
{
    if a.len() != 0 && b.len() != 0 && a[0] == b[0] {
        lemma_chars_cmp_antisym(a.skip(1), b.skip(1));
    }
}

proof fn lemma_chars_cmp_zero(a: Seq<char>, b: Seq<char>)
    requires
        chars_cmp(a, b) == 0,
    ensures
        a == b,
    decreases a.len(),
{
    if a.len() != 0 && b.len() != 0 && a[0] == b[0] {
        lemma_chars_cmp_zero(a.skip(1), b.skip(1));
        assert forall|i: int| 0 <= i < a.len() implies a[i] == b[i] by {
            if i > 0 {
                assert(a.skip(1)[i - 1] == b.skip(1)[i - 1]);
            }
        }
        assert(a =~= b);
    } else {
        assert(a =~= b);
    }
}

proof fn lemma_chars_cmp_trans(a: Seq<char>, b: Seq<char>, c: Seq<char>)
    requires
        chars_cmp(a, b) <= 0,
        chars_cmp(b, c) <= 0,
    ensures
        chars_cmp(a, c) <= 0,
        chars_cmp(a, b) < 0 || chars_cmp(b, c) < 0 ==> chars_cmp(a, c) < 0,
    decreases a.len() + b.len() + c.len(),
{
    if a.len() != 0 && b.len() != 0 && c.len() != 0 && a[0] == b[0] && b[0] == c[0] {
        lemma_chars_cmp_trans(a.skip(1), b.skip(1), c.skip(1));
    }
}

proof fn lemma_pre_id_cmp_antisym(a: PreId, b: PreId)
    ensures
        pre_id_cmp(a, b) == -pre_id_cmp(b, a),
{
    match (a, b) {
        (PreId::Alpha(x), PreId::Alpha(y)) => lemma_chars_cmp_antisym(x@, y@),
        _ => {},
    }
}

proof fn lemma_pre_id_cmp_congr(a: PreId, b: PreId, c: PreId)
    requires
        pre_id_cmp(a, b) == 0,
    ensures
        pre_id_cmp(a, c) == pre_id_cmp(b, c),
{
    match (a, b) {
        (PreId::Alpha(x), PreId::Alpha(y)) => lemma_chars_cmp_zero(x@, y@),
        _ => {},
    }
}

proof fn lemma_pre_id_cmp_trans(a: PreId, b: PreId, c: PreId)
    requires
        pre_id_cmp(a, b) <= 0,
        pre_id_cmp(b, c) <= 0,
    ensures
        pre_id_cmp(a, c) <= 0,
        pre_id_cmp(a, b) < 0 || pre_id_cmp(b, c) < 0 ==> pre_id_cmp(a, c) < 0,
{
    match (a, b, c) {
        (PreId::Alpha(x), PreId::Alpha(y), PreId::Alpha(z)) => {
            lemma_chars_cmp_trans(x@, y@, z@)
        },
        _ => {},
    }
}

proof fn lemma_pre_seq_cmp_antisym(a: Seq<PreId>, b: Seq<PreId>)
    ensures
        pre_seq_cmp(a, b) == -pre_seq_cmp(b, a),
    decreases a.len(),
{
    if a.len() != 0 && b.len() != 0 {
        lemma_pre_id_cmp_antisym(a[0], b[0]);
        if pre_id_cmp(a[0], b[0]) == 0 {
            lemma_pre_seq_cmp_antisym(a.skip(1), b.skip(1));
        }
    }
}

proof fn lemma_pre_seq_cmp_trans(a: Seq<PreId>, b: Seq<PreId>, c: Seq<PreId>)
    requires
        pre_seq_cmp(a, b) <= 0,
        pre_seq_cmp(b, c) <= 0,
    ensures
        pre_seq_cmp(a, c) <= 0,
        pre_seq_cmp(a, b) < 0 || pre_seq_cmp(b, c) < 0 ==> pre_seq_cmp(a, c) < 0,
    decreases a.len() + b.len() + c.len(),
{
    if a.len() != 0 && b.len() != 0 && c.len() != 0 {
        let hab = pre_id_cmp(a[0], b[0]);
        let hbc = pre_id_cmp(b[0], c[0]);
        lemma_pre_id_cmp_trans(a[0], b[0], c[0]);
        if hab == 0 {
            lemma_pre_id_cmp_congr(a[0], b[0], c[0]);
        }
        if hbc == 0 {
            lemma_pre_id_cmp_antisym(b[0], c[0]);
            lemma_pre_id_cmp_congr(c[0], b[0], a[0]);
            lemma_pre_id_cmp_antisym(c[0], a[0]);
            lemma_pre_id_cmp_antisym(b[0], a[0]);
        }
        if hab == 0 && hbc == 0 {
            lemma_pre_seq_cmp_trans(a.skip(1), b.skip(1), c.skip(1));
        }
    }
}

/// Precedence comparison flips sign when its arguments are swapped.
pub proof fn lemma_version_cmp_antisym(a: Version, b: Version)
    ensures
        version_cmp(a, b) == -version_cmp(b, a),
{
    if a.major == b.major && a.minor == b.minor && a.patch == b.patch
        && a.prerelease@.len() != 0 && b.prerelease@.len() != 0 {
        lemma_pre_seq_cmp_antisym(a.prerelease@, b.prerelease@);
    }
}

/// Precedence "not above" is transitive.
pub proof fn lemma_version_le_trans(a: Version, b: Version, c: Version)
    requires
        version_cmp(a, b) <= 0,
        version_cmp(b, c) <= 0,
    ensures
        version_cmp(a, c) <= 0,
{
    if a.major == b.major && b.major == c.major && a.minor == b.minor && b.minor == c.minor
        && a.patch == b.patch && b.patch == c.patch && a.prerelease@.len() != 0
        && b.prerelease@.len() != 0 && c.prerelease@.len() != 0 {
        lemma_pre_seq_cmp_trans(a.prerelease@, b.prerelease@, c.prerelease@);
    }
}

proof fn lemma_digits_val_prefix_le(t: Seq<char>, i: int)
    requires
        0 <= i <= t.len(),
    ensures
        digits_val(t.take(i)) <= digits_val(t),
    decreases t.len() - i,
{
    if i < t.len() {
        lemma_digits_val_prefix_le(t, i + 1);
        assert(t.take(i + 1).drop_last() =~= t.take(i));
        assert(digits_val(t.take(i + 1)) == digits_val(t.take(i)) * 10 + char_digit(
            t.take(i + 1).last(),
        ));
        assert(digits_val(t.take(i)) * 10 >= digits_val(t.take(i)));
    } else {
        assert(t.take(i) =~= t);
    }
}

proof fn lemma_dec_digits_of_val(t: Seq<char>)
    requires
        t.len() > 0,
        forall|i: int| 0 <= i < t.len() ==> is_digit(#[trigger] t[i]),
        t[0] == '0' ==> t.len() == 1,
    ensures
        dec_digits(digits_val(t)) == t,
    decreases t.len(),
{
    let v = digits_val(t);
    if t.len() == 1 {
        assert(t.drop_last() =~= Seq::<char>::empty());
        assert(digits_val(Seq::<char>::empty()) == 0);
        assert(t.last() == t[0]);
        assert(v == digits_val(t.drop_last()) * 10 + char_digit(t.last()));
        assert(v == char_digit(t[0]));
        assert(dec_digits(v) =~= t);
    } else {
        let tp = t.drop_last();
        let vp = digits_val(tp);
        let d = char_digit(t.last());
        lemma_dec_digits_of_val(tp);
        lemma_digits_val_prefix_le(tp, 1);
        assert(tp.take(1).drop_last() =~= Seq::<char>::empty());
        assert(digits_val(Seq::<char>::empty()) == 0);
        assert(tp.take(1).last() == tp[0]);
        assert(digits_val(tp.take(1)) == digits_val(tp.take(1).drop_last()) * 10 + char_digit(
            tp.take(1).last(),
        ));
        assert(digits_val(tp.take(1)) == char_digit(tp[0]));
        assert(char_digit(tp[0]) >= 1);
        assert(v == vp * 10 + d);
        assert(v >= 10) by {
            assert(vp >= 1);
            assert(vp * 10 >= 10) by (nonlinear_arith)
                requires
                    vp >= 1,
            ;
        }
        assert(v / 10 == vp && v % 10 == d) by (nonlinear_arith)
            requires
                v == vp * 10 + d,
                0 <= d < 10,
        ;
        assert(dec_digits(v) =~= dec_digits(vp) + seq![digit_char(d as int)]);
        assert(digit_char(d as int) == t.last());
        assert(dec_digits(vp) + seq![t.last()] =~= t);
    }
}

/// Parses the digit run `s[start..end)` as a `u64`; rejects an empty run,
/// a non-digit, a redundant leading zero, and overflow.
fn parse_num(s: &str, start: usize, end: usize) -> (r: Option<u64>)
    requires
        start <= end <= s@.len(),
    ensures
        (r is Some) == valid_num_chars(s@.subrange(start as int, end as int)),
        r matches Some(n) ==> dec_digits(n as nat) == s@.subrange(start as int, end as int),
        r matches Some(n) ==> n as nat == digits_val(s@.subrange(start as int, end as int)),
{
    let ghost t = s@.subrange(start as int, end as int);
    if start == end {
        return None;
    }
    let first = s.get_char(start) as u32;
    if first == 48 && end - start > 1 {
        // a multi-digit run may not begin with zero
        assert(t[0] == '0');
        return None;
    }
    let mut acc: u64 = 0;
    let mut i: usize = start;
    while i < end
        invariant
            start <= i <= end <= s@.len(),
            t == s@.subrange(start as int, end as int),
            forall|j: int| 0 <= j < i - start ==> is_digit(#[trigger] t[j]),
            acc as nat == digits_val(t.take(i - start)),
        decreases end - i,
    {
        let code = s.get_char(i) as u32;
        if code < 48 || code > 57 {
            assert(!is_digit(t[i - start]));
            return None;
        }
        let d = (code - 48) as u64;
        assert(is_digit(t[i - start]) && char_digit(t[i - start]) == d);
        if acc > (u64::MAX - d) / 10 {
            proof {
                assert(t.take(i - start + 1).drop_last() =~= t.take(i - start));
                assert(digits_val(t.take(i - start + 1)) == (acc as nat) * 10 + d);
                assert((acc as nat) * 10 + d > u64::MAX) by (nonlinear_arith)
                    requires
                        acc > (u64::MAX - d) / 10,
                        0 <= d < 10,
                ;
                lemma_digits_val_prefix_le(t, i - start + 1);
            }
            return None;
        }
        proof {
            assert((acc as nat) * 10 + d <= u64::MAX) by (nonlinear_arith)
                requires
                    acc <= (u64::MAX - d) / 10,
                    0 <= d < 10,
            ;
            assert(t.take(i - start + 1).drop_last() =~= t.take(i - start));
        }
        acc = acc * 10 + d;
        i += 1;
    }
    proof {
        assert(t.take(end - start) =~= t);
        lemma_dec_digits_of_val(t);
    }
    Some(acc)
}

/// Parses the identifier `s[start..end)` as a pre-release identifier.
fn parse_pre_id(s: &str, start: usize, end: usize) -> (r: Option<PreId>)
    requires
        start <= end <= s@.len(),
    ensures
        (r is Some) == valid_pre_id_chars(s@.subrange(start as int, end as int)),
        r matches Some(p) ==> pre_id_chars(p) == s@.subrange(start as int, end as int)
            && wf_pre_id(p),
{
    let ghost t = s@.subrange(start as int, end as int);
    if start == end {
        return None;
    }
    let mut all_digits = true;
    let mut i: usize = start;
    while i < end
        invariant
            start <= i <= end <= s@.len(),
            t == s@.subrange(start as int, end as int),
            forall|j: int| 0 <= j < i - start ==> id_char(#[trigger] t[j]),
            all_digits == forall|j: int| 0 <= j < i - start ==> is_digit(#[trigger] t[j]),
        decreases end - i,
    {
        let code = s.get_char(i) as u32;
        let digit = 48 <= code && code <= 57;
        let ok = digit || (97 <= code && code <= 122) || (65 <= code && code <= 90) || code == 45;
        if !ok {
            assert(!id_char(t[i - start]));
            assert(!is_digit(t[i - start]));
            return None;
        }
        if !digit {
            assert(!is_digit(t[i - start]));
        }
        all_digits = all_digits && digit;
        i += 1;
    }
    if all_digits {
        match parse_num(s, start, end) {
            Some(n) => Some(PreId::Num(n)),
            None => None,
        }
    } else {
        let text = s.substring_char(start, end);
        Some(PreId::Alpha(text.to_owned()))
    }
}

/// Parses the dot-separated pre-release identifiers in `s[start..]`.
fn parse_pre_from(s: &str, start: usize) -> (r: Option<Vec<PreId>>)
    requires
        start <= s@.len(),
    ensures
        (r is Some) == valid_pre_chars(s@.skip(start as int)),
        r matches Some(ids) ==> pre_seq_chars(ids@) == s@.skip(start as int) && ids@.len() > 0
            && (forall|i: int| 0 <= i < ids@.len() ==> wf_pre_id(#[trigger] ids@[i])),
    decreases s@.len() - start,
{
    let ghost t = s@.skip(start as int);
    let n = s.unicode_len();
    let j = find_char(s, '.', start);
    proof {
        assert(find_char_from(t, '.', 0) == find_char_from(s@, '.', start as int) - start) by {
            lemma_find_char_from_shift(s@, '.', start as int);
        }
    }
    if j == n {
        proof {
            assert(t.take(t.len() as int) =~= t);
            assert(s@.subrange(start as int, s@.len() as int) =~= t);
        }
        match parse_pre_id(s, start, n) {
            Some(p) => {
                let mut ids: Vec<PreId> = Vec::new();
                ids.push(p);
                proof {
                    assert(pre_seq_chars(ids@) == pre_id_chars(p));
                }
                Some(ids)
            },
            None => None,
        }
    } else {
        proof {
            assert(s@.subrange(start as int, j as int) =~= t.take(j - start));
            assert(s@.skip(j + 1) =~= t.skip(j - start + 1));
        }
        let head = match parse_pre_id(s, start, j) {
            Some(p) => p,
            None => {
                return None;
            },
        };
        let rest = match parse_pre_from(s, j + 1) {
            Some(ids) => ids,
            None => {
                return None;
            },
        };
        let ghost rest_view = rest@;
        let mut ids = rest;
        ids.insert(0, head);
        proof {
            assert(ids@.skip(1) =~= rest_view);
            assert(t.take(j - start) + seq!['.'] + t.skip(j - start + 1) =~= t);
            assert(pre_seq_chars(ids@) =~= t);
        }
        Some(ids)
    }
}

/// Parses a plain decimal number, as found in a `Content-Length`
/// header: a digit run without a redundant leading zero, valued within
/// `u64`.
pub fn parse_decimal(s: &str) -> (r: Option<u64>)
    ensures
        (r is Some) == valid_num_chars(s@),
        r matches Some(n) ==> n as nat == digits_val(s@),
{
    let n = s.unicode_len();
    proof {
        assert(s@.subrange(0, s@.len() as int) =~= s@);
    }
    parse_num(s, 0, n)
}

/// Parses a version string: `major.minor.patch` with an optional
/// pre-release part, after stripping one optional leading `v`.
pub fn parse_version(s: &str) -> (r: Option<Version>)
    ensures
        (r is Some) == valid_version_chars(strip_v(s@)),
        r matches Some(v) ==> version_chars(v) == strip_v(s@) && wf_version(v),
{
    let n0 = s.unicode_len();
    if n0 > 0 && s.get_char(0) == 'v' {
        let tail = s.substring_char(1, n0);
        proof {
            assert(tail@ =~= strip_v(s@));
        }
        parse_version_core(tail)
    } else {
        proof {
            assert(s@ =~= strip_v(s@));
        }
        parse_version_core(s)
    }
}

/// Parses a version string with no leading `v`.
#[verifier::rlimit(40)]
fn parse_version_core(s: &str) -> (r: Option<Version>)
    ensures
        (r is Some) == valid_version_chars(s@),
        r matches Some(v) ==> version_chars(v) == s@ && wf_version(v),
{
    let n = s.unicode_len();
    let d1 = find_char(s, '.', 0);
    if d1 == n {
        return None;
    }
    let d2 = find_char(s, '.', d1 + 1);
    if d2 == n {
        return None;
    }
    let h = find_char(s, '-', d2 + 1);
    proof {
        assert(s@.subrange(0, d1 as int) =~= s@.take(d1 as int));
    }
    let major = match parse_num(s, 0, d1) {
        Some(x) => x,
        None => {
            return None;
        },
    };
    let minor = match parse_num(s, d1 + 1, d2) {
        Some(x) => x,
        None => {
            return None;
        },
    };
    let patch = match parse_num(s, d2 + 1, h) {
        Some(x) => x,
        None => {
            return None;
        },
    };
    let prerelease: Vec<PreId> = if h == n {
        Vec::new()
    } else {
        match parse_pre_from(s, h + 1) {
            Some(ids) => ids,
            None => {
                return None;
            },
        }
    };
    let v = Version { major, minor, patch, prerelease };
    proof {
        assert(version_chars(v) =~= s@);
    }
    Some(v)
}

/// The text of one pre-release identifier.
fn pre_id_to_string(p: &PreId) -> (r: String)
    ensures
        r@ == pre_id_chars(*p),
{
    match p {
        PreId::Num(n) => u64_to_string(*n),
        PreId::Alpha(s) => s.clone(),
    }
}

/// The dot-joined text of the identifiers from position `i` on.
fn pre_seq_to_string_from(ids: &Vec<PreId>, i: usize) -> (r: String)
    requires
        i <= ids@.len(),
    ensures
        r@ == pre_seq_chars(ids@.skip(i as int)),
    decreases ids@.len() - i,
{
    if i == ids.len() {
        proof {
            assert(ids@.skip(i as int) =~= Seq::<PreId>::empty());
        }
        String::new()
    } else if i + 1 == ids.len() {
        proof {
            assert(ids@.skip(i as int).len() == 1);
            assert(ids@.skip(i as int)[0] == ids@[i as int]);
        }
        pre_id_to_string(&ids[i])
    } else {
        let mut out = pre_id_to_string(&ids[i]);
        out.append(".");
        let rest = pre_seq_to_string_from(ids, i + 1);
        out.append(rest.as_str());
        proof {
            reveal_strlit(".");
            assert("."@ =~= seq!['.']);
            assert(ids@.skip(i as int).skip(1) =~= ids@.skip(i + 1));
            assert(ids@.skip(i as int)[0] == ids@[i as int]);
            assert(out@ =~= pre_seq_chars(ids@.skip(i as int)));
        }
        out
    }
}

/// Renders a version in its canonical form, without a leading `v`.
pub fn version_to_string(v: &Version) -> (r: String)
    ensures
        r@ == version_chars(*v),
{
    let mut out = u64_to_string(v.major);
    out.append(".");
    let minor = u64_to_string(v.minor);
    out.append(minor.as_str());
    out.append(".");
    let patch = u64_to_string(v.patch);
    out.append(patch.as_str());
    if v.prerelease.len() > 0 {
        out.append("-");
        let pre = pre_seq_to_string_from(&v.prerelease, 0);
        out.append(pre.as_str());
        proof {
            assert(v.prerelease@.skip(0) =~= v.prerelease@);
        }
    }
    proof {
        reveal_strlit(".");
        reveal_strlit("-");
        assert("."@ =~= seq!['.']);
        assert("-"@ =~= seq!['-']);
        assert(out@ =~= version_chars(*v));
    }
    out
}

/// How the user may name a version on the command line: an explicit
/// version string, the newest release, or the newest long-term-support
/// release.
#[derive(Debug, Clone)]
pub enum NodeVersion {
    Semver(String),
    Latest,
    Lts,
}

impl NodeVersion {
    /// Reads a version request: `latest` and `lts` are keywords, anything
    /// else is kept as a version string with one leading `v` stripped.
    pub fn parse(s: &str) -> (r: NodeVersion)
        ensures
            match r {
                NodeVersion::Latest => s@ == "latest"@,
                NodeVersion::Lts => s@ == "lts"@,
                NodeVersion::Semver(t) => s@ != "latest"@ && s@ != "lts"@ && t@ == strip_v(s@),
            },
    {
        if str_eq(s, "latest") {
            NodeVersion::Latest
        } else if str_eq(s, "lts") {
            NodeVersion::Lts
        } else {
            let n = s.unicode_len();
            if n > 0 && s.get_char(0) == 'v' {
                let tail = s.substring_char(1, n);
                proof {
                    assert(tail@ =~= strip_v(s@));
                }
                NodeVersion::Semver(tail.to_owned())
            } else {
                NodeVersion::Semver(s.to_owned())
            }
        }
    }
}

/// Precedence "not below" is transitive.
pub proof fn lemma_version_ge_trans(a: Version, b: Version, c: Version)
    requires
        version_cmp(a, b) >= 0,
        version_cmp(b, c) >= 0,
    ensures
        version_cmp(a, c) >= 0,
{
    lemma_version_cmp_antisym(a, b);
    lemma_version_cmp_antisym(b, c);
    lemma_version_le_trans(c, b, a);
    lemma_version_cmp_antisym(a, c);
}

/// A pre-release identifier that can stand in a version's canonical
/// text: an alphanumeric identifier is non-empty, uses identifier
/// characters only, and is not purely numeric (a purely numeric one is
/// represented as `Num`).
pub open spec fn wf_pre_id(p: PreId) -> bool {
    match p {
        PreId::Num(_) => true,
        PreId::Alpha(s) => {
            &&& s@.len() > 0
            &&& (forall|i: int| 0 <= i < s@.len() ==> id_char(#[trigger] s@[i]))
            &&& !(forall|i: int| 0 <= i < s@.len() ==> is_digit(#[trigger] s@[i]))
        },
    }
}

/// A version value whose canonical text reads back as the same version.
pub open spec fn wf_version(v: Version) -> bool {
    forall|i: int| 0 <= i < v.prerelease@.len() ==> wf_pre_id(#[trigger] v.prerelease@[i])
}

proof fn lemma_dec_digits_props(n: nat)
    ensures
        dec_digits(n).len() > 0,
        forall|i: int| 0 <= i < dec_digits(n).len() ==> is_digit(#[trigger] dec_digits(n)[i]),
        dec_digits(n)[0] == '0' <==> n == 0,
        digits_val(dec_digits(n)) == n,
    decreases n,
{
    if n < 10 {
        assert(dec_digits(n) =~= seq![digit_char(n as int)]);
        assert(dec_digits(n).drop_last() =~= Seq::<char>::empty());
        assert(digits_val(dec_digits(n)) == digits_val(dec_digits(n).drop_last()) * 10
            + char_digit(dec_digits(n).last()));
    } else {
        lemma_dec_digits_props(n / 10);
        let head = dec_digits(n / 10);
        let t = dec_digits(n);
        assert(t =~= head + seq![digit_char((n % 10) as int)]);
        assert(t.drop_last() =~= head);
        assert(t[0] == head[0]);
        assert(n / 10 >= 1) by (nonlinear_arith)
            requires
                n >= 10,
        ;
        assert(digits_val(t) == digits_val(head) * 10 + char_digit(t.last()));
        assert((n / 10) * 10 + n % 10 == n) by (nonlinear_arith);
        assert(char_digit(t.last()) == n % 10);
    }
}

proof fn lemma_find_char_at(s: Seq<char>, c: char, i: int, k: int)
    requires
        0 <= i <= k < s.len(),
        s[k] == c,
        forall|j: int| i <= j < k ==> s[j] != c,
    ensures
        find_char_from(s, c, i) == k,
{
    lemma_find_char_from_props(s, c, i);
    let f = find_char_from(s, c, i);
    if f < k {
        assert(s[f] == c);
    }
    if f > k {
        assert(s[k] != c);
    }
}

proof fn lemma_find_char_absent(s: Seq<char>, c: char, i: int)
    requires
        0 <= i <= s.len(),
        forall|j: int| i <= j < s.len() ==> s[j] != c,
    ensures
        find_char_from(s, c, i) == s.len(),
{
    lemma_find_char_from_props(s, c, i);
    let f = find_char_from(s, c, i);
    if f < s.len() {
        assert(s[f] == c);
    }
}

proof fn lemma_pre_id_chars_wf(p: PreId)
    requires
        wf_pre_id(p),
    ensures
        pre_id_chars(p).len() > 0,
        forall|i: int| 0 <= i < pre_id_chars(p).len() ==> id_char(#[trigger] pre_id_chars(p)[i]),
        valid_pre_id_chars(pre_id_chars(p)),
{
    match p {
        PreId::Num(x) => {
            lemma_dec_digits_props(x as nat);
        },
        PreId::Alpha(s) => {
            assert(pre_id_chars(p) == s@);
        },
    }
}

proof fn lemma_pre_seq_chars_valid(ids: Seq<PreId>)
    requires
        ids.len() > 0,
        forall|i: int| 0 <= i < ids.len() ==> wf_pre_id(#[trigger] ids[i]),
    ensures
        valid_pre_chars(pre_seq_chars(ids)),
    decreases ids.len(),
{
    let t = pre_seq_chars(ids);
    lemma_pre_id_chars_wf(ids[0]);
    let head = pre_id_chars(ids[0]);
    if ids.len() == 1 {
        assert(t == head);
        assert(forall|j: int| 0 <= j < t.len() ==> t[j] != '.') by {
            assert forall|j: int| 0 <= j < t.len() implies t[j] != '.' by {
                assert(id_char(head[j]));
            }
        }
        lemma_find_char_absent(t, '.', 0);
    } else {
        let rest = pre_seq_chars(ids.skip(1));
        assert(t == head + seq!['.'] + rest);
        assert(forall|j: int| 0 <= j < head.len() ==> t[j] == head[j]);
        assert forall|j: int| 0 <= j < head.len() implies t[j] != '.' by {
            assert(id_char(head[j]));
        }
        assert(t[head.len() as int] == '.');
        lemma_find_char_at(t, '.', 0, head.len() as int);
        assert(t.take(head.len() as int) =~= head);
        assert(t.skip(head.len() + 1 as int) =~= rest);
        lemma_pre_seq_chars_valid(ids.skip(1));
    }
}

/// A well-formed version's canonical text is a valid version string: the
/// renderer and the parser agree on the grammar, so rendering a version
/// always yields a string the parser accepts.
pub proof fn lemma_version_chars_valid(v: Version)
    requires
        wf_version(v),
    ensures
        valid_version_chars(version_chars(v)),
{
    let t = version_chars(v);
    let a = dec_digits(v.major as nat);
    let b = dec_digits(v.minor as nat);
    let c = dec_digits(v.patch as nat);
    lemma_dec_digits_props(v.major as nat);
    lemma_dec_digits_props(v.minor as nat);
    lemma_dec_digits_props(v.patch as nat);
    let d1 = a.len() as int;
    let d2 = a.len() as int + 1 + b.len() as int;
    let h = a.len() as int + 1 + b.len() as int + 1 + c.len() as int;
    assert forall|j: int| 0 <= j < d1 implies t[j] != '.' by {
        assert(t[j] == a[j]);
        assert(is_digit(a[j]));
    }
    assert(t[d1] == '.');
    lemma_find_char_at(t, '.', 0, d1);
    assert forall|j: int| d1 + 1 <= j < d2 implies t[j] != '.' by {
        assert(t[j] == b[j - d1 - 1]);
        assert(is_digit(b[j - d1 - 1]));
    }
    assert(t[d2] == '.');
    lemma_find_char_at(t, '.', d1 + 1, d2);
    assert forall|j: int| d2 + 1 <= j < h implies t[j] != '-' by {
        assert(t[j] == c[j - d2 - 1]);
        assert(is_digit(c[j - d2 - 1]));
    }
    assert(t.take(d1) =~= a);
    assert(t.subrange(d1 + 1, d2) =~= b);
    assert(t.subrange(d2 + 1, h) =~= c);
    if v.prerelease@.len() == 0 {
        assert(t.len() == h);
        lemma_find_char_absent(t, '-', d2 + 1);
    } else {
        assert(t[h] == '-');
        lemma_find_char_at(t, '-', d2 + 1, h);
        assert(t.skip(h + 1) =~= pre_seq_chars(v.prerelease@));
        lemma_pre_seq_chars_valid(v.prerelease@);
    }
}

proof fn lemma_pre_id_cmp_zero_of_equal_chars(p1: PreId, p2: PreId)
    requires
        wf_pre_id(p1),
        wf_pre_id(p2),
        pre_id_chars(p1) == pre_id_chars(p2),
    ensures
        pre_id_cmp(p1, p2) == 0,
{
    match (p1, p2) {
        (PreId::Num(x), PreId::Num(y)) => {
            lemma_dec_digits_props(x as nat);
            lemma_dec_digits_props(y as nat);
        },
        (PreId::Num(x), PreId::Alpha(t)) => {
            lemma_dec_digits_props(x as nat);
            assert(forall|i: int| 0 <= i < t@.len() ==> is_digit(#[trigger] t@[i]));
        },
        (PreId::Alpha(t), PreId::Num(y)) => {
            lemma_dec_digits_props(y as nat);
            assert(forall|i: int| 0 <= i < t@.len() ==> is_digit(#[trigger] t@[i]));
        },
        (PreId::Alpha(x), PreId::Alpha(y)) => {
            lemma_chars_cmp_antisym(x@, y@);
        },
    }
}

proof fn lemma_pre_seq_cmp_zero_of_equal_chars(ids1: Seq<PreId>, ids2: Seq<PreId>)
    requires
        ids1.len() > 0,
        ids2.len() > 0,
        forall|i: int| 0 <= i < ids1.len() ==> wf_pre_id(#[trigger] ids1[i]),
        forall|i: int| 0 <= i < ids2.len() ==> wf_pre_id(#[trigger] ids2[i]),
        pre_seq_chars(ids1) == pre_seq_chars(ids2),
    ensures
        pre_seq_cmp(ids1, ids2) == 0,
    decreases ids1.len(),
{
    let t = pre_seq_chars(ids1);
    lemma_pre_id_chars_wf(ids1[0]);
    lemma_pre_id_chars_wf(ids2[0]);
    let h1 = pre_id_chars(ids1[0]);
    let h2 = pre_id_chars(ids2[0]);
    if ids1.len() == 1 {
        assert forall|j: int| 0 <= j < t.len() implies t[j] != '.' by {
            assert(id_char(h1[j]));
        }
        if ids2.len() > 1 {
            let rest2 = pre_seq_chars(ids2.skip(1));
            assert(t == h2 + seq!['.'] + rest2);
            assert(t[h2.len() as int] == '.');
        }
        assert(ids2.len() == 1);
        lemma_pre_id_cmp_zero_of_equal_chars(ids1[0], ids2[0]);
        assert(pre_seq_cmp(ids1, ids2) == pre_seq_cmp(ids1.skip(1), ids2.skip(1)));
        assert(ids1.skip(1).len() == 0 && ids2.skip(1).len() == 0);
        assert(pre_seq_cmp(ids1.skip(1), ids2.skip(1)) == 0);
    } else {
        let rest1 = pre_seq_chars(ids1.skip(1));
        assert(t == h1 + seq!['.'] + rest1);
        if ids2.len() == 1 {
            assert forall|j: int| 0 <= j < t.len() implies t[j] != '.' by {
                assert(id_char(h2[j]));
            }
            assert(t[h1.len() as int] == '.');
        }
        assert(ids2.len() > 1);
        let rest2 = pre_seq_chars(ids2.skip(1));
        assert(t == h2 + seq!['.'] + rest2);
        assert forall|j: int| 0 <= j < h1.len() implies t[j] != '.' by {
            assert(t[j] == h1[j]);
            assert(id_char(h1[j]));
        }
        assert forall|j: int| 0 <= j < h2.len() implies t[j] != '.' by {
            assert(t[j] == h2[j]);
            assert(id_char(h2[j]));
        }
        assert(t[h1.len() as int] == '.');
        assert(t[h2.len() as int] == '.');
        lemma_find_char_at(t, '.', 0, h1.len() as int);
        lemma_find_char_at(t, '.', 0, h2.len() as int);
        assert(h1.len() == h2.len());
        assert(h1 =~= h2) by {
            assert(forall|j: int| 0 <= j < h1.len() ==> h1[j] == t[j] && h2[j] == t[j]);
        }
        lemma_pre_id_cmp_zero_of_equal_chars(ids1[0], ids2[0]);
        assert(rest1 =~= rest2) by {
            assert(rest1.len() == t.len() - h1.len() - 1);
            assert(rest2.len() == t.len() - h2.len() - 1);
            assert(forall|j: int|
                0 <= j < rest1.len() ==> rest1[j] == t[h1.len() + 1 + j] && rest2[j] == t[h2.len()
                    + 1 + j]);
        }
        lemma_pre_seq_cmp_zero_of_equal_chars(ids1.skip(1), ids2.skip(1));
        assert(pre_seq_cmp(ids1, ids2) == pre_seq_cmp(ids1.skip(1), ids2.skip(1)));
    }
}

/// The canonical text pins the version down: two well-formed versions
/// with the same rendering have the same numbers and equal precedence —
/// together with [`lemma_version_chars_valid`] and the parser's own
/// contract, rendering a version and parsing the text back is lossless.
pub proof fn lemma_version_chars_injective(v1: Version, v2: Version)
    requires
        wf_version(v1),
        wf_version(v2),
        version_chars(v1) == version_chars(v2),
    ensures
        v1.major == v2.major,
        v1.minor == v2.minor,
        v1.patch == v2.patch,
        version_cmp(v1, v2) == 0,
{
    let t = version_chars(v1);
    let a1 = dec_digits(v1.major as nat);
    let b1 = dec_digits(v1.minor as nat);
    let c1 = dec_digits(v1.patch as nat);
    let a2 = dec_digits(v2.major as nat);
    let b2 = dec_digits(v2.minor as nat);
    let c2 = dec_digits(v2.patch as nat);
    lemma_dec_digits_props(v1.major as nat);
    lemma_dec_digits_props(v1.minor as nat);
    lemma_dec_digits_props(v1.patch as nat);
    lemma_dec_digits_props(v2.major as nat);
    lemma_dec_digits_props(v2.minor as nat);
    lemma_dec_digits_props(v2.patch as nat);
    assert forall|j: int| 0 <= j < a1.len() implies t[j] != '.' by {
        assert(t[j] == a1[j]);
        assert(is_digit(a1[j]));
    }
    assert forall|j: int| 0 <= j < a2.len() implies t[j] != '.' by {
        assert(t[j] == a2[j]);
        assert(is_digit(a2[j]));
    }
    assert(t[a1.len() as int] == '.');
    assert(t[a2.len() as int] == '.');
    lemma_find_char_at(t, '.', 0, a1.len() as int);
    lemma_find_char_at(t, '.', 0, a2.len() as int);
    assert(a1 =~= a2) by {
        assert(a1.len() == a2.len());
        assert(forall|j: int| 0 <= j < a1.len() ==> a1[j] == t[j] && a2[j] == t[j]);
    }
    assert(v1.major == v2.major);
    let d1 = a1.len() as int;
    let e1 = d1 + 1 + b1.len() as int;
    let e2 = d1 + 1 + b2.len() as int;
    assert forall|j: int| d1 + 1 <= j < e1 implies t[j] != '.' by {
        assert(t[j] == b1[j - d1 - 1]);
        assert(is_digit(b1[j - d1 - 1]));
    }
    assert forall|j: int| d1 + 1 <= j < e2 implies t[j] != '.' by {
        assert(t[j] == b2[j - d1 - 1]);
        assert(is_digit(b2[j - d1 - 1]));
    }
    assert(t[e1] == '.');
    assert(t[e2] == '.');
    lemma_find_char_at(t, '.', d1 + 1, e1);
    lemma_find_char_at(t, '.', d1 + 1, e2);
    assert(b1 =~= b2) by {
        assert(b1.len() == b2.len());
        assert(forall|j: int| 0 <= j < b1.len() ==> b1[j] == t[d1 + 1 + j] && b2[j] == t[d1 + 1
            + j]);
    }
    assert(v1.minor == v2.minor);
    let d2 = e1;
    let f1 = d2 + 1 + c1.len() as int;
    let f2 = d2 + 1 + c2.len() as int;
    assert forall|j: int| d2 + 1 <= j < f1 implies t[j] != '-' by {
        assert(t[j] == c1[j - d2 - 1]);
        assert(is_digit(c1[j - d2 - 1]));
    }
    assert forall|j: int| d2 + 1 <= j < f2 implies t[j] != '-' by {
        assert(t[j] == c2[j - d2 - 1]);
        assert(is_digit(c2[j - d2 - 1]));
    }
    if v1.prerelease@.len() == 0 && v2.prerelease@.len() == 0 {
        assert(t.len() == f1);
        assert(t.len() == f2);
    } else if v1.prerelease@.len() == 0 {
        assert(t.len() == f1);
        assert(t[f2] == '-');
        assert(false);
    } else if v2.prerelease@.len() == 0 {
        assert(t.len() == f2);
        assert(t[f1] == '-');
        assert(false);
    } else {
        assert(t[f1] == '-');
        assert(t[f2] == '-');
        lemma_find_char_at(t, '-', d2 + 1, f1);
        lemma_find_char_at(t, '-', d2 + 1, f2);
    }
    assert(c1 =~= c2) by {
        assert(c1.len() == c2.len());
        assert(forall|j: int| 0 <= j < c1.len() ==> c1[j] == t[d2 + 1 + j] && c2[j] == t[d2 + 1
            + j]);
    }
    assert(v1.patch == v2.patch);
    if v1.prerelease@.len() != 0 {
        let p1 = pre_seq_chars(v1.prerelease@);
        let p2 = pre_seq_chars(v2.prerelease@);
        assert(p1 =~= p2) by {
            assert(p1.len() == t.len() - f1 - 1);
            assert(p2.len() == t.len() - f1 - 1);
            assert(forall|j: int| 0 <= j < p1.len() ==> p1[j] == t[f1 + 1 + j] && p2[j] == t[f1 + 1
                + j]);
        }
        lemma_pre_seq_cmp_zero_of_equal_chars(v1.prerelease@, v2.prerelease@);
    }
}

} // verus!
