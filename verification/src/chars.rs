//! Character classification and small string utilities used by the lexer
//! and the location sub-parser.
//!
//! The Unicode character classes are taken from std; each classifier's
//! result is given a name here so that contracts can speak about it.

use vstd::prelude::*;

verus! {

/// Whether a character counts as alphabetic (the start of an identifier).
pub uninterp spec fn alphabetic(c: char) -> bool;

/// Whether a character counts as alphanumeric (the continuation of an
/// identifier).
pub uninterp spec fn alphanumeric(c: char) -> bool;

/// Whether a character counts as whitespace (skipped between tokens).
pub uninterp spec fn whitespace(c: char) -> bool;

/// Relies on char::is_alphabetic: whether the character has the Unicode
/// `Alphabetic` property. The result depends on the character alone.
#[verifier::external_body]
pub(crate) fn char_is_alphabetic(c: char) -> (r: bool)
    ensures
        r == alphabetic(c),
{
    c.is_alphabetic()
}

/// Relies on char::is_alphanumeric: whether the character is alphabetic or
/// a numeric digit under Unicode. The result depends on the character alone.
#[verifier::external_body]
pub(crate) fn char_is_alphanumeric(c: char) -> (r: bool)
    ensures
        r == alphanumeric(c),
{
    c.is_alphanumeric()
}

/// Relies on char::is_whitespace: whether the character has the Unicode
/// `White_Space` property. The result depends on the character alone.
#[verifier::external_body]
pub(crate) fn char_is_whitespace(c: char) -> (r: bool)
    ensures
        r == whitespace(c),
{
    c.is_whitespace()
}

/// Relies on String::from_iter over a vector's characters: builds the string
/// holding exactly the given characters, in order.
#[verifier::external_body]
pub(crate) fn string_from_chars(v: &Vec<char>) -> (r: String)
    ensures
        r@ == v@,
{
    v.iter().collect()
}

/// First index at or after `i` holding a non-whitespace character, or the
/// length of `s` if there is none.
pub open spec fn first_non_ws(s: Seq<char>, i: int) -> int
    decreases s.len() - i,
{
    if i < 0 {
        i
    } else if i >= s.len() {
        s.len() as int
    } else if whitespace(s[i]) {
        first_non_ws(s, i + 1)
    } else {
        i
    }
}

/// Index just past the last non-whitespace character strictly before `j`,
/// or 0 if there is none.
pub open spec fn last_non_ws(s: Seq<char>, j: int) -> int
    decreases j,
{
    if j <= 0 {
        0
    } else if j > s.len() {
        j
    } else if whitespace(s[j - 1]) {
        last_non_ws(s, j - 1)
    } else {
        j
    }
}

/// The characters of `s` with leading and trailing whitespace removed.
pub open spec fn spec_trim(s: Seq<char>) -> Seq<char> {
    let lo = first_non_ws(s, 0);
    let hi = last_non_ws(s, s.len() as int);
    if lo >= hi {
        Seq::empty()
    } else {
        s.subrange(lo, hi)
    }
}

/// Trims leading and trailing whitespace, like str::trim but verified
/// against `spec_trim`.
pub fn trim_str(s: &str) -> (r: &str)
    ensures
        r@ == spec_trim(s@),
{
    let n = s.unicode_len();
    let mut lo: usize = 0;
    while lo < n && char_is_whitespace(s.get_char(lo))
        invariant
            n == s@.len(),
            0 <= lo <= n,
            first_non_ws(s@, 0) == first_non_ws(s@, lo as int),
            forall|k: int| 0 <= k < lo ==> whitespace(s@[k]),
        decreases n - lo,
    {
        lo = lo + 1;
    }
    assert(first_non_ws(s@, lo as int) == lo as int);
    let mut hi: usize = n;
    while hi > lo && char_is_whitespace(s.get_char(hi - 1))
        invariant
            n == s@.len(),
            lo <= hi <= n,
            first_non_ws(s@, 0) == lo as int,
            last_non_ws(s@, n as int) == last_non_ws(s@, hi as int),
        decreases hi,
    {
        hi = hi - 1;
    }
    if hi <= lo {
        assert(last_non_ws(s@, hi as int) <= lo as int) by {
            lemma_last_non_ws_le(s@, hi as int);
        }
        let r = s.substring_char(0, 0);
        assert(r@ =~= spec_trim(s@));
        r
    } else {
        assert(last_non_ws(s@, hi as int) == hi as int);
        let r = s.substring_char(lo, hi);
        assert(r@ =~= spec_trim(s@));
        r
    }
}

/// `last_non_ws` never exceeds its starting index.
proof fn lemma_last_non_ws_le(s: Seq<char>, j: int)
    requires
        0 <= j <= s.len(),
    ensures
        last_non_ws(s, j) <= j,
    decreases j,
{
    if j > 0 && whitespace(s[j - 1]) {
        lemma_last_non_ws_le(s, j - 1);
    }
}

/// Character-for-character string equality, verified against the views.
pub fn str_eq(a: &str, b: &str) -> (r: bool)
    ensures
        r == (a@ == b@),
{
    let na = a.unicode_len();
    let nb = b.unicode_len();
    if na != nb {
        assert(a@ != b@);
        return false;
    }
    let mut i: usize = 0;
    while i < na
        invariant
            na == a@.len(),
            na == b@.len(),
            0 <= i <= na,
            forall|k: int| 0 <= k < i ==> a@[k] == b@[k],
        decreases na - i,
    {
        if a.get_char(i) != b.get_char(i) {
            assert(a@ != b@);
            return false;
        }
        i = i + 1;
    }
    assert(a@ =~= b@);
    true
}

} // verus!
