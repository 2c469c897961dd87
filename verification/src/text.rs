//! Character-sequence predicates and the small executable string routines
//! that the categorizer is built from: substring search, equality, prefix
//! tests, and lowercasing.

use vstd::prelude::*;

verus! {

/// The needle occurs in the haystack starting at position `i`.
pub open spec fn is_match_at(hay: Seq<char>, needle: Seq<char>, i: int) -> bool {
    &&& 0 <= i
    &&& i + needle.len() <= hay.len()
    &&& forall|j: int| 0 <= j < needle.len() ==> hay[i + j] == needle[j]
}

/// The needle occurs somewhere in the haystack.
pub open spec fn spec_contains(hay: Seq<char>, needle: Seq<char>) -> bool {
    exists|i: int| is_match_at(hay, needle, i)
}

/// The haystack begins with the needle.
pub open spec fn spec_starts_with(hay: Seq<char>, needle: Seq<char>) -> bool {
    is_match_at(hay, needle, 0)
}

/// Check whether `needle` matches `hay` at position `i`.
pub fn match_at(hay: &str, needle: &str, i: usize) -> (r: bool)
    requires
        i + needle@.len() <= hay@.len(),
    ensures
        r == is_match_at(hay@, needle@, i as int),
{
    let hl = hay.unicode_len();
    let nl = needle.unicode_len();
    let mut j: usize = 0;
    while j < nl
        invariant
            hl == hay@.len(),
            nl == needle@.len(),
            i + nl <= hl,
            j <= nl,
            forall|k: int| 0 <= k < j ==> hay@[i + k] == needle@[k],
        decreases nl - j,
    {
        if hay.get_char(i + j) != needle.get_char(j) {
            assert(hay@[i + j] != needle@[j as int]);
            return false;
        }
        j += 1;
    }
    true
}

/// Substring search by scanning every candidate position.
pub fn str_contains(hay: &str, needle: &str) -> (r: bool)
    ensures
        r == spec_contains(hay@, needle@),
{
    let hl = hay.unicode_len();
    let nl = needle.unicode_len();
    if nl > hl {
        assert(forall|i: int| !is_match_at(hay@, needle@, i));
        return false;
    }
    let mut i: usize = 0;
    while i <= hl - nl
        invariant
            hl == hay@.len(),
            nl == needle@.len(),
            nl <= hl,
            i <= hl - nl + 1,
            forall|k: int| 0 <= k < i ==> !is_match_at(hay@, needle@, k),
        decreases hl + 1 - nl - i,
    {
        if match_at(hay, needle, i) {
            return true;
        }
        i += 1;
    }
    assert(forall|k: int| is_match_at(hay@, needle@, k) ==> k <= hl - nl);
    false
}

/// Equality of two string slices, compared character by character.
pub fn str_eq(a: &str, b: &str) -> (r: bool)
    ensures
        r == (a@ == b@),
{
    let al = a.unicode_len();
    let bl = b.unicode_len();
    if al != bl {
        return false;
    }
    if match_at(a, b, 0) {
        assert(a@ =~= b@);
        true
    } else {
        assert(a@ == b@ ==> is_match_at(a@, b@, 0));
        false
    }
}

/// Prefix test.
pub fn str_starts_with(hay: &str, needle: &str) -> (r: bool)
    ensures
        r == spec_starts_with(hay@, needle@),
{
    let hl = hay.unicode_len();
    let nl = needle.unicode_len();
    if nl > hl {
        return false;
    }
    match_at(hay, needle, 0)
}

/// The character is in the ASCII range.
pub open spec fn char_is_ascii(c: char) -> bool {
    (c as u32) < 128
}

/// Every character of the sequence is ASCII.
pub open spec fn seq_is_ascii(s: Seq<char>) -> bool {
    forall|i: int| 0 <= i < s.len() ==> char_is_ascii(s[i])
}

/// ASCII lowercasing of a single character: the letters `A` to `Z` map to
/// their lowercase forms, every other character is unchanged.
pub open spec fn ascii_lower_char(c: char) -> char {
    match c {
        'A' => 'a',
        'B' => 'b',
        'C' => 'c',
        'D' => 'd',
        'E' => 'e',
        'F' => 'f',
        'G' => 'g',
        'H' => 'h',
        'I' => 'i',
        'J' => 'j',
        'K' => 'k',
        'L' => 'l',
        'M' => 'm',
        'N' => 'n',
        'O' => 'o',
        'P' => 'p',
        'Q' => 'q',
        'R' => 'r',
        'S' => 's',
        'T' => 't',
        'U' => 'u',
        'V' => 'v',
        'W' => 'w',
        'X' => 'x',
        'Y' => 'y',
        'Z' => 'z',
        _ => c,
    }
}

/// ASCII lowercasing of a character sequence, character by character.
pub open spec fn ascii_lower_seq(s: Seq<char>) -> Seq<char> {
    s.map_values(|c: char| ascii_lower_char(c))
}

/// What `str::to_lowercase` returns; a function of the characters alone.
pub uninterp spec fn lower_of(s: Seq<char>) -> Seq<char>;

/// The lowercase form of a sequence: on ASCII input Unicode lowercasing acts
/// character by character and agrees with `ascii_lower_seq`; elsewhere it is
/// `lower_of`, named but not spelled out.
pub open spec fn lowered(s: Seq<char>) -> Seq<char> {
    if seq_is_ascii(s) {
        ascii_lower_seq(s)
    } else {
        lower_of(s)
    }
}

/// Relies on `str::to_lowercase`: the result depends on the characters alone,
/// and on an ASCII string it lowercases each character by the ASCII rule.
#[verifier::external_body]
pub fn lowercase(s: &str) -> (r: String)
    ensures
        r@ == lower_of(s@),
        r@ == lowered(s@),
{
    s.to_lowercase()
}

} // verus!
