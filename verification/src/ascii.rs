//! Case-insensitive comparison of ASCII byte strings, the footing for
//! the protocol's case-blind command tokens.

use vstd::prelude::*;

verus! {

/// The byte value of ASCII `a`.
pub const LOWER_A: u8 = 97;

/// The byte value of ASCII `z`.
pub const LOWER_Z: u8 = 122;

/// The distance between an ASCII lowercase letter and its capital.
pub const CASE_GAP: u8 = 32;

/// ASCII uppercase of one byte: a lowercase letter folds to its capital,
/// every other byte is unchanged. Bytes outside the ASCII letters never
/// compare equal to letters under this fold.
pub open spec fn spec_upcase(b: u8) -> u8 {
    if LOWER_A <= b && b <= LOWER_Z {
        (b - CASE_GAP) as u8
    } else {
        b
    }
}

/// Two byte strings are equal ignoring ASCII case: same length, and each
/// pair of bytes folds to the same uppercase byte.
pub open spec fn spec_eq_ignore_case(a: Seq<u8>, b: Seq<u8>) -> bool {
    a.len() == b.len() && (forall|i: int| 0 <= i < a.len() ==> spec_upcase(a[i]) == spec_upcase(b[i]))
}

/// Uppercases one ASCII byte.
pub fn ascii_upcase(ascii: u8) -> (r: u8)
    ensures
        r == spec_upcase(ascii),
{
    if ascii >= LOWER_A && ascii <= LOWER_Z {
        ascii - CASE_GAP
    } else {
        ascii
    }
}

/// Compares two byte strings for equality ignoring ASCII case.
pub fn ascii_upcase_compare(s: &[u8], against: &[u8]) -> (r: bool)
    ensures
        r == spec_eq_ignore_case(s@, against@),
{
    if s.len() != against.len() {
        return false;
    }
    let n = s.len();
    let mut i: usize = 0;
    while i < n
        invariant
            n == s@.len() == against@.len(),
            0 <= i <= n,
            forall|j: int| 0 <= j < i ==> spec_upcase(s@[j]) == spec_upcase(against@[j]),
        decreases n - i,
    {
        if ascii_upcase(s[i]) != ascii_upcase(against[i]) {
            return false;
        }
        i = i + 1;
    }
    true
}

/// Whether every byte is ASCII: below 127. The wire protocol is ASCII
/// only; a byte of 127 or above is a hard error at the reader boundary.
pub open spec fn spec_all_ascii(s: Seq<u8>) -> bool {
    forall|i: int| 0 <= i < s.len() ==> s[i] < 127
}

/// Tests that a line holds only ASCII bytes.
pub fn all_ascii(s: &[u8]) -> (r: bool)
    ensures
        r == spec_all_ascii(s@),
{
    let n = s.len();
    let mut i: usize = 0;
    while i < n
        invariant
            n == s@.len(),
            0 <= i <= n,
            forall|j: int| 0 <= j < i ==> s@[j] < 127,
        decreases n - i,
    {
        if s[i] >= 127 {
            return false;
        }
        i = i + 1;
    }
    true
}

/// Byte strings that are case-insensitively equal match exactly the same
/// byte strings under case-insensitive comparison: which command a token
/// names never depends on the case it was sent in.
pub proof fn lemma_eq_ignore_case_congruence(a: Seq<u8>, b: Seq<u8>, c: Seq<u8>)
    requires
        spec_eq_ignore_case(a, b),
    ensures
        spec_eq_ignore_case(a, c) == spec_eq_ignore_case(b, c),
{
    if spec_eq_ignore_case(a, c) {
        assert forall|i: int| 0 <= i < b.len() implies spec_upcase(b[i]) == spec_upcase(c[i]) by {
            assert(spec_upcase(a[i]) == spec_upcase(b[i]));
        }
    }
    if spec_eq_ignore_case(b, c) {
        assert forall|i: int| 0 <= i < a.len() implies spec_upcase(a[i]) == spec_upcase(c[i]) by {
            assert(spec_upcase(a[i]) == spec_upcase(b[i]));
        }
    }
}

/// Compares two byte strings for equality ignoring ASCII case.
pub fn ascii_eq_ignore_case(a: &[u8], b: &[u8]) -> (r: bool)
    ensures
        r == spec_eq_ignore_case(a@, b@),
{
    if a.len() == b.len() {
        ascii_upcase_compare(a, b)
    } else {
        false
    }
}

} // verus!
