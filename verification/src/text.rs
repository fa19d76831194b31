use vstd::prelude::*;
use vstd::string::StrSliceExecFns;

verus! {

/// The character sequence that `str::trim` leaves after removing leading and
/// trailing whitespace; kept opaque because Unicode whitespace has many cases.
pub uninterp spec fn trimmed(s: Seq<char>) -> Seq<char>;

/// The character sequence that `str::to_lowercase` maps a string to; kept
/// opaque because Unicode case mapping has many cases.
pub uninterp spec fn lowered(s: Seq<char>) -> Seq<char>;

/// An email in canonical form: surrounding whitespace removed, then lowercased.
pub open spec fn normalized_email(s: Seq<char>) -> Seq<char> {
    lowered(trimmed(s))
}

/// Relies on `str::trim`: it returns the input with leading and trailing
/// whitespace removed, a contiguous part of the input, so the result depends
/// on the characters alone and is never longer than the input.
#[verifier::external_body]
pub(crate) fn trim_str(s: &str) -> (r: &str)
    ensures
        r@ == trimmed(s@),
        r@.len() <= s@.len(),
{
    s.trim()
}

/// Relies on `str::to_lowercase`: the result depends on the characters alone.
#[verifier::external_body]
pub(crate) fn lower_str(s: &str) -> (r: String)
    ensures
        r@ == lowered(s@),
{
    s.to_lowercase()
}

/// True exactly when `c` occurs among the characters of `s`.
pub fn str_contains_char(s: &str, c: char) -> (b: bool)
    ensures
        b == s@.contains(c),
{
    let n = s.unicode_len();
    let mut i: usize = 0;
    while i < n
        invariant
            n == s@.len(),
            0 <= i <= n,
            forall|j: int| 0 <= j < i ==> s@[j] != c,
        decreases n - i,
    {
        if s.get_char(i) == c {
            assert(s@.contains(c)) by {
                assert(s@[i as int] == c);
            }
            return true;
        }
        i += 1;
    }
    false
}

} // verus!
