//! Conversions between `String` and character vectors, and a character-wise
//! string comparison.  The JSON codec works on `Vec<char>`; the model types
//! hold `String`s.

use vstd::prelude::*;

verus! {

/// Relies on `str::chars` and `Iterator::collect`: the characters of a
/// string slice, in order.
#[verifier::external_body]
pub fn str_to_chars(s: &str) -> (r: Vec<char>)
    ensures
        r@ == s@,
{
    s.chars().collect()
}

/// Relies on `Iterator::collect` for `String`: the string holding exactly
/// the given characters, in order.
#[verifier::external_body]
pub fn chars_to_string(v: &Vec<char>) -> (r: String)
    ensures
        r@ == v@,
{
    v.iter().collect()
}

/// Whether a character vector holds exactly the characters of a string
/// slice.
pub fn chars_eq_str(k: &Vec<char>, t: &str) -> (r: bool)
    ensures
        r == (k@ == t@),
{
    let n = t.unicode_len();
    if k.len() != n {
        return false;
    }
    let mut i: usize = 0;
    while i < n
        invariant
            0 <= i <= n,
            n == t@.len(),
            k@.len() == n,
            forall|m: int| 0 <= m < i ==> k@[m] == t@[m],
        decreases n - i,
    {
        if k[i] != t.get_char(i) {
            return false;
        }
        i = i + 1;
    }
    proof {
        assert(k@ =~= t@);
    }
    true
}

} // verus!
