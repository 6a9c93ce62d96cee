//! Small trusted helpers over `str` for the comparisons the library needs,
//! together with verified helpers built on them.

use vstd::prelude::*;

verus! {

/// Relies on str's `==` (its `PartialEq`): true exactly when the two
/// slices hold the same characters.
#[verifier::external_body]
pub(crate) fn str_eq(a: &str, b: &str) -> (r: bool)
    ensures
        r == (a@ == b@),
{
    a == b
}

/// True when `prefix` is an initial segment of `s`.
pub open spec fn spec_starts_with(s: Seq<char>, prefix: Seq<char>) -> bool {
    prefix.len() <= s.len() && s.subrange(0, prefix.len() as int) == prefix
}

/// Relies on str::starts_with: true exactly when `prefix`'s characters
/// begin `s`.
#[verifier::external_body]
pub(crate) fn str_starts_with(s: &str, prefix: &str) -> (r: bool)
    ensures
        r == spec_starts_with(s@, prefix@),
{
    s.starts_with(prefix)
}

/// True when some element of `v` reads as `x`.
pub open spec fn seq_has_str(v: Seq<String>, x: Seq<char>) -> bool {
    exists|i: int| 0 <= i < v.len() && v[i]@ == x
}

/// Membership test for a list of strings, by contents.
pub fn contains_str(v: &Vec<String>, x: &str) -> (r: bool)
    ensures
        r == seq_has_str(v@, x@),
{
    let mut i: usize = 0;
    while i < v.len()
        invariant
            i <= v@.len(),
            forall|j: int| 0 <= j < i ==> v@[j]@ != x@,
        decreases v@.len() - i,
    {
        if str_eq(v[i].as_str(), x) {
            assert(v@[i as int]@ == x@);
            return true;
        }
        i = i + 1;
    }
    false
}

} // verus!
