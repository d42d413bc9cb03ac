//! Text helpers that the standard library provides without a specification.

use vstd::prelude::*;

verus! {

/// Equality of two string slices.
///
/// Trusted: wraps `str`'s `==`, which holds exactly when both slices are the
/// same sequence of characters.
#[verifier::external_body]
pub(crate) fn str_eq(a: &str, b: &str) -> (same: bool)
    ensures
        same == (a@ == b@),
{
    a == b
}

} // verus!
