//! String comparison as the contracts of this crate read it.

use vstd::prelude::*;

verus! {

/// `str`'s `==` from the standard library. Two string slices compare equal
/// exactly when they hold the same characters in the same order, which is
/// what equality of their views means.
pub assume_specification[ <str as PartialEq>::eq ](a: &str, b: &str) -> (r: bool)
    ensures
        r == (a@ == b@),
;

} // verus!
