//! The one place the simulation draws randomness from.

use vstd::prelude::*;

verus! {

/// Relies on `rand::random_range` over a half-open `i64` range: it panics
/// only on an empty range (ruled out here) and returns a value drawn from
/// the range, so every result lies in `[lo, hi)`.  Nothing more is assumed
/// of the draw.
#[verifier::external_body]
pub(crate) fn random_in_range(lo: i64, hi: i64) -> (r: i64)
    requires
        lo < hi,
    ensures
        lo <= r < hi,
{
    rand::random_range(lo..hi)
}

} // verus!
