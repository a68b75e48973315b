//! The one chance-dependent operation: drawing an index for random day
//! selection.

use vstd::prelude::*;
use rand::Rng;

verus! {

/// Relies on `rand::rng()` and `rand::Rng::random_range` over `0..n`:
/// the documentation promises a draw uniform over the non-empty range,
/// so every outcome lies below `n`; nothing more can be said of a
/// random value.
#[verifier::external_body]
pub(crate) fn random_below(n: usize) -> (r: usize)
    requires
        n > 0,
    ensures
        r < n,
{
    let mut rng = rand::rng();
    rng.random_range(0..n)
}

} // verus!
