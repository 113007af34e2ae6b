//! The one boundary to the random number generator.
//!
//! Everything the engine proves holds for every value these functions may
//! return; the contracts state only the range bounds that the generator
//! documents.
use vstd::prelude::*;

verus! {

/// Relies on `rand::Rng::gen_range` (on `rand::thread_rng`): returns a value
/// of the half-open range `lo..hi`. The call panics on an empty range, so an
/// empty range is excluded here.
#[verifier::external_body]
pub(crate) fn gen_range(lo: usize, hi: usize) -> (r: usize)
    requires
        lo < hi,
    ensures
        lo <= r < hi,
{
    rand::Rng::gen_range(&mut rand::thread_rng(), lo..hi)
}

} // verus!
