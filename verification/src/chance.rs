//! Random draws.

use rand::Rng;
use vstd::prelude::*;

verus! {

/// `rand::Rng::gen_range` over `0..bound` on `rand::thread_rng()`: some
/// number below `bound`, and nothing more is known of it. An empty range is
/// left out, on which the call panics; it also panics where the operating
/// system gives the thread's generator no seed. The generator draws until a
/// draw falls into the range's zone, which each draw does more likely than
/// not.
#[verifier::external_body]
pub(crate) fn random_below(bound: usize) -> (draw: usize)
    requires
        bound > 0,
    ensures
        draw < bound,
{
    rand::thread_rng().gen_range(0..bound)
}

} // verus!
