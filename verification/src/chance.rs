//! The random draws of the scrambling transforms.

use rand::rngs::ThreadRng;
use rand::Rng;
use vstd::prelude::*;

verus! {

/// rand's handle to the random number generator of the current thread.
#[verifier::external_type_specification]
#[verifier::external_body]
pub struct ExThreadRng(ThreadRng);

/// `rand::thread_rng` hands out the generator of the current thread; nothing
/// is claimed of it.
pub assume_specification[ rand::thread_rng ]() -> (rng: ThreadRng);

/// A number below `bound`, drawn with rand's `Rng::gen_range` from zero
/// (inclusive) to `bound` (exclusive). Which number comes is left open; an
/// empty range, on which that function panics, is left out.
#[verifier::external_body]
pub(crate) fn draw_below(rng: &mut ThreadRng, bound: usize) -> (out: usize)
    requires
        bound > 0,
    ensures
        out < bound,
{
    rng.gen_range(0, bound)
}

} // verus!
