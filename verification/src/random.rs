//! The source of randomness: the thread-local generator of the `rand` crate.
//!
//! Nothing is proved of the items in this file. Each states only what holds
//! of every draw, so whatever is proved from them holds whatever is drawn.

use rand::Rng;
use vstd::prelude::*;
use crate::fixed::Fixed;

verus! {

/// `rand::rngs::ThreadRng`, a handle to the generator of the current thread.
#[verifier::external_type_specification]
#[verifier::external_body]
pub struct ExThreadRng(rand::rngs::ThreadRng);

/// `rand::thread_rng` hands out the handle; nothing is claimed of it. The
/// call takes no argument, and panics only where the operating system has no
/// entropy to seed the generator with.
pub assume_specification[ rand::thread_rng ]() -> (rng: rand::rngs::ThreadRng);

/// Draws from `Rng::gen_range` on the half-open range `low..high`, which
/// the generator samples uniformly. The call panics on an empty range, so
/// `low < high` is required; the result then lies in the range.
#[verifier::external_body]
pub(crate) fn uniform(rng: &mut rand::rngs::ThreadRng, low: Fixed, high: Fixed) -> (r: Fixed)
    requires
        low.raw < high.raw,
    ensures
        low.raw <= r.raw < high.raw,
{
    Fixed { raw: rng.gen_range(low.raw..high.raw) }
}

} // verus!
