use vstd::prelude::*;

use rand::Rng;

verus! {

#[verifier::external_type_specification]
#[verifier::external_body]
pub struct ExThreadRng(rand::rngs::ThreadRng);

/// Calls `rand::thread_rng`: the thread-local generator, seeded by the
/// operating system.  Nothing is claimed of it; the call panics only when the
/// operating system cannot provide a seed, which nothing here can rule out.
#[verifier::external_body]
pub(crate) fn thread_rng() -> rand::rngs::ThreadRng {
    rand::thread_rng()
}

/// Calls `Rng::gen_range(low..high)` on `i32`: rand documents that the sample
/// lies in the half-open range and that the call panics on an empty range,
/// which `requires` rules out.  Which value comes back is left open.
#[verifier::external_body]
pub(crate) fn gen_range_i32(rng: &mut rand::rngs::ThreadRng, low: i32, high: i32) -> (r: i32)
    requires
        low < high,
    ensures
        low <= r < high,
{
    rng.gen_range(low..high)
}

} // verus!
