//! Random day offsets, drawn from the thread's generator.

use rand::distr::Distribution;
use rand::distr::Uniform;
use rand::rngs::ThreadRng;
use vstd::prelude::*;

verus! {

/// `rand::rngs::ThreadRng`: a handle to the generator of the current
/// thread. Nothing is known of its state.
#[verifier::external_type_specification]
#[verifier::external_body]
pub struct ExThreadRng(ThreadRng);

/// `rand::rng()`: the handle to the current thread's generator. Nothing is
/// claimed of it. The generator is seeded by the operating system; if that
/// source fails, `rand` stops the thread.
#[verifier::external_body]
pub(crate) fn thread_rng() -> ThreadRng {
    rand::rng()
}

/// `Uniform::new_inclusive(low, high)` followed by one `sample` from it.
/// The distribution exists whenever `low <= high`, and a sample of it lies
/// in the closed range from `low` to `high`; which value comes is left
/// open. Sampling may reseed the generator, on which the note at
/// `thread_rng` applies.
#[verifier::external_body]
pub(crate) fn sample_inclusive(rng: &mut ThreadRng, low: u32, high: u32) -> (value: u32)
    requires
        low <= high,
    ensures
        low <= value <= high,
{
    Uniform::new_inclusive(low, high).unwrap().sample(rng)
}

} // verus!
