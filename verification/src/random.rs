//! Random cell values, drawn with `rand`.
use rand::Rng;
use vstd::prelude::*;

verus! {

/// `rand::rngs::ThreadRng`, the thread-local random number generator, made
/// known to Verus as an opaque type.
#[verifier::external_type_specification]
#[verifier::external_body]
pub struct ExThreadRng(rand::rngs::ThreadRng);

/// Calls `rand::thread_rng`.  Nothing is claimed of the generator it returns.
#[verifier::external_body]
pub(crate) fn thread_rng() -> rand::rngs::ThreadRng {
    rand::thread_rng()
}

/// Calls `Rng::gen_range` with the inclusive range `low..=high`.  Claimed:
/// the result lies in that range; which value comes out is chance and is not
/// stated.  It panics on an empty range, which the `requires` excludes.
#[verifier::external_body]
pub(crate) fn gen_range_inclusive(rng: &mut rand::rngs::ThreadRng, low: u32, high: u32) -> (r: u32)
    requires
        low <= high,
    ensures
        low <= r <= high,
{
    rng.gen_range(low..=high)
}

} // verus!
