//! Trusted access to the randomness source.
//!
//! The library treats randomness as an explicit, injectable dependency:
//! every sampling function takes the generator as a parameter, and only
//! the two range samplers below touch the outside crate. Nothing beyond
//! membership in the requested range is ever assumed of a sample.

use vstd::prelude::*;
use rand::Rng;

verus! {

/// Declaration of rand's thread-local generator type, so that sampling
/// functions can take the source of randomness as an explicit parameter.
#[verifier::external_type_specification]
#[verifier::external_body]
pub struct ExThreadRng(rand::rngs::ThreadRng);

/// Relies on rand's `Rng::random_range` over an inclusive `u32` range:
/// with `lo <= hi` the range is non-empty (an empty range would panic)
/// and the call returns a value of the range. Nothing is assumed of the
/// distribution, and the thread-local generator's own environmental
/// failures (reseeding from the operating system) do not depend on
/// these arguments.
#[verifier::external_body]
pub(crate) fn sample_u32_inclusive(rng: &mut rand::rngs::ThreadRng, lo: u32, hi: u32) -> (r: u32)
    requires
        lo <= hi,
    ensures
        lo <= r <= hi,
{
    rng.random_range(lo..=hi)
}

/// Relies on rand's `Rng::random_range` over an inclusive `i64` range:
/// with `lo <= hi` the range is non-empty (an empty range would panic)
/// and the call returns a value of the range.
#[verifier::external_body]
pub(crate) fn sample_i64_inclusive(rng: &mut rand::rngs::ThreadRng, lo: i64, hi: i64) -> (r: i64)
    requires
        lo <= hi,
    ensures
        lo <= r <= hi,
{
    rng.random_range(lo..=hi)
}

} // verus!
