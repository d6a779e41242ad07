//! Trusted boundary to the random number source.
//!
//! Nothing is assumed about the distribution of the samples: every
//! contract here holds of every possible outcome, and all logic that
//! consumes a sample is verified for every value the contract admits.

use vstd::prelude::*;
use rand::Rng;

verus! {

#[verifier::external_type_specification]
#[verifier::external_body]
pub struct ExThreadRng(rand::rngs::ThreadRng);

/// Relies on rand::thread_rng: yields a handle to the lazily-initialized
/// thread-local generator. Nothing is assumed of the handle.
#[verifier::external_body]
pub(crate) fn fresh_rng() -> rand::rngs::ThreadRng {
    rand::thread_rng()
}

/// Relies on rand::Rng::gen_range over the inclusive `i64` range
/// `lo..=hi`: the sample lies within the bounds. The call panics on an
/// empty range, which the precondition rules out.
#[verifier::external_body]
pub(crate) fn gen_i64_in(rng: &mut rand::rngs::ThreadRng, lo: i64, hi: i64) -> (r: i64)
    requires
        lo <= hi,
    ensures
        lo <= r <= hi,
{
    rng.gen_range(lo..=hi)
}

/// Relies on rand::Rng::gen_range over the inclusive `usize` range
/// `lo..=hi`: the sample lies within the bounds. The call panics on an
/// empty range, which the precondition rules out.
#[verifier::external_body]
pub(crate) fn gen_usize_in(rng: &mut rand::rngs::ThreadRng, lo: usize, hi: usize) -> (r: usize)
    requires
        lo <= hi,
    ensures
        lo <= r <= hi,
{
    rng.gen_range(lo..=hi)
}

} // verus!
