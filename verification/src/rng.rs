//! Trusted wrappers around the process-wide random number generator.
//!
//! Selection draws ids, list positions and the shiny roll from `rand`'s
//! thread-local generator. Each wrapper states only what holds of every
//! outcome; nothing is claimed about which value comes back.

use rand::Rng;
use vstd::prelude::*;

verus! {

/// Declares rand's `ThreadRng` so that it can stand in signatures; the
/// type stays opaque.
#[verifier::external_type_specification]
#[verifier::external_body]
pub struct ExThreadRng(rand::rngs::ThreadRng);

/// Relies on rand's `Rng::gen_range` over `0..len`: the draw lies in the
/// (non-empty) range; an empty range would panic, so `len` must be positive.
#[verifier::external_body]
pub(crate) fn rand_index(rng: &mut rand::rngs::ThreadRng, len: usize) -> (r: usize)
    requires
        len >= 1,
    ensures
        r < len,
{
    rng.gen_range(0..len)
}

/// Relies on rand's `Rng::gen_range` over `lo..=hi`: the draw lies in the
/// (non-empty) inclusive range; an empty range would panic.
#[verifier::external_body]
pub(crate) fn rand_id(rng: &mut rand::rngs::ThreadRng, lo: u32, hi: u32) -> (r: u32)
    requires
        lo <= hi,
    ensures
        lo <= r <= hi,
{
    rng.gen_range(lo..=hi)
}

/// Relies on rand's `Rng::gen_ratio`: a Bernoulli draw that is true with
/// probability `numerator / denominator`. A ratio above one or a zero
/// denominator would panic; nothing is claimed about the outcome.
#[verifier::external_body]
pub(crate) fn rand_ratio(rng: &mut rand::rngs::ThreadRng, numerator: u32, denominator: u32) -> (r:
    bool)
    requires
        denominator >= 1,
        numerator <= denominator,
{
    rng.gen_ratio(numerator, denominator)
}

} // verus!
