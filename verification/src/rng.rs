//! The source of random draws.

use vstd::prelude::*;

verus! {

/// Calls `nannou`: draws from the half-open range `0..bound` with
/// `nannou::rand::random_range`, which samples the range with the
/// thread-local generator of `rand`.
///
/// Sampling panics on an empty range, so `bound` must be positive. The value
/// drawn lies in the range; nothing else is claimed of it, and two calls may
/// differ.
#[verifier::external_body]
pub(crate) fn random_below(bound: u32) -> (draw: u32)
    requires
        bound > 0,
    ensures
        draw < bound,
{
    nannou::rand::random_range(0, bound)
}

} // verus!
