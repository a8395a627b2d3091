//! Trusted boundary to the `rand` crate.
//!
//! The simulation code takes an injected `StdRng` and draws every random
//! value through [`draw_in_range`], whose contract states only what holds of
//! every possible outcome: the draw lies in the requested half-open range.

use vstd::prelude::*;

verus! {

/// Relies on `rand::rngs::StdRng` being an ordinary owned value; declared so
/// that it can appear in signatures. Verified code never looks inside it.
#[verifier::external_type_specification]
#[verifier::external_body]
pub struct ExStdRng(rand::rngs::StdRng);

/// Relies on `rand`'s `Rng::gen_range` over a half-open `u64` range: it
/// returns a uniform draw from `[lo, hi)` and panics only on an empty range,
/// which the precondition rules out. Nothing is claimed beyond membership in
/// the range, since the value depends on the state of the generator.
#[verifier::external_body]
pub(crate) fn draw_in_range(rng: &mut rand::rngs::StdRng, lo: u64, hi: u64) -> (r: u64)
    requires
        lo < hi,
    ensures
        lo <= r < hi,
{
    rand::Rng::gen_range(rng, lo..hi)
}

} // verus!
