//! The crate's single point of contact with the `rand` crate: a bounded
//! integer draw from the caller-supplied thread-local generator.

use rand::Rng;
use vstd::prelude::*;

verus! {

/// Declares rand's thread-local generator `rand::rngs::ThreadRng` so that
/// values of it can pass through verified signatures; the crate never looks
/// inside one.
#[verifier::external_type_specification]
#[verifier::external_body]
pub struct ExThreadRng(rand::rngs::ThreadRng);

/// Relies on rand's `Rng::gen_range` over `lo..hi`: it returns a value of the
/// half-open range and panics only when the range is empty, which the
/// precondition rules out. Nothing more is assumed of the draw: callers must
/// hold for every value of the range.
#[verifier::external_body]
pub(crate) fn rand_in_range(rng: &mut rand::rngs::ThreadRng, lo: i64, hi: i64) -> (r: i64)
    requires
        lo < hi,
    ensures
        lo <= r < hi,
{
    rng.gen_range(lo..hi)
}

} // verus!
