//! The single source of randomness: one uniform draw per slashing trial.

use vstd::prelude::*;
use crate::state::RATE_SCALE;

verus! {

/// Relies on rand::random_range: a uniform draw from `0..RATE_SCALE` via
/// the thread-local generator. Nothing can be promised about which value
/// comes back beyond its range.
#[verifier::external_body]
pub fn draw_rate() -> (r: u64)
    ensures
        r < RATE_SCALE,
{
    rand::random_range(0u64..RATE_SCALE)
}

} // verus!
