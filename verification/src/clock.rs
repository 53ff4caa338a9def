//! The monotonic clock that rate limiting and request timing read.

use std::time::Instant;
use vstd::prelude::*;

verus! {

#[verifier::external_type_specification]
#[verifier::external_body]
pub struct ExInstant(Instant);

/// Calls `Instant::now`. The reading depends on the time of the call, so
/// nothing is stated of it.
#[verifier::external_body]
pub fn instant_now() -> Instant {
    Instant::now()
}

/// Calls `Instant::elapsed` and reads the duration in nanoseconds. The
/// reading depends on the time of the call, so nothing is stated of it.
#[verifier::external_body]
pub fn nanos_since(start: &Instant) -> u128 {
    start.elapsed().as_nanos()
}

} // verus!
