//! The monotonic clock that stamps recorded events.

use std::time::Instant;
use vstd::prelude::*;

verus! {

/// `std::time::Instant`, carried opaquely as the origin of a tracker's clock.
#[verifier::external_type_specification]
#[verifier::external_body]
pub struct ExInstant(Instant);

/// `Instant::now`: the current reading of the monotonic clock.  Nothing is
/// promised of the value, which depends on the time of the call.
#[verifier::external_body]
pub(crate) fn clock_origin() -> (origin: Instant) {
    Instant::now()
}

/// `Instant::elapsed` (as whole nanoseconds): the time that has passed since
/// `origin`.  Nothing is promised of the value, which depends on the time of
/// the call.
#[verifier::external_body]
pub(crate) fn nanos_since(origin: &Instant) -> (nanos: u128) {
    origin.elapsed().as_nanos()
}

} // verus!
