use vstd::prelude::*;
use std::time::Instant;

verus! {

/// `std::time::Instant`: a reading of the monotonic clock.
#[verifier::external_type_specification]
#[verifier::external_body]
pub struct ExInstant(Instant);

/// `Instant::now`: the present reading of the monotonic clock.
#[verifier::external_body]
pub(crate) fn clock_reading() -> Instant {
    Instant::now()
}

/// Nanoseconds in a second.
pub const NANOSECONDS_PER_SECOND: u128 = 1_000_000_000;

/// `Instant::elapsed`, in nanoseconds: the time since a reading was taken.
/// Nothing is claimed of the number.
#[verifier::external_body]
pub(crate) fn nanoseconds_since(reading: &Instant) -> u128 {
    reading.elapsed().as_nanos()
}

} // verus!
