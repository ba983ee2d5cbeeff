//! Trusted boundary to the monotonic clock that times a point query.
//! A clock reading depends on the machine and the moment, so none of these
//! carries a promise about its value.

use vstd::prelude::*;

verus! {

#[verifier::external_type_specification]
#[verifier::external_body]
pub struct ExInstant(std::time::Instant);

/// Relies on `std::time::Instant::now`: one monotonic clock reading.
#[verifier::external_body]
pub fn clock_now() -> std::time::Instant {
    std::time::Instant::now()
}

/// Relies on `std::time::Instant::elapsed`: the span since the earlier reading.
#[verifier::external_body]
pub fn clock_elapsed(start: &std::time::Instant) -> core::time::Duration {
    start.elapsed()
}

/// Relies on `core::time::Duration::as_nanos`: the whole span in nanoseconds.
#[verifier::external_body]
pub fn duration_nanos(d: &core::time::Duration) -> u128 {
    d.as_nanos()
}

} // verus!
