//! Monotonic timing readings for the kernel-phase measurements.
//!
//! Nothing can be promised of a clock reading, so the wrappers carry no
//! contract; every caller's guarantees hold whatever values come back.

use vstd::prelude::*;

verus! {

#[verifier::external_type_specification]
#[verifier::external_body]
pub struct ExInstant(std::time::Instant);

/// Relies on std::time::Instant::now for a monotonic starting point.
#[verifier::external_body]
pub(crate) fn instant_now() -> std::time::Instant {
    std::time::Instant::now()
}

/// Relies on std::time::Instant::elapsed; yields whole nanoseconds since
/// the starting point, truncated to 64 bits.
#[verifier::external_body]
pub(crate) fn elapsed_nanos(t: &std::time::Instant) -> u64 {
    t.elapsed().as_nanos() as u64
}

} // verus!
