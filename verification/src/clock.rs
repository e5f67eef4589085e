//! The wall clock behind the per-frame time budget. Nothing can be
//! promised of a clock reading, so the update loop's contracts hold for
//! every value these return.

use vstd::prelude::*;

verus! {

#[verifier::external_type_specification]
#[verifier::external_body]
pub struct ExInstant(std::time::Instant);

/// Relies on std::time::Instant::now: an opaque monotonic clock reading.
#[verifier::external_body]
pub fn instant_now() -> std::time::Instant {
    std::time::Instant::now()
}

/// Relies on std::time::Instant::elapsed: the time since `start`,
/// converted to whole nanoseconds in a plain integer.
#[verifier::external_body]
pub fn elapsed_nanos(start: &std::time::Instant) -> u64 {
    start.elapsed().as_nanos() as u64
}

} // verus!
