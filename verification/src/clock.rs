//! The monotonic clock, read in nanoseconds or milliseconds.
use vstd::prelude::*;

verus! {

#[verifier::external_type_specification]
#[verifier::external_body]
pub struct ExInstant(std::time::Instant);

/// `Instant::now`: the current moment of the monotonic clock.
#[verifier::external_body]
pub(crate) fn instant_now() -> (now: std::time::Instant) {
    std::time::Instant::now()
}

/// `Instant::elapsed` in nanoseconds, saturated to `u64`.
#[verifier::external_body]
pub(crate) fn nanos_since(origin: &std::time::Instant) -> (ns: u64) {
    u64::try_from(origin.elapsed().as_nanos()).unwrap_or(u64::MAX)
}

/// `Instant::elapsed` in whole milliseconds, saturated to `u64`.
#[verifier::external_body]
pub(crate) fn millis_since(origin: &std::time::Instant) -> (ms: u64) {
    u64::try_from(origin.elapsed().as_millis()).unwrap_or(u64::MAX)
}

} // verus!
