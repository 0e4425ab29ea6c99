//! Access to the machine's clocks. Nothing is stated of the values read: they
//! depend on when the call is made.
use vstd::prelude::*;

verus! {

#[verifier::external_type_specification]
#[verifier::external_body]
pub struct ExInstant(std::time::Instant);

/// `std::time::Instant::now`: a reading of the monotonic clock.
#[verifier::external_body]
pub fn instant_now() -> (r: std::time::Instant) {
    std::time::Instant::now()
}

/// `Instant::elapsed` of `origin`, in nanoseconds (`Duration::as_nanos`, narrowed to 64 bits).
#[verifier::external_body]
pub fn nanos_since(origin: &std::time::Instant) -> (r: u64) {
    origin.elapsed().as_nanos() as u64
}

/// `SystemTime::now()` as whole seconds since the Unix epoch (`Duration::as_secs`);
/// a clock set before the epoch reads as zero.
#[verifier::external_body]
pub fn now_unix() -> (r: u64) {
    std::time::SystemTime::now()
        .duration_since(std::time::UNIX_EPOCH)
        .map(|d| d.as_secs())
        .unwrap_or(0)
}

} // verus!
