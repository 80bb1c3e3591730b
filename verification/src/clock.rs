//! The monotonic clock that election timeouts are measured against.
use vstd::prelude::*;
use tokio::time::Instant;

verus! {

#[verifier::external_type_specification]
#[verifier::external_body]
pub struct ExInstant(tokio::time::Instant);

/// Reads the clock with `tokio::time::Instant::now`. The result is the time
/// of the call, so nothing is promised of it.
#[verifier::external_body]
pub(crate) fn instant_now() -> Instant {
    Instant::now()
}

/// Whole milliseconds since `since`, from `tokio::time::Instant::elapsed`
/// (which tokio clamps at zero) and `Duration::as_millis`, cut to `u64`.
/// The result depends on the clock, so nothing is promised of it.
#[verifier::external_body]
pub(crate) fn elapsed_ms(since: &Instant) -> u64 {
    since.elapsed().as_millis() as u64
}

} // verus!
