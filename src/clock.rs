//! The clocks the library reads: the wall clock through chrono, and the monotonic
//! clock through tokio. Nothing is known of a reading but its type.
use vstd::prelude::*;

verus! {

/// tokio::time::Instant, a reading of the monotonic clock, held opaque.
#[verifier::external_type_specification]
#[verifier::external_body]
pub struct ExTokioInstant(tokio::time::Instant);

/// Relies on tokio::time::Instant::now: a reading of the monotonic clock.
#[verifier::external_body]
pub(crate) fn monotonic_now() -> (r: tokio::time::Instant) {
    tokio::time::Instant::now()
}

/// Relies on tokio::time::Instant::elapsed (which saturates at zero): the
/// milliseconds since `since`, cut to 64 bits.
#[verifier::external_body]
pub(crate) fn millis_since(since: &tokio::time::Instant) -> (r: u64) {
    since.elapsed().as_millis() as u64
}

/// Relies on chrono::Utc::now and DateTime::timestamp_millis: the wall-clock
/// time in milliseconds since the Unix epoch. chrono measures it as the
/// duration since the epoch, so it is never negative (chrono panics on a
/// system clock set before 1970).
#[verifier::external_body]
pub(crate) fn utc_now_millis() -> (r: i64)
    ensures
        r >= 0,
{
    chrono::Utc::now().timestamp_millis()
}

} // verus!
