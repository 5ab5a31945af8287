//! Clock source: trusted access to the process's monotonic clock and the
//! system wall clock.
//!
//! A clock reading depends on when it is taken, so nothing is assumed about
//! the values these functions return; everything built on top of them is
//! verified to behave correctly for every possible reading.

use vstd::prelude::*;

verus! {

/// `std::time::Instant`, declared so that timers can hold a reading of the
/// process's monotonic clock.  The value is opaque to the verifier.
#[verifier::external_type_specification]
#[verifier::external_body]
pub struct ExInstant(std::time::Instant);

/// Relies on `std::time::Instant::now`: a reading of the monotonic clock.
#[verifier::external_body]
pub fn instant_now() -> std::time::Instant {
    std::time::Instant::now()
}

/// Relies on `std::time::Instant::elapsed`: the time between the reading
/// `earlier` and now.
#[verifier::external_body]
pub fn instant_elapsed(earlier: &std::time::Instant) -> core::time::Duration {
    earlier.elapsed()
}

/// Relies on `core::time::Duration::as_nanos`: the duration in nanoseconds.
#[verifier::external_body]
pub fn duration_as_nanos(d: &core::time::Duration) -> u128 {
    d.as_nanos()
}

/// Nanoseconds elapsed since the reading `origin` was taken, clamped to the
/// 64-bit range.
pub fn nanos_since(origin: &std::time::Instant) -> u64 {
    let d = instant_elapsed(origin);
    let n = duration_as_nanos(&d);
    if n > u64::MAX as u128 {
        u64::MAX
    } else {
        n as u64
    }
}

/// Relies on `std::time::SystemTime::now` and
/// `SystemTime::duration_since(UNIX_EPOCH)`: the wall clock as nanoseconds
/// since the Unix epoch, zero if the clock sits before the epoch.
#[verifier::external_body]
pub fn unix_time_nanos() -> u64 {
    let d = std::time::SystemTime::now()
        .duration_since(std::time::UNIX_EPOCH)
        .unwrap_or(core::time::Duration::ZERO);
    d.as_nanos() as u64
}

} // verus!
