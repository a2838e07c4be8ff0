//! Wall-clock and monotonic time.

use vstd::prelude::*;

verus! {

/// A point on the system's monotonic clock.
#[verifier::external_type_specification]
#[verifier::external_body]
pub struct ExInstant(std::time::Instant);

/// A point on the system's wall clock.
#[verifier::external_type_specification]
#[verifier::external_body]
pub struct ExSystemTime(std::time::SystemTime);

/// Calls `chrono::Utc::now` and `timestamp_millis`: milliseconds since the Unix
/// epoch. Nothing is claimed of the reading.
#[verifier::external_body]
pub(crate) fn utc_millis() -> (now: i64) {
    chrono::Utc::now().timestamp_millis()
}

/// Calls `chrono::Utc::now` and `timestamp`: seconds since the Unix epoch.
/// Nothing is claimed of the reading.
#[verifier::external_body]
pub(crate) fn utc_seconds() -> (now: i64) {
    chrono::Utc::now().timestamp()
}

/// Calls `std::time::SystemTime::now`.
#[verifier::external_body]
fn system_now() -> (now: std::time::SystemTime) {
    std::time::SystemTime::now()
}

/// Calls `std::time::SystemTime::duration_since` with the Unix epoch and gives the
/// whole seconds, or nothing where the time is before it. Nothing is claimed of
/// the reading.
#[verifier::external_body]
fn seconds_after_epoch(time: &std::time::SystemTime) -> (seconds: Option<u64>) {
    time.duration_since(std::time::UNIX_EPOCH).ok().map(|passed| passed.as_secs())
}

/// Seconds since the Unix epoch, zero before it.
pub(crate) fn unix_seconds() -> (now: u64) {
    let time = system_now();
    match seconds_after_epoch(&time) {
        Some(seconds) => seconds,
        None => 0,
    }
}

/// Calls `std::time::Instant::now`.
#[verifier::external_body]
fn instant_now() -> (now: std::time::Instant) {
    std::time::Instant::now()
}

/// Calls `std::time::Instant::elapsed` and gives it in nanoseconds. Nothing is
/// claimed of the reading.
#[verifier::external_body]
fn nanos_since(origin: &std::time::Instant) -> (nanos: u64) {
    origin.elapsed().as_nanos() as u64
}

/// A monotonic clock that counts nanoseconds from the moment it was made.
#[derive(Debug)]
pub struct Clock {
    origin: std::time::Instant,
}

impl Clock {
    /// Starts a clock at zero.
    pub fn new() -> (clock: Self) {
        Clock { origin: instant_now() }
    }

    /// Nanoseconds since the clock was started.
    pub fn nanos(&self) -> (now: u64) {
        nanos_since(&self.origin)
    }
}

} // verus!
