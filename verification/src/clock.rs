//! Readings of the system clock.
use vstd::prelude::*;

verus! {

/// A reading of the system clock (`std::time::SystemTime`), carried without
/// being looked into.
#[verifier::external_type_specification]
#[verifier::external_body]
pub struct ExSystemTime(std::time::SystemTime);

/// The system clock now (`SystemTime::now`). Nothing is promised of the
/// reading: it depends on the machine and the moment.
#[verifier::external_body]
fn system_now() -> std::time::SystemTime {
    std::time::SystemTime::now()
}

/// The time from the Unix epoch to `t` (`SystemTime::duration_since` with
/// `UNIX_EPOCH`), or `None` when `t` is earlier than the epoch. Nothing is
/// stated of the duration, which depends on the reading.
#[verifier::external_body]
fn since_unix_epoch(t: &std::time::SystemTime) -> Option<std::time::Duration> {
    t.duration_since(std::time::UNIX_EPOCH).ok()
}

/// The whole nanoseconds of a duration (`Duration::as_nanos`). Durations are
/// opaque here, so nothing is stated of the count.
#[verifier::external_body]
fn duration_nanos(d: &std::time::Duration) -> u128 {
    d.as_nanos()
}

/// Nanoseconds since the Unix epoch by the system clock, or `None` when the
/// clock reads earlier than the epoch.
pub(crate) fn clock_nanos_since_epoch() -> Option<u128> {
    let now = system_now();
    match since_unix_epoch(&now) {
        Some(elapsed) => Some(duration_nanos(&elapsed)),
        None => None,
    }
}

/// Whole milliseconds of a reading in nanoseconds, truncated to 64 bits as
/// `as_millis() as u64` does.
pub open spec fn millis_of(nanos: u128) -> u64 {
    ((nanos as nat / 1_000_000) % 0x1_0000_0000_0000_0000) as u64
}

/// Milliseconds since the Unix epoch, truncated to 64 bits; zero when the clock
/// reads earlier than the epoch.
pub fn current_timestamp() -> (ms: u64)
{
    match clock_nanos_since_epoch() {
        Some(nanos) => millis_from_nanos(nanos),
        None => 0,
    }
}

/// The millisecond count of a nanosecond reading.
pub fn millis_from_nanos(nanos: u128) -> (ms: u64)
    ensures
        ms == millis_of(nanos),
{
    ((nanos / 1_000_000) % 0x1_0000_0000_0000_0000) as u64
}

} // verus!
