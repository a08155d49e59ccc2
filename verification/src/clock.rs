use vstd::prelude::*;
use std::time::{Duration, SystemTime, SystemTimeError};

verus! {

/// `std::time::SystemTime`, carried through opaque.
#[verifier::external_type_specification]
#[verifier::external_body]
pub struct ExSystemTime(std::time::SystemTime);

/// `std::time::SystemTimeError`, carried through opaque.
#[verifier::external_type_specification]
#[verifier::external_body]
pub struct ExSystemTimeError(std::time::SystemTimeError);

/// `SystemTime::now`: the clock's current time; nothing is claimed of it.
#[verifier::external_body]
fn system_time_now() -> SystemTime {
    SystemTime::now()
}

/// `SystemTime::duration_since(UNIX_EPOCH)`: nothing is claimed of the
/// outcome, which depends on the clock.
#[verifier::external_body]
fn since_unix_epoch(t: &SystemTime) -> Result<Duration, SystemTimeError> {
    t.duration_since(std::time::UNIX_EPOCH)
}

/// `Duration::as_secs`; nothing is claimed of the value.
#[verifier::external_body]
fn duration_as_secs(d: &Duration) -> u64 {
    d.as_secs()
}

/// `Duration::as_millis`; nothing is claimed of the value.
#[verifier::external_body]
fn duration_as_millis(d: &Duration) -> u128 {
    d.as_millis()
}

/// `Duration::as_nanos`; nothing is claimed of the value.
#[verifier::external_body]
fn duration_as_nanos(d: &Duration) -> u128 {
    d.as_nanos()
}

/// The Unix timestamp in seconds for a clock reading: the whole seconds
/// since the epoch (wrapped into `i64`), or 0 for a clock before the epoch
/// (`None`).
pub fn timestamp_of(secs_since_epoch: Option<u64>) -> (r: i64)
    ensures
        r == (match secs_since_epoch {
            Some(s) => s as i64,
            None => 0i64,
        }),
{
    match secs_since_epoch {
        Some(s) => s as i64,
        None => 0,
    }
}

/// A count of milliseconds or nanoseconds since the epoch as a `u64`
/// (truncated), or 0 for a clock before the epoch (`None`).
pub fn count_of(since_epoch: Option<u128>) -> (r: u64)
    ensures
        r == (match since_epoch {
            Some(c) => c as u64,
            None => 0u64,
        }),
{
    match since_epoch {
        Some(c) => c as u64,
        None => 0,
    }
}

/// The current Unix time in seconds; 0 when the clock is before the epoch.
pub fn current_timestamp() -> i64 {
    let now = system_time_now();
    let secs = match since_unix_epoch(&now) {
        Ok(d) => Some(duration_as_secs(&d)),
        Err(_) => None,
    };
    timestamp_of(secs)
}

/// The current Unix time in milliseconds; 0 when the clock is before the
/// epoch.
pub fn unix_ms_now() -> u64 {
    let now = system_time_now();
    let millis = match since_unix_epoch(&now) {
        Ok(d) => Some(duration_as_millis(&d)),
        Err(_) => None,
    };
    count_of(millis)
}

/// An iterator id made of the current Unix time in nanoseconds; 0 when the
/// clock is before the epoch.
pub fn generate_unique_id() -> u64 {
    let now = system_time_now();
    let nanos = match since_unix_epoch(&now) {
        Ok(d) => Some(duration_as_nanos(&d)),
        Err(_) => None,
    };
    count_of(nanos)
}

/// An event id for event ordering.
#[derive(Debug, Clone, Copy, PartialEq, Eq, Structural)]
pub struct EventId {
    pub since: u64,
    pub timestamp: i64,
}

impl EventId {
    /// The given event id with the current timestamp.
    pub fn now_with_id(since: u64) -> (r: EventId)
        ensures
            r.since == since,
    {
        let timestamp = current_timestamp();
        EventId { since, timestamp }
    }
}

impl Default for EventId {
    fn default() -> (r: Self)
        ensures
            r.since == 0,
            r.timestamp == 0,
    {
        EventId { since: 0, timestamp: 0 }
    }
}

} // verus!
