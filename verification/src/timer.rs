//! Deferred execution by deadline: the clock, single timed payloads, and the
//! queue that decides which payload is due next.

pub mod timed_function;
pub mod timed_manager;
pub mod timer_starter;

use std::time::{Duration, SystemTime};
use vstd::prelude::*;

verus! {

#[verifier::external_type_specification]
#[verifier::external_body]
pub struct ExSystemTime(SystemTime);

/// Why a deadline could not be set.
#[derive(Debug, PartialEq, Eq, Structural)]
pub enum TimerError {
    /// The system clock reads earlier than the Unix epoch.
    ClockBeforeEpoch,
    /// The deadline does not fit in 64 bits of seconds.
    DeadlineOverflow,
}

/// Calls `std::time::SystemTime::now`. Nothing is claimed of the reading.
#[verifier::external_body]
fn system_time_now() -> SystemTime {
    SystemTime::now()
}

/// Calls `SystemTime::duration_since(UNIX_EPOCH)` on `t`; `None` when `t`
/// is earlier than the epoch. Durations are opaque here; nothing is claimed.
#[verifier::external_body]
fn since_unix_epoch(t: SystemTime) -> Option<Duration> {
    t.duration_since(std::time::UNIX_EPOCH).ok()
}

/// Calls `Duration::as_secs`: the whole seconds of `d`. Durations are opaque
/// here; nothing is claimed.
#[verifier::external_body]
fn whole_seconds(d: Duration) -> u64 {
    d.as_secs()
}

/// Whole seconds since the Unix epoch, or `None` when the clock reads
/// earlier than the epoch.
pub fn get_unix_timestamp() -> Option<u64> {
    match since_unix_epoch(system_time_now()) {
        Some(d) => Some(whole_seconds(d)),
        None => None,
    }
}

/// The deadline `delay` seconds after `now`, unless it overflows.
pub fn deadline_after(now: u64, delay: u64) -> (r: Result<u64, TimerError>)
    ensures
        now + delay <= u64::MAX ==> r == Ok::<u64, TimerError>((now + delay) as u64),
        now + delay > u64::MAX ==> r == Err::<u64, TimerError>(TimerError::DeadlineOverflow),
{
    match now.checked_add(delay) {
        Some(t) => Ok(t),
        None => Err(TimerError::DeadlineOverflow),
    }
}

} // verus!
