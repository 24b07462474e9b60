//! A payload together with the time at which it is due.

use std::cmp::Ordering;
use vstd::prelude::*;

use crate::timer::timed_manager::reversed_order;
use crate::timer::{deadline_after, get_unix_timestamp, TimerError};

verus! {

/// A payload due at `delay_to` seconds since the epoch. Timed functions
/// compare by deadline, the earlier one being greater.
pub struct TimedFunction<F> {
    delay_to: u64,
    function: F,
}

impl<F> TimedFunction<F> {
    /// The deadline, in seconds since the epoch.
    pub closed spec fn deadline(&self) -> u64 {
        self.delay_to
    }

    /// The payload.
    pub closed spec fn payload(&self) -> F {
        self.function
    }

    /// `function`, due `delay_sec` seconds after `now`; fails when the
    /// deadline overflows.
    pub fn new_at(delay_sec: u64, function: F, now: u64) -> (r: Result<Self, TimerError>)
        ensures
            now + delay_sec <= u64::MAX ==> (r matches Ok(tf) && tf.deadline() == now + delay_sec
                && tf.payload() == function),
            now + delay_sec > u64::MAX ==> r == Err::<Self, TimerError>(
                TimerError::DeadlineOverflow,
            ),
    {
        match deadline_after(now, delay_sec) {
            Ok(t) => Ok(TimedFunction { delay_to: t, function }),
            Err(e) => Err(e),
        }
    }

    /// `function`, due `delay_sec` seconds after the clock reading `reading`:
    /// `ClockBeforeEpoch` when the clock could not be read (`None`),
    /// otherwise as `new_at`.
    pub fn new_after_reading(
        delay_sec: u64,
        function: F,
        reading: Option<u64>,
    ) -> (r: Result<Self, TimerError>)
        ensures
            Self::made_with_reading(delay_sec, function, reading, r),
            reading is None ==> r == Err::<Self, TimerError>(TimerError::ClockBeforeEpoch),
            reading is Some && reading->0 + delay_sec <= u64::MAX ==> (r matches Ok(tf)
                && tf.deadline() == reading->0 + delay_sec && tf.payload() == function),
            reading is Some && reading->0 + delay_sec > u64::MAX ==> r == Err::<Self, TimerError>(
                TimerError::DeadlineOverflow,
            ),
    {
        match reading {
            Some(now) => Self::new_at(delay_sec, function, now),
            None => Err(TimerError::ClockBeforeEpoch),
        }
    }

    /// `function`, due `delay_sec` seconds after the current clock reading,
    /// as `new_after_reading` makes it from that reading.
    pub fn new(delay_sec: u64, function: F) -> (r: Result<Self, TimerError>)
        ensures
            exists|reading: Option<u64>|
                #[trigger] Self::made_with_reading(delay_sec, function, reading, r),
            r matches Ok(tf) ==> tf.deadline() >= delay_sec && tf.payload() == function,
    {
        let reading = get_unix_timestamp();
        let r = Self::new_after_reading(delay_sec, function, reading);
        assert(Self::made_with_reading(delay_sec, function, reading, r));
        r
    }

    /// What making `function` due `delay_sec` seconds after the clock
    /// reading `reading` gives: `ClockBeforeEpoch` without a reading,
    /// `DeadlineOverflow` when the deadline does not fit, and otherwise the
    /// payload due at `now + delay_sec`.
    pub open spec fn made_with_reading(
        delay_sec: u64,
        function: F,
        reading: Option<u64>,
        r: Result<Self, TimerError>,
    ) -> bool {
        match reading {
            None => r == Err::<Self, TimerError>(TimerError::ClockBeforeEpoch),
            Some(now) => if now + delay_sec > u64::MAX {
                r == Err::<Self, TimerError>(TimerError::DeadlineOverflow)
            } else {
                r matches Ok(tf) && tf.deadline() == now + delay_sec && tf.payload() == function
            },
        }
    }

    /// The deadline, in seconds since the epoch.
    pub fn delay_to(&self) -> (t: u64)
        ensures
            t == self.deadline(),
    {
        self.delay_to
    }

    /// Gives up the payload, to be run.
    pub fn exec(self) -> (f: F)
        ensures
            f == self.payload(),
    {
        self.function
    }

    /// Compares by deadline, reversed: the earlier deadline is greater.
    pub fn cmp(&self, other: &Self) -> (o: Ordering)
        ensures
            o == reversed_order(self.deadline(), other.deadline()),
    {
        if self.delay_to < other.delay_to {
            Ordering::Greater
        } else if self.delay_to == other.delay_to {
            Ordering::Equal
        } else {
            Ordering::Less
        }
    }

    /// Compares by deadline, reversed; always comparable.
    pub fn partial_cmp(&self, other: &Self) -> (o: Option<Ordering>)
        ensures
            o == Some(reversed_order(self.deadline(), other.deadline())),
    {
        Some(self.cmp(other))
    }
}

/// Made from the same clock reading, a payload with a shorter delay is due
/// earlier and so compares greater: the timed function due first is the
/// greatest.
pub proof fn lemma_shorter_delay_compares_greater<F>(
    a: TimedFunction<F>,
    b: TimedFunction<F>,
    delay_a: u64,
    delay_b: u64,
    now: u64,
)
    requires
        delay_a < delay_b,
        a.deadline() == now + delay_a,
        b.deadline() == now + delay_b,
    ensures
        reversed_order(a.deadline(), b.deadline()) == Ordering::Greater,
        reversed_order(b.deadline(), a.deadline()) == Ordering::Less,
{
}

} // verus!
