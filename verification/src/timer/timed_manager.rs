//! The timer queue: payloads waiting under fresh UUIDs, a queue of
//! deadlines, and the payload loaded to run next.

use std::cmp::Ordering;
use std::collections::HashMap;
use vstd::multiset::Multiset;
use vstd::prelude::*;

use crate::ids::{fresh_key, is_v4};
use crate::timer::{deadline_after, get_unix_timestamp, TimerError};

verus! {

broadcast use {
    vstd::std_specs::hash::group_hash_axioms,
    vstd::seq_lib::group_to_multiset_ensures,
    vstd::multiset::group_multiset_axioms,
};

/// A queue entry: the payload `uuid` is due at `target_time` (seconds since
/// the epoch). Entries compare by deadline, the earlier one being greater,
/// so that a max-first queue yields the earliest deadline; two entries are
/// equal when they name the same payload.
pub struct ComparableUUid {
    pub target_time: u64,
    pub uuid: u128,
}

/// The order of two deadlines in the queue: the earlier deadline is greater.
pub open spec fn reversed_order(a: u64, b: u64) -> Ordering {
    if a < b {
        Ordering::Greater
    } else if a == b {
        Ordering::Equal
    } else {
        Ordering::Less
    }
}

impl ComparableUUid {
    /// Compares by deadline, reversed.
    pub fn cmp(&self, other: &Self) -> (o: Ordering)
        ensures
            o == reversed_order(self.target_time, other.target_time),
    {
        if self.target_time < other.target_time {
            Ordering::Greater
        } else if self.target_time == other.target_time {
            Ordering::Equal
        } else {
            Ordering::Less
        }
    }

    /// Compares by deadline, reversed; always comparable.
    pub fn partial_cmp(&self, other: &Self) -> (o: Option<Ordering>)
        ensures
            o == Some(reversed_order(self.target_time, other.target_time)),
    {
        Some(self.cmp(other))
    }
}

impl PartialEq for ComparableUUid {
    fn eq(&self, other: &Self) -> (r: bool) {
        self.uuid == other.uuid
    }
}

impl vstd::std_specs::cmp::PartialEqSpecImpl for ComparableUUid {
    open spec fn obeys_eq_spec() -> bool {
        true
    }

    open spec fn eq_spec(&self, other: &Self) -> bool {
        self.uuid == other.uuid
    }
}

/// Whether some entry of `queue` names the payload `uuid`.
pub open spec fn queued(queue: Multiset<ComparableUUid>, uuid: u128) -> bool {
    exists|t: u64| queue.count(ComparableUUid { target_time: t, uuid }) > 0
}

/// Entries left in `after` are entries of `before`; every entry that was
/// taken out named no payload of `pending` and was due no later than `t`.
pub open spec fn dropped_stale_before<F>(
    before: Multiset<ComparableUUid>,
    after: Multiset<ComparableUUid>,
    pending: Map<u128, F>,
    t: u64,
) -> bool {
    &&& forall|x: ComparableUUid| #[trigger] after.count(x) <= before.count(x)
    &&& forall|x: ComparableUUid|
        #[trigger] after.count(x) < before.count(x) ==> !pending.contains_key(x.uuid)
            && x.target_time <= t
}

/// How long to wait before the loaded payload is due.
pub open spec fn spec_next_delay(next_timestamp: Option<u64>, now: Option<u64>) -> Option<u64> {
    match next_timestamp {
        Some(t) => match now {
            Some(n) => if t > n {
                Some((t - n) as u64)
            } else {
                Some(0)
            },
            None => None,
        },
        None => None,
    }
}

/// What a run of the queue does next.
#[derive(Debug, PartialEq, Eq, Structural)]
pub enum ExecuteStep {
    /// Nothing is loaded, or the loaded payload is not due yet.
    Finished,
    /// The loaded payload is due: take it, run it, load the next one.
    RunNext,
    /// The clock could not be read; ask again.
    ClockUnavailable,
}

/// The step a run takes when the loaded deadline is `next_timestamp` and the
/// clock reads `now`.
pub open spec fn spec_execute_step(next_timestamp: Option<u64>, now: Option<u64>) -> ExecuteStep {
    match next_timestamp {
        None => ExecuteStep::Finished,
        Some(t) => match now {
            Some(n) => if t <= n {
                ExecuteStep::RunNext
            } else {
                ExecuteStep::Finished
            },
            None => ExecuteStep::ClockUnavailable,
        },
    }
}

/// Payloads waiting for their deadlines.
pub struct TimedManager<F> {
    function_map: HashMap<u128, F>,
    heap: Vec<ComparableUUid>,
    next_exec: Option<(u128, F)>,
    next_timestamp: Option<u64>,
}

impl<F> TimedManager<F> {
    /// The payloads waiting to be loaded, by UUID.
    pub closed spec fn pending(&self) -> Map<u128, F> {
        self.function_map@
    }

    /// The deadlines in the queue.
    pub closed spec fn queue(&self) -> Multiset<ComparableUUid> {
        self.heap@.to_multiset()
    }

    /// The payload loaded to run next, with its UUID.
    pub closed spec fn next_exec(&self) -> Option<(u128, F)> {
        self.next_exec
    }

    /// The deadline of the payload loaded last.
    pub closed spec fn next_timestamp(&self) -> Option<u64> {
        self.next_timestamp
    }

    /// Every waiting payload has a deadline in the queue.
    pub open spec fn wf(&self) -> bool {
        forall|k: u128| #[trigger] self.pending().contains_key(k) ==> queued(self.queue(), k)
    }

    /// An empty queue with nothing loaded.
    pub fn new() -> (m: Self)
        ensures
            m.wf(),
            m.pending() == Map::<u128, F>::empty(),
            m.queue() == Multiset::<ComparableUUid>::empty(),
            m.next_exec() is None,
            m.next_timestamp() is None,
    {
        let m = TimedManager {
            function_map: HashMap::new(),
            heap: Vec::new(),
            next_exec: None,
            next_timestamp: None,
        };
        assert(m.heap@ =~= Seq::<ComparableUUid>::empty());
        m
    }

    /// Adds `future`, due `delay` seconds after `now`, under a fresh UUID.
    /// Fails, changing nothing, when the deadline overflows.
    pub fn add_at(&mut self, future: F, delay: u64, now: u64) -> (r: Result<u128, TimerError>)
        requires
            old(self).wf(),
        ensures
            final(self).wf(),
            now + delay > u64::MAX ==> r == Err::<u128, TimerError>(TimerError::DeadlineOverflow)
                && *final(self) == *old(self),
            now + delay <= u64::MAX ==> (r matches Ok(id) && {
                &&& !old(self).pending().contains_key(id)
                &&& is_v4(id)
                &&& final(self).pending() == old(self).pending().insert(id, future)
                &&& final(self).queue() == old(self).queue().insert(
                    ComparableUUid { target_time: (now + delay) as u64, uuid: id },
                )
                &&& final(self).next_exec() == old(self).next_exec()
                &&& final(self).next_timestamp() == old(self).next_timestamp()
            }),
    {
        let uuid = fresh_key(&self.function_map);
        let target = match deadline_after(now, delay) {
            Ok(t) => t,
            Err(e) => {
                return Err(e);
            },
        };
        self.function_map.insert(uuid, future);
        let entry = ComparableUUid { target_time: target, uuid };
        self.heap.push(entry);
        proof {
            assert forall|k: u128| #[trigger] self.pending().contains_key(k) implies queued(
                self.queue(),
                k,
            ) by {
                if k == uuid {
                    assert(self.queue().count(entry) > 0);
                } else {
                    assert(old(self).pending().contains_key(k));
                    let t = choose|t: u64|
                        old(self).queue().count(ComparableUUid { target_time: t, uuid: k }) > 0;
                    assert(self.queue().count(ComparableUUid { target_time: t, uuid: k }) > 0);
                }
            }
        }
        Ok(uuid)
    }

    /// Adds `future`, due `delay` seconds after the clock reading `reading`,
    /// under a fresh UUID: fails with `ClockBeforeEpoch` when the clock could
    /// not be read (`None`) and with `DeadlineOverflow` when the deadline does
    /// not fit, changing nothing either way.
    pub fn add_after_reading(
        &mut self,
        future: F,
        delay: u64,
        reading: Option<u64>,
    ) -> (r: Result<u128, TimerError>)
        requires
            old(self).wf(),
        ensures
            final(self).wf(),
            Self::added_with_reading(*old(self), *final(self), future, delay, reading, r),
            reading is None ==> r == Err::<u128, TimerError>(TimerError::ClockBeforeEpoch)
                && *final(self) == *old(self),
            reading is Some && reading->0 + delay <= u64::MAX ==> (r matches Ok(id) && {
                &&& !old(self).pending().contains_key(id)
                &&& final(self).pending() == old(self).pending().insert(id, future)
                &&& final(self).queue() == old(self).queue().insert(
                    ComparableUUid { target_time: (reading->0 + delay) as u64, uuid: id },
                )
                &&& final(self).next_exec() == old(self).next_exec()
                &&& final(self).next_timestamp() == old(self).next_timestamp()
            }),
            reading is Some && reading->0 + delay > u64::MAX ==> r == Err::<u128, TimerError>(
                TimerError::DeadlineOverflow,
            ) && *final(self) == *old(self),
    {
        match reading {
            Some(now) => self.add_at(future, delay, now),
            None => Err(TimerError::ClockBeforeEpoch),
        }
    }

    /// Adds `future`, due `delay` seconds from the current clock reading,
    /// under a fresh UUID, as `add_after_reading` does with that reading.
    pub fn add(&mut self, future: F, delay: u64) -> (r: Result<u128, TimerError>)
        requires
            old(self).wf(),
        ensures
            final(self).wf(),
            exists|reading: Option<u64>|
                #[trigger] Self::added_with_reading(
                    *old(self),
                    *final(self),
                    future,
                    delay,
                    reading,
                    r,
                ),
            r is Err ==> *final(self) == *old(self),
            r matches Ok(id) ==> {
                &&& !old(self).pending().contains_key(id)
                &&& final(self).pending() == old(self).pending().insert(id, future)
                &&& exists|t: u64|
                    t >= delay && final(self).queue() == old(self).queue().insert(
                        ComparableUUid { target_time: t, uuid: id },
                    )
                &&& final(self).next_exec() == old(self).next_exec()
                &&& final(self).next_timestamp() == old(self).next_timestamp()
            },
    {
        let reading = get_unix_timestamp();
        let r = self.add_after_reading(future, delay, reading);
        proof {
            if r is Ok {
                let id = r->Ok_0;
                let t = (reading->0 + delay) as u64;
                assert(final(self).queue() == old(self).queue().insert(
                    ComparableUUid { target_time: t, uuid: id },
                ));
            }
        }
        r
    }

    /// Seconds until the loaded payload is due when the clock reads `now`:
    /// zero once it is due, `None` (wait indefinitely) when nothing is
    /// loaded or the clock could not be read.
    pub fn next_delay_at(&self, now: Option<u64>) -> (r: Option<u64>)
        ensures
            r == spec_next_delay(self.next_timestamp(), now),
            self.next_timestamp() is None || now is None ==> r is None,
            self.next_timestamp() is Some && now is Some ==> (r matches Some(d) && (
            if self.next_timestamp()->0 > now->0 {
                d + now->0 == self.next_timestamp()->0
            } else {
                d == 0
            })),
    {
        match self.next_timestamp {
            Some(next_timestamp) => match now {
                Some(current_timestamp) => {
                    if next_timestamp > current_timestamp {
                        Some(next_timestamp - current_timestamp)
                    } else {
                        Some(0)
                    }
                },
                None => None,
            },
            None => None,
        }
    }

    /// Seconds until the loaded payload is due by the current clock, as in
    /// `next_delay_at`; the clock reading itself is not known here.
    pub fn get_next_delay(&self) -> (r: Option<u64>)
        ensures
            exists|now: Option<u64>| r == #[trigger] spec_next_delay(self.next_timestamp(), now),
            self.next_timestamp() is None ==> r is None,
            r matches Some(d) ==> self.next_timestamp() matches Some(t) && d <= t,
    {
        let now = get_unix_timestamp();
        let r = self.next_delay_at(now);
        assert(r == spec_next_delay(self.next_timestamp(), now));
        r
    }

    /// Drops the payload `uuid`. When a payload is loaded, only the loaded
    /// payload is looked at: if it is `uuid`, the next one is loaded in its
    /// place; if it is another one, the loaded payload is dropped and
    /// `uuid` stays pending. When nothing is loaded, `uuid` leaves the
    /// pending payloads.
    pub fn remove(&mut self, uuid: u128)
        requires
            old(self).wf(),
        ensures
            final(self).wf(),
            Self::removed_as_told(*old(self), *final(self), uuid),
    {
        let taken = self.next_exec.take();
        assert(self.pending() == old(self).pending() && self.queue() == old(self).queue());
        match taken {
            Some(next_exec) => {
                if next_exec.0 == uuid {
                    self.next_exec = None;
                    self.load_next_future();
                }
            },
            None => {
                let _ = self.function_map.remove(&uuid);
            },
        }
    }

    /// Takes the loaded payload out to run it; the loaded deadline is
    /// cleared when there was one.
    pub fn take_next(&mut self) -> (r: Option<F>)
        requires
            old(self).wf(),
        ensures
            final(self).wf(),
            final(self).pending() == old(self).pending(),
            final(self).queue() == old(self).queue(),
            final(self).next_exec() is None,
            old(self).next_exec() matches Some(ne) ==> r == Some(ne.1)
                && final(self).next_timestamp() is None,
            old(self).next_exec() is None ==> r is None
                && final(self).next_timestamp() == old(self).next_timestamp(),
    {
        let taken = self.next_exec.take();
        assert(self.pending() == old(self).pending() && self.queue() == old(self).queue());
        match taken {
            Some(future) => {
                self.next_timestamp = None;
                Some(future.1)
            },
            None => None,
        }
    }

    /// What a run of the queue does next when the clock reads `now`.
    pub fn execute_step(&self, now: Option<u64>) -> (r: ExecuteStep)
        ensures
            r == spec_execute_step(self.next_timestamp(), now),
    {
        match self.next_timestamp {
            None => ExecuteStep::Finished,
            Some(next_timestamp) => match now {
                Some(current_timestamp) => {
                    if next_timestamp <= current_timestamp {
                        ExecuteStep::RunNext
                    } else {
                        ExecuteStep::Finished
                    }
                },
                None => ExecuteStep::ClockUnavailable,
            },
        }
    }

    /// The index of an entry with the earliest deadline.
    fn earliest_index(&self) -> (i: usize)
        requires
            self.heap@.len() > 0,
        ensures
            i < self.heap@.len(),
            forall|j: int|
                0 <= j < self.heap@.len() ==> self.heap@[i as int].target_time
                    <= #[trigger] self.heap@[j].target_time,
    {
        let mut best: usize = 0;
        let mut k: usize = 1;
        while k < self.heap.len()
            invariant
                self.heap@.len() > 0,
                best < self.heap@.len(),
                1 <= k <= self.heap@.len(),
                forall|j: int|
                    0 <= j < k ==> self.heap@[best as int].target_time
                        <= #[trigger] self.heap@[j].target_time,
            decreases self.heap@.len() - k,
        {
            if self.heap[k].target_time < self.heap[best].target_time {
                best = k;
            }
            k = k + 1;
        }
        best
    }

    /// Loads the pending payload with the earliest deadline: entries are
    /// taken from the queue earliest first, those whose payload is no longer
    /// pending are dropped, and the first one whose payload is pending
    /// becomes the loaded payload with its deadline. When the queue runs
    /// out first, nothing else changes.
    pub fn load_next_future(&mut self)
        requires
            old(self).wf(),
        ensures
            final(self).wf(),
            loaded_next(
                old(self).pending(),
                old(self).queue(),
                old(self).next_timestamp(),
                final(self).pending(),
                final(self).queue(),
                final(self).next_exec(),
                final(self).next_timestamp(),
            ),
            !has_pending_entry(old(self).queue(), old(self).pending()) ==> final(self).next_exec()
                == old(self).next_exec(),
    {
        let ghost old_queue = self.heap@.to_multiset();
        let ghost old_pending = self.function_map@;
        let ghost mut skipped: Seq<ComparableUUid> = Seq::empty();
        loop
            invariant
                old_queue == self.heap@.to_multiset().add(skipped.to_multiset()),
                self.function_map@ == old_pending,
                self.next_exec == old(self).next_exec,
                self.next_timestamp == old(self).next_timestamp,
                old_pending == old(self).pending(),
                old_queue == old(self).queue(),
                old(self).wf(),
                forall|i: int|
                    0 <= i < skipped.len() ==> !old_pending.contains_key(
                        #[trigger] skipped[i].uuid,
                    ),
                forall|i: int, j: int|
                    0 <= i < skipped.len() && 0 <= j < self.heap@.len() ==> #[trigger] skipped[i].target_time
                        <= #[trigger] self.heap@[j].target_time,
            decreases self.heap@.len(),
        {
            if self.heap.len() == 0 {
                proof {
                    assert(self.heap@ =~= Seq::<ComparableUUid>::empty());
                    self.lemma_exhausted(old_queue, old_pending, skipped);
                }
                return;
            }
            let idx = self.earliest_index();
            let ghost before = self.heap@;
            let next = self.heap.remove(idx);
            proof {
                assert(before.remove(idx as int).to_multiset() == before.to_multiset().remove(
                    next,
                ));
            }
            if self.function_map.contains_key(&next.uuid) {
                let f = self.function_map.remove(&next.uuid);
                assert(f is Some);
                match f {
                    Some(f) => {
                        self.next_exec = Some((next.uuid, f));
                        self.next_timestamp = Some(next.target_time);
                    },
                    None => {},
                }
                proof {
                    self.lemma_found(old_queue, old_pending, skipped, before, idx as int);
                }
                return;
            }
            proof {
                let s2 = skipped.push(next);
                assert(s2.to_multiset() == skipped.to_multiset().insert(next));
                assert(old_queue =~= self.heap@.to_multiset().add(s2.to_multiset()));
                assert forall|i: int, j: int|
                    0 <= i < s2.len() && 0 <= j < self.heap@.len() implies #[trigger] s2[i].target_time
                    <= #[trigger] self.heap@[j].target_time by {
                    assert(self.heap@[j] == before[if j < idx { j } else { j + 1 }]);
                }
                skipped = s2;
            }
        }
    }

    proof fn lemma_exhausted(
        &self,
        old_queue: Multiset<ComparableUUid>,
        old_pending: Map<u128, F>,
        skipped: Seq<ComparableUUid>,
    )
        requires
            self.heap@.len() == 0,
            old_queue == self.heap@.to_multiset().add(skipped.to_multiset()),
            forall|i: int|
                0 <= i < skipped.len() ==> !old_pending.contains_key(#[trigger] skipped[i].uuid),
        ensures
            !has_pending_entry(old_queue, old_pending),
            self.heap@.to_multiset() =~= Multiset::<ComparableUUid>::empty(),
    {
        assert(self.heap@.to_multiset().len() == 0);
        assert(self.heap@.to_multiset() =~= Multiset::<ComparableUUid>::empty());
        assert forall|x: ComparableUUid| #[trigger] old_queue.count(x) > 0 implies !old_pending.contains_key(
            x.uuid,
        ) by {
            assert(skipped.to_multiset().count(x) > 0);
            assert(skipped.contains(x));
            let i = choose|i: int| 0 <= i < skipped.len() && skipped[i] == x;
            assert(!old_pending.contains_key(skipped[i].uuid));
        }
    }

    proof fn lemma_found(
        &self,
        old_queue: Multiset<ComparableUUid>,
        old_pending: Map<u128, F>,
        skipped: Seq<ComparableUUid>,
        before: Seq<ComparableUUid>,
        idx: int,
    )
        requires
            0 <= idx < before.len(),
            self.heap@ == before.remove(idx),
            old_queue == before.to_multiset().add(skipped.to_multiset()),
            forall|j: int|
                0 <= j < before.len() ==> before[idx].target_time <= #[trigger] before[j].target_time,
            forall|i: int|
                0 <= i < skipped.len() ==> !old_pending.contains_key(#[trigger] skipped[i].uuid),
            forall|i: int, j: int|
                0 <= i < skipped.len() && 0 <= j < before.len() ==> #[trigger] skipped[i].target_time
                    <= #[trigger] before[j].target_time,
            old_pending.contains_key(before[idx].uuid),
            self.function_map@ == old_pending.remove(before[idx].uuid),
            self.next_exec == Some((before[idx].uuid, old_pending[before[idx].uuid])),
            self.next_timestamp == Some(before[idx].target_time),
            forall|k: u128| #[trigger] old_pending.contains_key(k) ==> queued(old_queue, k),
        ensures
            self.wf(),
            found_next(
                old_pending,
                old_queue,
                self.function_map@,
                self.heap@.to_multiset(),
                self.next_exec,
                self.next_timestamp,
            ),
    {
        let e = before[idx];
        let t = e.target_time;
        let new_q = self.heap@.to_multiset();
        assert(new_q == before.to_multiset().remove(e));
        assert(before.to_multiset().count(e) > 0);
        assert(old_queue.count(e) > 0);
        assert(old_queue.remove(e) =~= new_q.add(skipped.to_multiset()));
        assert forall|x: ComparableUUid| #[trigger] new_q.count(x) > 0 implies t <= x.target_time by {
            assert(self.heap@.contains(x));
            let j = choose|j: int| 0 <= j < self.heap@.len() && self.heap@[j] == x;
            assert(self.heap@[j] == before[if j < idx { j } else { j + 1 }]);
        }
        assert forall|x: ComparableUUid| #[trigger]
            new_q.count(x) < old_queue.remove(e).count(x) implies !old_pending.contains_key(x.uuid)
            && x.target_time <= t by {
            assert(skipped.to_multiset().count(x) > 0);
            assert(skipped.contains(x));
            let i = choose|i: int| 0 <= i < skipped.len() && skipped[i] == x;
            assert(skipped[i].target_time <= before[idx].target_time);
        }
        assert forall|x: ComparableUUid|
            #[trigger] old_queue.count(x) > 0 && old_pending.contains_key(x.uuid) implies t
            <= x.target_time by {
            if x == e {
            } else if new_q.count(x) < old_queue.remove(e).count(x) {
            } else {
                assert(new_q.count(x) > 0);
            }
        }
        assert forall|k: u128| #[trigger] self.pending().contains_key(k) implies queued(
            self.queue(),
            k,
        ) by {
            assert(old_pending.contains_key(k));
            let tk = choose|tk: u64| old_queue.count(ComparableUUid { target_time: tk, uuid: k }) > 0;
            let x = ComparableUUid { target_time: tk, uuid: k };
            assert(x != e);
            assert(old_queue.remove(e).count(x) == old_queue.count(x));
            if new_q.count(x) < old_queue.remove(e).count(x) {
                assert(!old_pending.contains_key(x.uuid));
            }
            assert(new_q.count(x) > 0);
        }
    }
}

impl<F> TimedManager<F> {
    /// What adding `future` with `delay` does from `before` to `after` when
    /// the clock read `reading`, with outcome `r`: no reading gives
    /// `ClockBeforeEpoch` and an overflowing deadline `DeadlineOverflow`,
    /// both changing nothing; otherwise the payload becomes pending under a
    /// fresh UUID, the queue gains exactly its deadline `now + delay`, and
    /// the loaded payload and deadline are untouched.
    pub open spec fn added_with_reading(
        before: Self,
        after: Self,
        future: F,
        delay: u64,
        reading: Option<u64>,
        r: Result<u128, TimerError>,
    ) -> bool {
        match reading {
            None => r == Err::<u128, TimerError>(TimerError::ClockBeforeEpoch) && after == before,
            Some(now) => if now + delay > u64::MAX {
                r == Err::<u128, TimerError>(TimerError::DeadlineOverflow) && after == before
            } else {
                &&& r is Ok
                &&& !before.pending().contains_key(r->Ok_0)
                &&& is_v4(r->Ok_0)
                &&& after.pending() == before.pending().insert(r->Ok_0, future)
                &&& after.queue() == before.queue().insert(
                    ComparableUUid { target_time: (now + delay) as u64, uuid: r->Ok_0 },
                )
                &&& after.next_exec() == before.next_exec()
                &&& after.next_timestamp() == before.next_timestamp()
            },
        }
    }

    /// What `remove(uuid)` does, from `before` to `after`: with nothing
    /// loaded, `uuid` leaves the pending payloads; with another payload
    /// loaded, that payload is dropped and nothing else changes; with `uuid`
    /// loaded, it is dropped and the next payload is loaded as
    /// `loaded_next` says.
    pub open spec fn removed_as_told(before: Self, after: Self, uuid: u128) -> bool {
        match before.next_exec() {
            None => {
                &&& after.pending() == before.pending().remove(uuid)
                &&& after.queue() == before.queue()
                &&& after.next_exec() is None
                &&& after.next_timestamp() == before.next_timestamp()
            },
            Some(ne) => if ne.0 != uuid {
                &&& after.pending() == before.pending()
                &&& after.queue() == before.queue()
                &&& after.next_exec() is None
                &&& after.next_timestamp() == before.next_timestamp()
            } else {
                &&& loaded_next(
                    before.pending(),
                    before.queue(),
                    before.next_timestamp(),
                    after.pending(),
                    after.queue(),
                    after.next_exec(),
                    after.next_timestamp(),
                )
                &&& !has_pending_entry(before.queue(), before.pending()) ==> after.next_exec() is None
            },
        }
    }
}

/// Whether some entry of `queue` names a payload of `pending`.
pub open spec fn has_pending_entry<F>(queue: Multiset<ComparableUUid>, pending: Map<u128, F>) -> bool {
    exists|x: ComparableUUid| #[trigger] queue.count(x) > 0 && pending.contains_key(x.uuid)
}

/// The outcome of loading when a pending payload was found: the entry `e`
/// given by the new deadline and UUID was in the queue and named a pending
/// payload, that payload is loaded and no longer pending, its deadline is no
/// later than any entry left in the queue nor any entry of a pending payload,
/// and the entries taken out besides `e` were stale and not later than it.
pub open spec fn found_next<F>(
    old_pending: Map<u128, F>,
    old_queue: Multiset<ComparableUUid>,
    new_pending: Map<u128, F>,
    new_queue: Multiset<ComparableUUid>,
    new_exec: Option<(u128, F)>,
    new_timestamp: Option<u64>,
) -> bool {
    match (new_exec, new_timestamp) {
        (Some((id, f)), Some(t)) => {
            let e = ComparableUUid { target_time: t, uuid: id };
            &&& old_queue.count(e) > 0
            &&& old_pending.contains_key(id)
            &&& f == old_pending[id]
            &&& new_pending == old_pending.remove(id)
            &&& dropped_stale_before(old_queue.remove(e), new_queue, old_pending, t)
            &&& forall|x: ComparableUUid| #[trigger] new_queue.count(x) > 0 ==> t <= x.target_time
            &&& forall|x: ComparableUUid|
                #[trigger] old_queue.count(x) > 0 && old_pending.contains_key(x.uuid) ==> t
                    <= x.target_time
        },
        _ => false,
    }
}

/// What loading does: with a pending payload in the queue, `found_next`;
/// without, the queue is emptied of its stale entries and nothing else
/// changes.
pub open spec fn loaded_next<F>(
    old_pending: Map<u128, F>,
    old_queue: Multiset<ComparableUUid>,
    old_timestamp: Option<u64>,
    new_pending: Map<u128, F>,
    new_queue: Multiset<ComparableUUid>,
    new_exec: Option<(u128, F)>,
    new_timestamp: Option<u64>,
) -> bool {
    if has_pending_entry(old_queue, old_pending) {
        found_next(old_pending, old_queue, new_pending, new_queue, new_exec, new_timestamp)
    } else {
        &&& new_pending == old_pending
        &&& new_queue == Multiset::<ComparableUUid>::empty()
        &&& new_timestamp == old_timestamp
    }
}

/// A payload added while nothing is loaded, then removed, leaves the pending
/// payloads as they were before it was added.
pub proof fn lemma_add_then_remove<F>(
    before: TimedManager<F>,
    added: TimedManager<F>,
    after: TimedManager<F>,
    uuid: u128,
    future: F,
)
    requires
        before.next_exec() is None,
        !before.pending().contains_key(uuid),
        added.pending() == before.pending().insert(uuid, future),
        added.next_exec() == before.next_exec(),
        TimedManager::removed_as_told(added, after, uuid),
    ensures
        after.pending() == before.pending(),
        after.next_exec() is None,
{
    assert(after.pending() =~= before.pending());
}

/// The queue order is reversed deadline order: of two entries, the one due
/// earlier is the greater, and comparing the other way round gives the
/// opposite answer.
pub proof fn lemma_reversed_order(a: u64, b: u64)
    ensures
        (reversed_order(a, b) == Ordering::Greater) <==> a < b,
        (reversed_order(a, b) == Ordering::Equal) <==> a == b,
        (reversed_order(a, b) == Ordering::Greater) <==> (reversed_order(b, a) == Ordering::Less),
{
}

/// In a well-formed manager every pending payload can be loaded: loading
/// then finds a payload (the one due earliest, by `found_next`) rather than
/// running out of queue.
pub proof fn lemma_pending_is_loadable<F>(m: TimedManager<F>, uuid: u128)
    requires
        m.wf(),
        m.pending().contains_key(uuid),
    ensures
        has_pending_entry(m.queue(), m.pending()),
{
    assert(queued(m.queue(), uuid));
    let t = choose|t: u64| m.queue().count(ComparableUUid { target_time: t, uuid }) > 0;
    let x = ComparableUUid { target_time: t, uuid };
    assert(m.queue().count(x) > 0 && m.pending().contains_key(x.uuid));
}

/// The wait and the run decision agree: with a payload loaded for `t` and
/// the clock at `n`, the wait is `t - n` seconds while `t` is later than
/// `n`, and then the run is not started; once `n` reaches `t` the wait is
/// zero and the loaded payload is run. Without a loaded payload there is
/// nothing to wait for and nothing to run.
pub proof fn lemma_wait_and_run_agree(next: Option<u64>, n: u64)
    ensures
        next is None ==> spec_next_delay(next, Some(n)) is None && spec_execute_step(next, Some(n))
            == ExecuteStep::Finished,
        next is Some && next->0 > n ==> spec_next_delay(next, Some(n)) == Some(
            (next->0 - n) as u64,
        ) && spec_execute_step(next, Some(n)) == ExecuteStep::Finished,
        next is Some && next->0 <= n ==> spec_next_delay(next, Some(n)) == Some(0u64)
            && spec_execute_step(next, Some(n)) == ExecuteStep::RunNext,
        spec_next_delay(next, None) is None,
        next is Some ==> spec_execute_step(next, None) == ExecuteStep::ClockUnavailable,
{
}

/// A payload added at clock reading `now` with `delay` to an empty manager
/// is the one loaded next, due at `now + delay`, that is `delay` seconds
/// after the reading it was added at.
pub proof fn lemma_added_alone_is_due_after_delay<F>(
    empty: TimedManager<F>,
    added: TimedManager<F>,
    loaded: TimedManager<F>,
    future: F,
    delay: u64,
    now: u64,
    id: u128,
)
    requires
        empty.pending() == Map::<u128, F>::empty(),
        empty.queue() == Multiset::<ComparableUUid>::empty(),
        now + delay <= u64::MAX,
        TimedManager::added_with_reading(empty, added, future, delay, Some(now), Ok(id)),
        loaded_next(
            added.pending(),
            added.queue(),
            added.next_timestamp(),
            loaded.pending(),
            loaded.queue(),
            loaded.next_exec(),
            loaded.next_timestamp(),
        ),
    ensures
        loaded.next_timestamp() == Some((now + delay) as u64),
        loaded.next_exec() == Some((id, future)),
        loaded.next_timestamp() matches Some(t) && t - now == delay,
{
    let e = ComparableUUid { target_time: (now + delay) as u64, uuid: id };
    assert(added.queue().count(e) > 0);
    assert(added.pending().contains_key(id));
    assert(has_pending_entry(added.queue(), added.pending()));
    match (loaded.next_exec(), loaded.next_timestamp()) {
        (Some((lid, f)), Some(t)) => {
            let x = ComparableUUid { target_time: t, uuid: lid };
            assert(added.queue().count(x) > 0);
            assert(x == e);
        },
        _ => {},
    }
}

} // verus!
