//! Admission control: a counting permit pool of fixed capacity that
//! bounds how many batch requests may run against the shared geocoding
//! index at once.
//!
//! This type is the pool's accounting: `try_acquire` hands out a permit
//! when one is free and `release` returns it. A caller that wants to
//! wait for a free permit parks outside this type and retries; waiting
//! and cancellation therefore cannot disturb the count, because a
//! cancelled waiter never touched it.

use vstd::prelude::*;

verus! {

/// A counting permit pool. `outstanding` permits are currently held;
/// the invariant `outstanding <= capacity` is the concurrency bound.
pub struct AdmissionController {
    capacity: usize,
    outstanding: usize,
}

/// One step in the life of the pool: a permit was handed out, or one
/// was returned.
#[derive(Clone, Copy, PartialEq, Eq, Structural, Debug)]
pub enum AdmissionEvent {
    Acquired,
    Released,
}

/// How many of the events are `Acquired`.
pub open spec fn count_acquired(events: Seq<AdmissionEvent>) -> int
    decreases events.len(),
{
    if events.len() == 0 {
        0
    } else {
        count_acquired(events.drop_last()) + if events.last() is Acquired {
            1int
        } else {
            0int
        }
    }
}

/// How many of the events are `Released`.
pub open spec fn count_released(events: Seq<AdmissionEvent>) -> int
    decreases events.len(),
{
    if events.len() == 0 {
        0
    } else {
        count_released(events.drop_last()) + if events.last() is Released {
            1int
        } else {
            0int
        }
    }
}

/// The outstanding count after applying the events in order, starting
/// from `start` permits held.
pub open spec fn outstanding_after(start: int, events: Seq<AdmissionEvent>) -> int
    decreases events.len(),
{
    if events.len() == 0 {
        start
    } else {
        outstanding_after(start, events.drop_last()) + if events.last() is Acquired {
            1int
        } else {
            -1int
        }
    }
}

impl AdmissionController {
    /// The pool's fixed capacity.
    pub closed spec fn spec_capacity(self) -> int {
        self.capacity as int
    }

    /// How many permits are currently held.
    pub closed spec fn spec_outstanding(self) -> int {
        self.outstanding as int
    }

    /// The permit count never exceeds the capacity.
    pub open spec fn wf(self) -> bool {
        0 <= self.spec_outstanding() <= self.spec_capacity()
    }

    /// A fresh pool of the given capacity with no permit held.
    pub fn new(capacity: usize) -> (r: AdmissionController)
        ensures
            r.wf(),
            r.spec_capacity() == capacity,
            r.spec_outstanding() == 0,
    {
        AdmissionController { capacity, outstanding: 0 }
    }

    /// The pool's fixed capacity.
    pub fn capacity(&self) -> (r: usize)
        ensures
            r == self.spec_capacity(),
    {
        self.capacity
    }

    /// How many permits are currently held.
    pub fn outstanding(&self) -> (r: usize)
        ensures
            r == self.spec_outstanding(),
    {
        self.outstanding
    }

    /// Hands out a permit if one is free. Succeeds exactly when a slot
    /// is free; on success one more permit is outstanding, on failure
    /// the pool is unchanged. Either way the bound holds afterwards.
    pub fn try_acquire(&mut self) -> (granted: bool)
        requires
            old(self).wf(),
        ensures
            final(self).wf(),
            final(self).spec_capacity() == old(self).spec_capacity(),
            granted <==> old(self).spec_outstanding() < old(self).spec_capacity(),
            granted ==> final(self).spec_outstanding() == old(self).spec_outstanding() + 1,
            !granted ==> final(self).spec_outstanding() == old(self).spec_outstanding(),
    {
        if self.outstanding < self.capacity {
            self.outstanding = self.outstanding + 1;
            true
        } else {
            false
        }
    }

    /// Returns a permit. The caller must hold one, so the count is
    /// positive; it goes down by exactly one.
    pub fn release(&mut self)
        requires
            old(self).wf(),
            old(self).spec_outstanding() > 0,
        ensures
            final(self).wf(),
            final(self).spec_capacity() == old(self).spec_capacity(),
            final(self).spec_outstanding() == old(self).spec_outstanding() - 1,
    {
        self.outstanding = self.outstanding - 1;
    }
}

/// The outstanding count after a run of events is the start plus the
/// acquisitions minus the releases.
pub proof fn lemma_outstanding_counts(start: int, events: Seq<AdmissionEvent>)
    ensures
        outstanding_after(start, events) == start + count_acquired(events) - count_released(
            events,
        ),
    decreases events.len(),
{
    if events.len() > 0 {
        lemma_outstanding_counts(start, events.drop_last());
    }
}

/// No permit leak: after any sequence of requests in which every permit
/// that was handed out was returned — successful batches, rejected
/// batches (which never acquire), and cancelled waits (which never
/// acquired) alike — the pool is back to where it started.
pub proof fn lemma_no_permit_leak(start: int, events: Seq<AdmissionEvent>)
    requires
        count_acquired(events) == count_released(events),
    ensures
        outstanding_after(start, events) == start,
{
    lemma_outstanding_counts(start, events);
}

/// The concurrency bound, over histories: if every prefix of the event
/// run keeps releases behind acquisitions (a release only returns a
/// permit already held) and the pool only granted while below capacity,
/// the outstanding count never exceeds the capacity at any point. The
/// executable pool enforces the granting rule in `try_acquire`.
pub proof fn lemma_bound_holds(capacity: int, events: Seq<AdmissionEvent>, i: int)
    requires
        capacity >= 0,
        0 <= i <= events.len(),
        forall|j: int|
            0 <= j < events.len() && events[j] is Acquired ==> outstanding_after(
                0,
                #[trigger] events.take(j),
            ) < capacity,
        forall|j: int|
            0 <= j < events.len() && events[j] is Released ==> outstanding_after(
                0,
                #[trigger] events.take(j),
            ) > 0,
    ensures
        0 <= outstanding_after(0, events.take(i)) <= capacity,
    decreases i,
{
    if i == 0 {
        assert(events.take(0) =~= Seq::<AdmissionEvent>::empty());
    } else {
        lemma_bound_holds(capacity, events, i - 1);
        assert(events.take(i).drop_last() =~= events.take(i - 1));
        assert(events.take(i).last() == events[i - 1]);
    }
}

} // verus!
