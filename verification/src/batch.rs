//! The batch pipeline: size check, admission, validation pass, and
//! order-preserving fan-out bookkeeping.
//!
//! The nearest-neighbour index is an outside collaborator that this
//! module never calls itself: a batch that passes the size check, takes
//! a permit and validates becomes a [`FanOut`], and the caller answers
//! each pending coordinate with the index's record for it. The fan-out
//! keeps results positionally aligned with the inputs, and a batch can
//! only reach the index by first passing through [`start_batch`], so a
//! rejected batch never touches it.

use vstd::prelude::*;

use crate::admission::AdmissionController;
use crate::coordinate::Coordinate;
use crate::coordinate::ValidationError;

verus! {

/// Largest number of coordinates a batch may carry.
pub const MAX_BATCH_ITEMS: usize = 100;

/// The record a lookup returns: the matched place's name, its
/// administrative hierarchy, and the canonical coordinate of the match,
/// in microdegrees.
#[derive(Debug, Clone, PartialEq, Eq)]
pub struct PlaceRecord {
    pub lat: i64,
    pub lon: i64,
    pub name: String,
    pub admin1: String,
    pub admin2: String,
    pub admin3: String,
}

/// An ordered batch of coordinates to look up. Order is significant:
/// results correspond positionally to these inputs.
pub struct BatchRequest {
    pub locations: Vec<Coordinate>,
}

/// Why a whole batch was rejected: it was too long, or some coordinate
/// was out of range. `InvalidInput` names the first offending item, in
/// input order, and its violated bound.
#[derive(Clone, Copy, PartialEq, Eq, Structural, Debug)]
pub enum BatchError {
    TooManyItems,
    InvalidInput { index: usize, error: ValidationError },
}

impl BatchError {
    /// The caller-facing message naming the violated constraint, as the
    /// service reports it.
    pub fn message(&self) -> (m: &'static str)
        ensures
            *self is TooManyItems ==> m@ == "Too many locations. Maximum allowed is 100."@,
            *self matches BatchError::InvalidInput { index, error } ==> {
                &&& error is LatOutOfRange ==> m@ == "Latitude must be between -90 and 90"@
                &&& error is LongOutOfRange ==> m@ == "Longitude must be between -180 and 180"@
            },
    {
        match *self {
            BatchError::TooManyItems => "Too many locations. Maximum allowed is 100.",
            BatchError::InvalidInput { index: _, error } => error.message(),
        }
    }
}

/// Every coordinate of the sequence is within range.
pub open spec fn all_valid(locs: Seq<Coordinate>) -> bool {
    forall|i: int| 0 <= i < locs.len() ==> (#[trigger] locs[i]).is_valid()
}

/// The error `validate` reports for an invalid coordinate: the latitude
/// is checked first.
pub open spec fn coord_error(c: Coordinate) -> ValidationError {
    if !c.lat_in_range() {
        ValidationError::LatOutOfRange
    } else {
        ValidationError::LongOutOfRange
    }
}

/// The screening verdict the pipeline owes a batch: too long, first
/// invalid item, or clear.
pub open spec fn screen_verdict(locs: Seq<Coordinate>) -> Result<(), BatchError> {
    if locs.len() > MAX_BATCH_ITEMS {
        Err(BatchError::TooManyItems)
    } else if !all_valid(locs) {
        let i = first_invalid_index(locs);
        Err(BatchError::InvalidInput { index: i as usize, error: coord_error(locs[i as int]) })
    } else {
        Ok(())
    }
}

/// The least index holding an invalid coordinate.
pub open spec fn first_invalid_index(locs: Seq<Coordinate>) -> int {
    choose|i: int|
        0 <= i < locs.len() && !(#[trigger] locs[i]).is_valid() && forall|j: int|
            0 <= j < i ==> (#[trigger] locs[j]).is_valid()
}

/// The chosen first invalid index is well defined whenever some
/// coordinate is invalid: it is in range, invalid, and everything
/// before it is valid.
pub proof fn lemma_first_invalid_index(locs: Seq<Coordinate>)
    requires
        !all_valid(locs),
    ensures
        0 <= first_invalid_index(locs) < locs.len(),
        !locs[first_invalid_index(locs)].is_valid(),
        forall|j: int| 0 <= j < first_invalid_index(locs) ==> (#[trigger] locs[j]).is_valid(),
{
    let bad = choose|i: int| 0 <= i < locs.len() && !(#[trigger] locs[i]).is_valid();
    lemma_least_invalid_exists(locs, bad);
}

proof fn lemma_least_invalid_exists(locs: Seq<Coordinate>, bad: int)
    requires
        0 <= bad < locs.len(),
        !locs[bad].is_valid(),
    ensures
        0 <= first_invalid_index(locs) < locs.len(),
        !locs[first_invalid_index(locs)].is_valid(),
        forall|j: int| 0 <= j < first_invalid_index(locs) ==> (#[trigger] locs[j]).is_valid(),
    decreases bad,
{
    if forall|j: int| 0 <= j < bad ==> (#[trigger] locs[j]).is_valid() {
        assert(0 <= bad < locs.len() && !locs[bad].is_valid() && forall|j: int|
            0 <= j < bad ==> (#[trigger] locs[j]).is_valid());
    } else {
        let earlier = choose|j: int| 0 <= j < bad && !(#[trigger] locs[j]).is_valid();
        lemma_least_invalid_exists(locs, earlier);
    }
}

/// Finds the first out-of-range coordinate, if any: `None` exactly when
/// the whole sequence is valid, and otherwise the least offending index
/// with its violated bound.
fn find_first_invalid(locations: &Vec<Coordinate>) -> (r: Option<(usize, ValidationError)>)
    ensures
        r is None <==> all_valid(locations@),
        r matches Some((i, e)) ==> {
            &&& 0 <= i < locations@.len()
            &&& i == first_invalid_index(locations@)
            &&& !locations@[i as int].is_valid()
            &&& e == coord_error(locations@[i as int])
            &&& forall|j: int| 0 <= j < i ==> (#[trigger] locations@[j]).is_valid()
        },
{
    let n = locations.len();
    for i in 0..n
        invariant
            n == locations@.len(),
            forall|j: int| 0 <= j < i ==> (#[trigger] locations@[j]).is_valid(),
    {
        match locations[i].validate() {
            Ok(()) => (),
            Err(e) => {
                proof {
                    lemma_first_invalid_index(locations@);
                    let f = first_invalid_index(locations@);
                    assert(!(f < i) && !(i < f));
                }
                return Some((i, e));
            },
        }
    }
    None
}

/// The screening pass a batch goes through before any lookup: the size
/// check first, then a validation pass over every item. Succeeds exactly
/// when the batch is within bound and fully valid; a batch over the
/// bound is `TooManyItems` whatever its items hold, and an in-bound
/// batch with an out-of-range item reports the first offender.
pub fn screen(request: &BatchRequest) -> (r: Result<(), BatchError>)
    ensures
        r == screen_verdict(request.locations@),
        r is Ok <==> (request.locations@.len() <= MAX_BATCH_ITEMS && all_valid(
            request.locations@,
        )),
{
    if request.locations.len() > MAX_BATCH_ITEMS {
        return Err(BatchError::TooManyItems);
    }
    match find_first_invalid(&request.locations) {
        None => Ok(()),
        Some((index, error)) => Err(BatchError::InvalidInput { index, error }),
    }
}

/// A screened, admitted batch in mid fan-out: the caller looks up each
/// pending coordinate in turn and hands the record back, and the
/// collected results stay positionally aligned with the inputs.
pub struct FanOut {
    locations: Vec<Coordinate>,
    results: Vec<PlaceRecord>,
}

impl FanOut {
    /// The inputs, in order.
    pub closed spec fn spec_locations(self) -> Seq<Coordinate> {
        self.locations@
    }

    /// The records collected so far, aligned with the first inputs.
    pub closed spec fn spec_results(self) -> Seq<PlaceRecord> {
        self.results@
    }

    /// A fan-out only ever holds a screened batch, and never more
    /// results than inputs.
    pub open spec fn wf(self) -> bool {
        &&& self.spec_locations().len() <= MAX_BATCH_ITEMS
        &&& all_valid(self.spec_locations())
        &&& self.spec_results().len() <= self.spec_locations().len()
    }

    /// Every input has its record.
    pub open spec fn is_done(self) -> bool {
        self.spec_results().len() == self.spec_locations().len()
    }

    /// The next coordinate to look up: the input just past the results
    /// collected so far, or `None` once every input is answered.
    pub fn next_query(&self) -> (r: Option<Coordinate>)
        requires
            self.wf(),
        ensures
            r is None <==> self.is_done(),
            !self.is_done() ==> r == Some(self.spec_locations()[self.spec_results().len() as int]),
    {
        if self.results.len() < self.locations.len() {
            Some(self.locations[self.results.len()])
        } else {
            None
        }
    }

    /// Accepts the record for the pending coordinate, appending it so
    /// that it stands at the position of its input.
    pub fn supply(&mut self, record: PlaceRecord)
        requires
            old(self).wf(),
            !old(self).is_done(),
        ensures
            final(self).wf(),
            final(self).spec_locations() == old(self).spec_locations(),
            final(self).spec_results() == old(self).spec_results().push(record),
    {
        self.results.push(record);
    }

    /// How many inputs are answered so far.
    pub fn answered(&self) -> (r: usize)
        ensures
            r == self.spec_results().len(),
    {
        self.results.len()
    }

    /// How many inputs the batch holds.
    pub fn len(&self) -> (r: usize)
        ensures
            r == self.spec_locations().len(),
    {
        self.locations.len()
    }
}

/// What `start_batch` decided: the batch was rejected with no permit
/// left held, no permit was free so the caller should wait and retry,
/// or the batch was admitted and holds a permit through the fan-out.
pub enum StartOutcome {
    Rejected(BatchError),
    Busy,
    Admitted(FanOut),
}

/// Opens a batch: the size check first — an oversize batch is rejected
/// before any permit is taken — then admission against the pool, then
/// the validation pass under the permit, whose failure releases the
/// permit before rejecting. Exactly one of the outcomes holds:
/// an oversize batch is `TooManyItems` with the pool untouched; a full
/// pool leaves an in-bound batch `Busy` with the pool untouched; an
/// invalid in-bound batch is `InvalidInput` naming the first offender,
/// with the permit given back (pool net untouched); a fully valid
/// in-bound batch is `Admitted` with one more permit outstanding and a
/// fan-out over exactly its inputs, none answered yet.
pub fn start_batch(request: BatchRequest, pool: &mut AdmissionController) -> (r: StartOutcome)
    requires
        old(pool).wf(),
    ensures
        final(pool).wf(),
        final(pool).spec_capacity() == old(pool).spec_capacity(),
        request.locations@.len() > MAX_BATCH_ITEMS ==> {
            &&& r == StartOutcome::Rejected(BatchError::TooManyItems)
            &&& final(pool).spec_outstanding() == old(pool).spec_outstanding()
        },
        request.locations@.len() <= MAX_BATCH_ITEMS && old(pool).spec_outstanding() >= old(
            pool,
        ).spec_capacity() ==> {
            &&& r == StartOutcome::Busy
            &&& final(pool).spec_outstanding() == old(pool).spec_outstanding()
        },
        request.locations@.len() <= MAX_BATCH_ITEMS && old(pool).spec_outstanding() < old(
            pool,
        ).spec_capacity() && !all_valid(request.locations@) ==> {
            &&& screen_verdict(request.locations@) matches Err(e) && r == StartOutcome::Rejected(
                e,
            )
            &&& final(pool).spec_outstanding() == old(pool).spec_outstanding()
        },
        request.locations@.len() <= MAX_BATCH_ITEMS && old(pool).spec_outstanding() < old(
            pool,
        ).spec_capacity() && all_valid(request.locations@) ==> {
            &&& r matches StartOutcome::Admitted(f)
            &&& f.wf()
            &&& f.spec_locations() == request.locations@
            &&& f.spec_results().len() == 0
            &&& final(pool).spec_outstanding() == old(pool).spec_outstanding() + 1
        },
{
    if request.locations.len() > MAX_BATCH_ITEMS {
        return StartOutcome::Rejected(BatchError::TooManyItems);
    }
    if !pool.try_acquire() {
        return StartOutcome::Busy;
    }
    match find_first_invalid(&request.locations) {
        Some((index, error)) => {
            pool.release();
            StartOutcome::Rejected(BatchError::InvalidInput { index, error })
        },
        None => StartOutcome::Admitted(
            FanOut { locations: request.locations, results: Vec::new() },
        ),
    }
}

/// Closes an admitted batch whose fan-out is complete: gives the permit
/// back and returns the collected records, one per input and in input
/// order.
pub fn finish_batch(fanout: FanOut, pool: &mut AdmissionController) -> (r: Vec<PlaceRecord>)
    requires
        fanout.wf(),
        fanout.is_done(),
        old(pool).wf(),
        old(pool).spec_outstanding() > 0,
    ensures
        r@ == fanout.spec_results(),
        r@.len() == fanout.spec_locations().len(),
        final(pool).wf(),
        final(pool).spec_capacity() == old(pool).spec_capacity(),
        final(pool).spec_outstanding() == old(pool).spec_outstanding() - 1,
{
    pool.release();
    fanout.results
}

/// Idempotence of the pipeline against a static index: the result
/// sequence of a completed fan-out is determined by the inputs and the
/// index's answer function alone, so two runs of the same batch in
/// which every coordinate is answered by the same function — a static,
/// deterministic index — collect identical results.
pub proof fn lemma_fanout_idempotent(
    locs: Seq<Coordinate>,
    answer: spec_fn(Coordinate) -> PlaceRecord,
    first: Seq<PlaceRecord>,
    second: Seq<PlaceRecord>,
)
    requires
        first.len() == locs.len(),
        second.len() == locs.len(),
        forall|i: int| 0 <= i < locs.len() ==> first[i] == answer(#[trigger] locs[i]),
        forall|i: int| 0 <= i < locs.len() ==> second[i] == answer(#[trigger] locs[i]),
    ensures
        first == second,
{
    assert forall|i: int| 0 <= i < first.len() implies first[i] == second[i] by {
        assert(first[i] == answer(locs[i]));
        assert(second[i] == answer(locs[i]));
    }
    assert(first =~= second);
}

/// Abandons an admitted batch mid fan-out — the caller was cancelled —
/// discarding the partial results but still giving the permit back, so
/// that cancellation leaks nothing.
pub fn abort_batch(fanout: FanOut, pool: &mut AdmissionController)
    requires
        old(pool).wf(),
        old(pool).spec_outstanding() > 0,
    ensures
        final(pool).wf(),
        final(pool).spec_capacity() == old(pool).spec_capacity(),
        final(pool).spec_outstanding() == old(pool).spec_outstanding() - 1,
{
    let _ = fanout;
    pool.release();
}

} // verus!
