//! The single-query path: validate one coordinate, look it up, and take
//! the nearest candidate — or report that the index returned none.

use vstd::prelude::*;

use crate::batch::PlaceRecord;
use crate::coordinate::ValidationError;

verus! {

/// Why a single query failed: its coordinate was out of range, or the
/// index returned no candidate.
#[derive(Clone, Copy, PartialEq, Eq, Structural, Debug)]
pub enum QueryError {
    InvalidCoordinate(ValidationError),
    NotFound,
}

/// Picks the nearest candidate from an index answer ordered nearest
/// first: the first one, or `NotFound` exactly when there is none.
pub fn select_nearest(candidates: Vec<PlaceRecord>) -> (r: Result<PlaceRecord, QueryError>)
    ensures
        r is Err <==> candidates@.len() == 0,
        r is Err ==> r == Result::<PlaceRecord, QueryError>::Err(QueryError::NotFound),
        candidates@.len() > 0 ==> r == Result::<PlaceRecord, QueryError>::Ok(candidates@[0]),
{
    let mut candidates = candidates;
    if candidates.len() == 0 {
        Err(QueryError::NotFound)
    } else {
        Ok(candidates.remove(0))
    }
}

} // verus!
