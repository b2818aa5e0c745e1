//! Coordinates and their validation.
//!
//! A coordinate is a latitude/longitude pair held in microdegrees
//! (one millionth of a degree), so that the valid ranges are the exact
//! integer intervals [-90_000_000, 90_000_000] and
//! [-180_000_000, 180_000_000]. Callers that receive degrees as text or
//! as machine floating point convert to microdegrees before handing the
//! value in; a non-finite reading has no microdegree representation and
//! is mapped by such callers to a value outside the ranges, so it fails
//! validation here.

use vstd::prelude::*;

verus! {

/// Largest valid latitude, in microdegrees (90 degrees).
pub const LAT_LIMIT_UDEG: i64 = 90_000_000;

/// Largest valid longitude, in microdegrees (180 degrees).
pub const LONG_LIMIT_UDEG: i64 = 180_000_000;

/// A latitude/longitude pair in microdegrees. Unvalidated: a value of
/// this type may lie outside the valid ranges and must pass `validate`
/// before it is used for a lookup.
#[derive(Clone, Copy, PartialEq, Eq, Structural, Debug)]
pub struct Coordinate {
    pub lat: i64,
    pub long: i64,
}

/// Which field of a coordinate broke its range rule.
#[derive(Clone, Copy, PartialEq, Eq, Structural, Debug)]
pub enum ValidationError {
    LatOutOfRange,
    LongOutOfRange,
}

impl Coordinate {
    /// The latitude lies within [-90, 90] degrees, inclusive.
    pub open spec fn lat_in_range(self) -> bool {
        -(LAT_LIMIT_UDEG as int) <= self.lat <= LAT_LIMIT_UDEG as int
    }

    /// The longitude lies within [-180, 180] degrees, inclusive.
    pub open spec fn long_in_range(self) -> bool {
        -(LONG_LIMIT_UDEG as int) <= self.long <= LONG_LIMIT_UDEG as int
    }

    /// Both fields lie within their ranges.
    pub open spec fn is_valid(self) -> bool {
        self.lat_in_range() && self.long_in_range()
    }

    /// Checks the range rules, latitude first. Succeeds exactly on valid
    /// coordinates; on failure names the offending field.
    pub fn validate(&self) -> (r: Result<(), ValidationError>)
        ensures
            r is Ok <==> self.is_valid(),
            self.is_valid() ==> r == Result::<(), ValidationError>::Ok(()),
            !self.lat_in_range() ==> r == Result::<(), ValidationError>::Err(
                ValidationError::LatOutOfRange,
            ),
            self.lat_in_range() && !self.long_in_range() ==> r == Result::<
                (),
                ValidationError,
            >::Err(ValidationError::LongOutOfRange),
    {
        if self.lat < -LAT_LIMIT_UDEG || self.lat > LAT_LIMIT_UDEG {
            Err(ValidationError::LatOutOfRange)
        } else if self.long < -LONG_LIMIT_UDEG || self.long > LONG_LIMIT_UDEG {
            Err(ValidationError::LongOutOfRange)
        } else {
            Ok(())
        }
    }
}

impl ValidationError {
    /// A caller-facing message naming the violated bound, as the service
    /// reports it.
    pub fn message(&self) -> (m: &'static str)
        ensures
            *self is LatOutOfRange ==> m@ == "Latitude must be between -90 and 90"@,
            *self is LongOutOfRange ==> m@ == "Longitude must be between -180 and 180"@,
    {
        match *self {
            ValidationError::LatOutOfRange => "Latitude must be between -90 and 90",
            ValidationError::LongOutOfRange => "Longitude must be between -180 and 180",
        }
    }
}

} // verus!
