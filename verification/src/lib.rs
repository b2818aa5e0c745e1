//! Core logic of a reverse-geocoding service: coordinate validation,
//! batch screening, admission control, and order-preserving fan-out
//! bookkeeping. Coordinates are held in microdegrees so that the range
//! rules are exact integer comparisons; the nearest-neighbour index is
//! an outside collaborator that callers consult between fan-out steps.

pub mod admission;
pub mod batch;
pub mod coordinate;
pub mod query;
