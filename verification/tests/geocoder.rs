//! The pipeline against the real nearest-neighbour index: the known
//! lookup result, the single-query path, and idempotence of a repeated
//! submission.

use reverse_geocoder::ReverseGeocoder;
use revgeo_core::admission::AdmissionController;
use revgeo_core::batch::{start_batch, finish_batch, BatchRequest, PlaceRecord, StartOutcome};
use revgeo_core::coordinate::Coordinate;
use revgeo_core::query::{select_nearest, QueryError};

fn udeg(degrees: f64) -> i64 {
    if degrees.is_finite() {
        (degrees * 1_000_000.0).round() as i64
    } else {
        i64::MAX
    }
}

fn degrees(udeg: i64) -> f64 {
    udeg as f64 / 1_000_000.0
}

/// Looks a coordinate up in the index and converts the answer to the
/// library's record, the country code standing in the third
/// administrative slot.
fn lookup(geocoder: &ReverseGeocoder, c: Coordinate) -> PlaceRecord {
    let result = geocoder.search((degrees(c.lat), degrees(c.long)));
    PlaceRecord {
        lat: udeg(result.record.lat),
        lon: udeg(result.record.lon),
        name: result.record.name.clone(),
        admin1: result.record.admin1.clone(),
        admin2: result.record.admin2.clone(),
        admin3: result.record.cc.clone(),
    }
}

fn run_batch(geocoder: &ReverseGeocoder, locations: Vec<Coordinate>) -> Vec<PlaceRecord> {
    let mut pool = AdmissionController::new(4);
    let mut fanout = match start_batch(BatchRequest { locations }, &mut pool) {
        StartOutcome::Admitted(f) => f,
        _ => panic!("batch must be admitted"),
    };
    while let Some(query) = fanout.next_query() {
        fanout.supply(lookup(geocoder, query));
    }
    finish_batch(fanout, &mut pool)
}

#[test]
fn known_lookup_returns_saint_louis_park() {
    let geocoder = ReverseGeocoder::new();
    let c = Coordinate { lat: udeg(44.962786), long: udeg(-93.344722) };
    assert!(c.validate().is_ok());
    let record = lookup(&geocoder, c);
    assert_eq!(record.lat, udeg(44.9483));
    assert_eq!(record.lon, udeg(-93.34801));
    assert_eq!(record.name, "Saint Louis Park");
    assert_eq!(record.admin1, "Minnesota");
    assert_eq!(record.admin2, "Hennepin County");
    assert_eq!(record.admin3, "US");
}

#[test]
fn single_query_selects_the_nearest_candidate() {
    let geocoder = ReverseGeocoder::new();
    let c = Coordinate { lat: udeg(44.962786), long: udeg(-93.344722) };
    let candidates = vec![lookup(&geocoder, c)];
    let chosen = select_nearest(candidates).unwrap();
    assert_eq!(chosen.name, "Saint Louis Park");
}

#[test]
fn no_candidates_is_not_found() {
    assert_eq!(select_nearest(Vec::new()).unwrap_err(), QueryError::NotFound);
}

#[test]
fn repeated_batch_yields_identical_results() {
    let geocoder = ReverseGeocoder::new();
    let locations = vec![
        Coordinate { lat: udeg(44.962786), long: udeg(-93.344722) },
        Coordinate { lat: udeg(40.7831), long: udeg(-73.9712) },
        Coordinate { lat: udeg(51.5074), long: udeg(-0.1278) },
    ];
    let first = run_batch(&geocoder, locations.clone());
    let second = run_batch(&geocoder, locations);
    assert_eq!(first, second);
    assert_eq!(first.len(), 3);
}
