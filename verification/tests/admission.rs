//! The permit pool: the concurrency bound and the absence of leaks.

use revgeo_core::admission::AdmissionController;

#[test]
fn pool_grants_up_to_capacity_and_no_more() {
    let mut pool = AdmissionController::new(4);
    assert_eq!(pool.capacity(), 4);
    for held in 0..4 {
        assert_eq!(pool.outstanding(), held);
        assert!(pool.try_acquire());
    }
    assert_eq!(pool.outstanding(), 4);
    assert!(!pool.try_acquire());
    assert_eq!(pool.outstanding(), 4);
}

#[test]
fn releasing_frees_a_slot() {
    let mut pool = AdmissionController::new(1);
    assert!(pool.try_acquire());
    assert!(!pool.try_acquire());
    pool.release();
    assert!(pool.try_acquire());
    assert_eq!(pool.outstanding(), 1);
}

#[test]
fn balanced_history_returns_to_zero() {
    let mut pool = AdmissionController::new(2);
    assert!(pool.try_acquire());
    assert!(pool.try_acquire());
    pool.release();
    assert!(pool.try_acquire());
    pool.release();
    pool.release();
    assert_eq!(pool.outstanding(), 0);
}

#[test]
fn zero_capacity_pool_grants_nothing() {
    let mut pool = AdmissionController::new(0);
    assert!(!pool.try_acquire());
    assert_eq!(pool.outstanding(), 0);
}
