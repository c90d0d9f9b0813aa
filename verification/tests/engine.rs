use download_manager::engine::{
    apply_chunk, begin_transfer, current_progress, mark_emitted, plan_range, progress_units,
    should_emit,
};
use download_manager::error::Error;
use download_manager::models::PROGRESS_FULL;

#[test]
fn progress_is_exact_integer_arithmetic() {
    assert_eq!(progress_units(0, 100), 0);
    assert_eq!(progress_units(50, 200), 2500);
    assert_eq!(progress_units(1, 3), 3333);
    assert_eq!(progress_units(100, 100), PROGRESS_FULL);
    assert_eq!(progress_units(150, 100), PROGRESS_FULL);
    assert_eq!(progress_units(0, 0), PROGRESS_FULL);
    assert_eq!(progress_units(u64::MAX - 1, u64::MAX), 9999);
}

#[test]
fn range_is_requested_only_for_a_partial_file() {
    assert_eq!(plan_range(0), None);
    assert_eq!(plan_range(7), Some(7));
}

#[test]
fn resumed_request_requires_partial_content() {
    match begin_transfer(10, false, Some(90)) {
        Err(Error::Http(_)) => {},
        other => panic!("expected an HTTP error, got {:?}", other.map(|_| ())),
    }
}

#[test]
fn fresh_request_accepts_any_status() {
    let t = begin_transfer(0, false, Some(100)).unwrap();
    assert_eq!(t.downloaded, 0);
    assert_eq!(t.total, Some(100));
    assert_eq!(t.last_emitted, 0);
}

#[test]
fn resumed_total_adds_the_existing_bytes() {
    let t = begin_transfer(37, true, Some(63)).unwrap();
    assert_eq!(t.downloaded, 37);
    assert_eq!(t.total, Some(100));
}

#[test]
fn missing_content_length_leaves_total_unknown() {
    let t = begin_transfer(0, false, None).unwrap();
    assert_eq!(t.total, None);
    assert_eq!(current_progress(&t), None);
    // With an unknown total progress is indeterminate and no checkpoint fires.
    assert!(!should_emit(&t));
    let t2 = apply_chunk(&t, 5000);
    assert!(!should_emit(&t2));
}

#[test]
fn overlarge_content_length_is_treated_as_unknown() {
    let t = begin_transfer(10, true, Some(u64::MAX)).unwrap();
    assert_eq!(t.total, None);
}

#[test]
fn throttle_waits_for_more_than_one_point() {
    // Total 10000 bytes: one byte is one hundredth of a percentage point.
    let t = begin_transfer(0, false, Some(10000)).unwrap();
    let t = apply_chunk(&t, 100);
    // Exactly one point above the last emission: not yet due.
    assert!(!should_emit(&t));
    let t = apply_chunk(&t, 1);
    assert!(should_emit(&t));
    let p = current_progress(&t).unwrap();
    assert_eq!(p, 101);
    let t = mark_emitted(&t, p);
    assert!(!should_emit(&t));
}

#[test]
fn full_progress_is_always_due() {
    let t = begin_transfer(0, false, Some(10)).unwrap();
    let t = apply_chunk(&t, 10);
    assert_eq!(current_progress(&t), Some(PROGRESS_FULL));
    assert!(should_emit(&t));
    // Even right after an emission, full progress stays due.
    let t = mark_emitted(&t, PROGRESS_FULL);
    assert!(should_emit(&t));
}

#[test]
fn progress_never_decreases_over_a_growing_stream() {
    let t = begin_transfer(250, true, Some(9750)).unwrap();
    let mut t = t;
    let mut last = current_progress(&t).unwrap();
    for chunk in [1u64, 7, 64, 100, 256, 512, 1024, 4096, 3740] {
        t = apply_chunk(&t, chunk);
        let p = current_progress(&t).unwrap();
        assert!(p >= last);
        last = p;
    }
    assert_eq!(last, PROGRESS_FULL);
}
