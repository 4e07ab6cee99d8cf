use arisa::media::retention::{cleanup_cutoff, expired, Timestamp, RETENTION_SECS};

fn at(secs: i64, nanos: u32) -> Timestamp {
    Timestamp { secs, nanos }
}

#[test]
fn files_are_kept_for_ten_minutes() {
    assert_eq!(RETENTION_SECS, 600);
    let cutoff = cleanup_cutoff(at(10_000, 500));
    assert_eq!(cutoff, at(9_400, 500));
    assert!(expired(Some(at(9_400, 499)), cutoff));
    assert!(!expired(Some(at(9_400, 500)), cutoff));
    assert!(!expired(Some(at(9_400, 501)), cutoff));
    assert!(expired(Some(at(9_399, 999_999_999)), cutoff));
    assert!(!expired(Some(at(10_001, 0)), cutoff));
    assert!(!expired(None, cutoff));
}

#[test]
fn old_files_stay_old() {
    let modified = Some(at(0, 1));
    assert!(expired(modified, cleanup_cutoff(at(601, 0))));
    assert!(expired(modified, cleanup_cutoff(at(601, 1))));
    assert!(expired(modified, cleanup_cutoff(at(i64::MAX, 0))));
}

#[test]
fn times_out_of_range_fall_back_to_the_epoch() {
    assert_eq!(cleanup_cutoff(at(i64::MIN + 599, 3)), at(0, 0));
    assert_eq!(cleanup_cutoff(at(i64::MIN + 600, 3)), at(i64::MIN, 3));
}
