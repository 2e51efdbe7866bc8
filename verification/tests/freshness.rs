use std::time::Duration;

use zfirot::freshness::{PollInterval, ReconcileInterval};

#[test]
fn default_is_one_minute() {
    assert_eq!(PollInterval::default().as_secs(), 60);
    assert_eq!(PollInterval::default().as_duration(), Duration::from_secs(60));
}

#[test]
fn clamps_out_of_range_intervals_into_the_allowed_band() {
    let cases: [(&str, u64, u64); 4] = [
        ("zero is raised to the minimum so the poll never busy-loops", 0, PollInterval::MIN_SECS),
        ("below the floor is raised to the minimum", PollInterval::MIN_SECS - 1, PollInterval::MIN_SECS),
        ("a value in range is kept as-is", 90, 90),
        ("above the ceiling is lowered to the maximum", PollInterval::MAX_SECS + 1, PollInterval::MAX_SECS),
    ];
    for (name, secs, expected) in cases {
        assert_eq!(PollInterval::from_secs(secs).as_secs(), expected, "{}", name);
    }
}

#[test]
fn reconcile_default_is_five_minutes() {
    assert_eq!(ReconcileInterval::default().as_secs(), 300);
    assert_eq!(ReconcileInterval::default().as_duration(), Duration::from_secs(300));
}

#[test]
fn reconcile_interval_is_clamped_to_its_allowed_band() {
    let cases: [(u64, u64); 4] = [
        (0, ReconcileInterval::MIN_SECS),
        (ReconcileInterval::MIN_SECS - 1, ReconcileInterval::MIN_SECS),
        (900, 900),
        (ReconcileInterval::MAX_SECS + 1, ReconcileInterval::MAX_SECS),
    ];
    for (secs, expected) in cases {
        assert_eq!(ReconcileInterval::from_secs(secs).as_secs(), expected);
    }
}

#[test]
fn clamping_an_in_band_interval_again_changes_nothing() {
    let once = PollInterval::from_secs(u64::MAX);
    assert_eq!(once.as_secs(), 3600);
    assert_eq!(PollInterval::from_secs(once.as_secs()), once);
    assert_eq!(PollInterval::from_secs(10).as_duration(), Duration::from_secs(10));
    assert_eq!(ReconcileInterval::from_secs(14_400).as_secs(), 14_400);
}
