//! Tests of `cost`.

use pg_trickle::scheduler::cost::compute_per_db_quota;

#[test]
fn test_compute_per_db_quota_disabled() {
    // When quota is 0, falls back to max_concurrent_refreshes.
    assert_eq!(compute_per_db_quota(0, 4, 10, 0), 4);
    assert_eq!(compute_per_db_quota(-1, 4, 10, 0), 4);
    // Minimum 1 even when max_concurrent_refreshes is 0
    assert_eq!(compute_per_db_quota(0, 0, 10, 0), 1);
}

#[test]
fn test_compute_per_db_quota_burst_under_80_percent() {
    // Under burst threshold (80% of 10 = 8), quota is 150% of base.
    // base = 4, 150% = 6
    assert_eq!(compute_per_db_quota(4, 2, 10, 5), 6);
}

#[test]
fn test_compute_per_db_quota_at_burst_threshold() {
    // At or over burst threshold, use base quota.
    // 80% of 10 = 8, current_active=8 → at threshold → base quota
    assert_eq!(compute_per_db_quota(4, 2, 10, 8), 4);
    assert_eq!(compute_per_db_quota(4, 2, 10, 10), 4);
}

#[test]
fn test_compute_per_db_quota_base_one() {
    // base=1, burst: max(1*3/2=1, 1+1=2) = 2
    assert_eq!(compute_per_db_quota(1, 2, 10, 0), 2);
}
