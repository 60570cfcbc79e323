//! Tests of `phd1`.

#[test]
fn test_cleanup_returns_zero_for_empty_case() {
    // Verify batch_size defaults are positive integers
    let batch_size: i64 = 1000;
    assert!(batch_size > 0);
}
