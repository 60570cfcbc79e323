//! Tests of `error`.

use pg_trickle::error::{PgTrickleError, PgTrickleErrorKind, RetryPolicy, RetryState};

#[test]
fn test_error_classification() {
    assert_eq!(
        PgTrickleError::QueryParseError("x".into()).kind(),
        PgTrickleErrorKind::User
    );
    assert_eq!(
        PgTrickleError::UpstreamSchemaChanged(1).kind(),
        PgTrickleErrorKind::Schema
    );
    assert_eq!(
        PgTrickleError::LockTimeout("x".into()).kind(),
        PgTrickleErrorKind::System
    );
    assert_eq!(
        PgTrickleError::InternalError("x".into()).kind(),
        PgTrickleErrorKind::Internal
    );
    assert_eq!(
        PgTrickleError::RefreshSkipped("x".into()).kind(),
        PgTrickleErrorKind::System
    );
}

#[test]
fn test_retryable_errors() {
    assert!(PgTrickleError::LockTimeout("x".into()).is_retryable());
    assert!(PgTrickleError::ReplicationSlotError("x".into()).is_retryable());
    assert!(PgTrickleError::SpiError("x".into()).is_retryable());
    assert!(PgTrickleError::RefreshSkipped("x".into()).is_retryable());

    assert!(!PgTrickleError::QueryParseError("x".into()).is_retryable());
    assert!(!PgTrickleError::CycleDetected(vec![]).is_retryable());
    assert!(!PgTrickleError::InternalError("x".into()).is_retryable());
}

#[test]
fn test_requires_reinitialize() {
    assert!(PgTrickleError::UpstreamSchemaChanged(1).requires_reinitialize());
    assert!(PgTrickleError::UpstreamTableDropped(1).requires_reinitialize());
    assert!(!PgTrickleError::SpiError("x".into()).requires_reinitialize());
}

#[test]
fn test_counts_toward_suspension() {
    assert!(PgTrickleError::SpiError("x".into()).counts_toward_suspension());
    assert!(PgTrickleError::LockTimeout("x".into()).counts_toward_suspension());
    assert!(!PgTrickleError::RefreshSkipped("x".into()).counts_toward_suspension());
}

#[test]
fn test_retry_policy_backoff() {
    let policy = RetryPolicy {
        base_delay_ms: 1000,
        max_delay_ms: 10_000,
        max_attempts: 5,
    };

    // Attempt 0: 1000 * 2^0 = 1000, -25% = 750
    assert_eq!(policy.backoff_ms(0), 750);
    // Attempt 1: 1000 * 2^1 = 2000, +25% = 2500
    assert_eq!(policy.backoff_ms(1), 2500);
    // Attempt 2: 1000 * 2^2 = 4000, -25% = 3000
    assert_eq!(policy.backoff_ms(2), 3000);
    // Attempt 3: 1000 * 2^3 = 8000, +25% = 10000
    assert_eq!(policy.backoff_ms(3), 10_000);
    // Attempt 4: 1000 * 2^4 = 16000, capped at 10000, -25% = 7500
    assert_eq!(policy.backoff_ms(4), 7500);
}

#[test]
fn test_retry_policy_should_retry() {
    let policy = RetryPolicy {
        base_delay_ms: 1000,
        max_delay_ms: 60_000,
        max_attempts: 3,
    };

    assert!(policy.should_retry(0));
    assert!(policy.should_retry(1));
    assert!(policy.should_retry(2));
    assert!(!policy.should_retry(3));
    assert!(!policy.should_retry(4));
}

#[test]
fn test_retry_state_lifecycle() {
    let policy = RetryPolicy::default();
    let mut state = RetryState::new();

    // Fresh state: not in backoff
    assert!(!state.is_in_backoff(1000));
    assert_eq!(state.attempts, 0);

    // First failure
    let now = 10_000;
    assert!(state.record_failure(&policy, now));
    assert_eq!(state.attempts, 1);
    assert!(state.is_in_backoff(now + 100)); // still in backoff
    assert!(!state.is_in_backoff(now + 100_000)); // backoff passed

    // Second failure
    let now2 = 20_000;
    assert!(state.record_failure(&policy, now2));
    assert_eq!(state.attempts, 2);

    // Reset on success
    state.reset();
    assert_eq!(state.attempts, 0);
    assert!(!state.is_in_backoff(0));
}

#[test]
fn test_retry_state_max_attempts_exhausted() {
    let policy = RetryPolicy {
        base_delay_ms: 100,
        max_delay_ms: 1000,
        max_attempts: 2,
    };
    let mut state = RetryState::new();

    // First failure — retries allowed (attempt 1 < max 2)
    assert!(state.record_failure(&policy, 1000));
    assert_eq!(state.attempts, 1);
    // Second failure — max attempts exhausted (attempt 2 >= max 2)
    assert!(!state.record_failure(&policy, 2000));
    assert_eq!(state.attempts, 2);
}
