//! Errors, their kinds, and how they are retried.

use pg_trickle::error::{PgTrickleError, PgTrickleErrorKind, RetryPolicy, RetryState};

fn t() -> String {
    "x".to_string()
}

fn all() -> Vec<(PgTrickleError, PgTrickleErrorKind, &'static str)> {
    vec![
        (PgTrickleError::QueryParseError(t()), PgTrickleErrorKind::User, "query parse error: x"),
        (PgTrickleError::TypeMismatch(t()), PgTrickleErrorKind::User, "type mismatch: x"),
        (
            PgTrickleError::UnsupportedOperator(t()),
            PgTrickleErrorKind::User,
            "unsupported operator for DIFFERENTIAL mode: x",
        ),
        (
            PgTrickleError::CycleDetected(vec!["a".to_string(), "b".to_string()]),
            PgTrickleErrorKind::User,
            "cycle detected in dependency graph: a -> b",
        ),
        (PgTrickleError::NotFound(t()), PgTrickleErrorKind::User, "stream table not found: x"),
        (
            PgTrickleError::AlreadyExists(t()),
            PgTrickleErrorKind::User,
            "stream table already exists: x",
        ),
        (PgTrickleError::InvalidArgument(t()), PgTrickleErrorKind::User, "invalid argument: x"),
        (
            PgTrickleError::UpstreamTableDropped(4294967295),
            PgTrickleErrorKind::Schema,
            "upstream table dropped: OID 4294967295",
        ),
        (
            PgTrickleError::UpstreamSchemaChanged(7),
            PgTrickleErrorKind::Schema,
            "upstream table schema changed: OID 7",
        ),
        (PgTrickleError::LockTimeout(t()), PgTrickleErrorKind::System, "lock timeout: x"),
        (
            PgTrickleError::ReplicationSlotError(t()),
            PgTrickleErrorKind::System,
            "replication slot error: x",
        ),
        (
            PgTrickleError::WalTransitionError(t()),
            PgTrickleErrorKind::System,
            "WAL transition error: x",
        ),
        (PgTrickleError::SpiError(t()), PgTrickleErrorKind::System, "SPI error: x"),
        (PgTrickleError::RefreshSkipped(t()), PgTrickleErrorKind::System, "refresh skipped: x"),
        (PgTrickleError::InternalError(t()), PgTrickleErrorKind::Internal, "internal error: x"),
    ]
}

#[test]
fn every_error_has_a_kind_and_a_message() {
    for (e, kind, message) in all() {
        assert_eq!(e.kind(), kind);
        assert_eq!(e.to_string(), message);
    }
    assert_eq!(PgTrickleErrorKind::User.to_string(), "USER");
}

#[test]
fn kinds_decide_on_retries() {
    for (e, kind, _) in all() {
        assert!(!e.is_retryable() || kind == PgTrickleErrorKind::System);
        assert!(!e.requires_reinitialize() || kind == PgTrickleErrorKind::Schema);
        assert!(e.counts_toward_suspension() || e.is_retryable());
    }
    let uncounted: Vec<String> = all()
        .iter()
        .filter(|p| !p.0.counts_toward_suspension())
        .map(|p| p.0.to_string())
        .collect();
    assert_eq!(uncounted, vec!["refresh skipped: x"]);
}

#[test]
fn delays_double_up_to_the_cap() {
    let p = RetryPolicy { base_delay_ms: 100, max_delay_ms: 1_000, max_attempts: 3 };
    assert_eq!(p.backoff_ms(0), 75);
    assert_eq!(p.backoff_ms(1), 250);
    assert_eq!(p.backoff_ms(2), 300);
    assert_eq!(p.backoff_ms(3), 1_000);
    assert_eq!(p.backoff_ms(4), 750);
    assert_eq!(p.backoff_ms(5), 1_250);
    assert!(p.should_retry(2));
    assert!(!p.should_retry(3));
}

#[test]
fn large_delays_do_not_overflow() {
    let p = RetryPolicy { base_delay_ms: u64::MAX, max_delay_ms: u64::MAX, max_attempts: 1 };
    assert_eq!(p.backoff_ms(0), u64::MAX / 4);
    assert_eq!(p.backoff_ms(u32::MAX), u64::MAX / 4);
    let q = RetryPolicy { base_delay_ms: 1, max_delay_ms: u64::MAX, max_attempts: 1 };
    assert_eq!(q.backoff_ms(16), 65_536 * 3 / 4);
    assert_eq!(q.backoff_ms(40), (1u64 << 40) / 4 * 3);
    assert_eq!(q.backoff_ms(64), u64::MAX / 4);
    assert_eq!(q.backoff_ms(u32::MAX), u64::MAX / 4);
}

#[test]
fn delays_double_up_to_the_cap_only() {
    let p = RetryPolicy { base_delay_ms: 1, max_delay_ms: 10_000_000, max_attempts: 1 };
    assert_eq!(p.backoff_ms(20), 786_432);
    assert_eq!(p.backoff_ms(24), 7_500_000);
    assert_eq!(p.backoff_ms(25), 12_500_000);
    let none = RetryPolicy { base_delay_ms: 0, max_delay_ms: 10_000, max_attempts: 1 };
    assert_eq!(none.backoff_ms(u32::MAX), 0);
    let capped = RetryPolicy { base_delay_ms: 5, max_delay_ms: 0, max_attempts: 1 };
    assert_eq!(capped.backoff_ms(3), 0);
}

#[test]
fn a_state_counts_and_forgets_failures() {
    let p = RetryPolicy { base_delay_ms: 1_000, max_delay_ms: 60_000, max_attempts: 2 };
    let mut s = RetryState::new();
    assert!(!s.is_in_backoff(0));
    assert!(s.record_failure(&p, 10_000));
    assert_eq!(s.attempts, 1);
    assert_eq!(s.next_retry_at_ms, 10_750);
    assert!(s.is_in_backoff(10_749));
    assert!(!s.is_in_backoff(10_750));
    assert!(!s.record_failure(&p, 20_000));
    assert_eq!(s.attempts, 2);
    s.reset();
    assert_eq!((s.attempts, s.next_retry_at_ms), (0, 0));
    assert!(!s.is_in_backoff(20_001));
}
