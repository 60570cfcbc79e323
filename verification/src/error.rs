//! Errors of the extension, their classification and the retry policy.
//!
//! Errors fall into four kinds that decide what the scheduler does next:
//! - **User**: invalid queries, type mismatches, cycles.  Never retried.
//! - **Schema**: upstream DDL changes.  Not retried; they ask for a
//!   reinitialize.
//! - **System**: lock timeouts, slot errors, SPI failures.  Retried with
//!   backoff.
//! - **Internal**: bugs.  Not retried.

use vstd::arithmetic::power2::*;
use vstd::prelude::*;
use vstd::string::*;

use crate::text;
use crate::text::{join_texts, u32_text};

verus! {

/// Primary error type of the extension.
#[derive(Debug)]
pub enum PgTrickleError {
    /// The defining query could not be parsed or validated.
    QueryParseError(String),
    /// A type mismatch was detected (e.g. incompatible column types).
    TypeMismatch(String),
    /// The defining query has an operator that differential mode lacks.
    UnsupportedOperator(String),
    /// Adding this stream table would create a cycle in the dependency graph.
    CycleDetected(Vec<String>),
    /// The stream table was not found.
    NotFound(String),
    /// The stream table already exists.
    AlreadyExists(String),
    /// An invalid argument was given to an API function.
    InvalidArgument(String),
    /// An upstream (source) table was dropped.
    UpstreamTableDropped(u32),
    /// The schema of an upstream table changed.
    UpstreamSchemaChanged(u32),
    /// A lock could not be acquired within the timeout.
    LockTimeout(String),
    /// An error occurred with a logical replication slot.
    ReplicationSlotError(String),
    /// An error occurred while change capture moved from triggers to the WAL.
    WalTransitionError(String),
    /// An error of the Server Programming Interface.
    SpiError(String),
    /// A refresh was skipped because a previous one is still running.
    RefreshSkipped(String),
    /// An unexpected internal error.  Indicates a bug.
    InternalError(String),
}

/// What a [`PgTrickleError`] holds, with strings as character sequences.
pub enum ErrorView {
    QueryParseError(Seq<char>),
    TypeMismatch(Seq<char>),
    UnsupportedOperator(Seq<char>),
    CycleDetected(Seq<Seq<char>>),
    NotFound(Seq<char>),
    AlreadyExists(Seq<char>),
    InvalidArgument(Seq<char>),
    UpstreamTableDropped(u32),
    UpstreamSchemaChanged(u32),
    LockTimeout(Seq<char>),
    ReplicationSlotError(Seq<char>),
    WalTransitionError(Seq<char>),
    SpiError(Seq<char>),
    RefreshSkipped(Seq<char>),
    InternalError(Seq<char>),
}

impl View for PgTrickleError {
    type V = ErrorView;

    open spec fn view(&self) -> ErrorView {
        match self {
            PgTrickleError::QueryParseError(m) => ErrorView::QueryParseError(m@),
            PgTrickleError::TypeMismatch(m) => ErrorView::TypeMismatch(m@),
            PgTrickleError::UnsupportedOperator(m) => ErrorView::UnsupportedOperator(m@),
            PgTrickleError::CycleDetected(names) => ErrorView::CycleDetected(text::texts(names@)),
            PgTrickleError::NotFound(m) => ErrorView::NotFound(m@),
            PgTrickleError::AlreadyExists(m) => ErrorView::AlreadyExists(m@),
            PgTrickleError::InvalidArgument(m) => ErrorView::InvalidArgument(m@),
            PgTrickleError::UpstreamTableDropped(oid) => ErrorView::UpstreamTableDropped(*oid),
            PgTrickleError::UpstreamSchemaChanged(oid) => ErrorView::UpstreamSchemaChanged(*oid),
            PgTrickleError::LockTimeout(m) => ErrorView::LockTimeout(m@),
            PgTrickleError::ReplicationSlotError(m) => ErrorView::ReplicationSlotError(m@),
            PgTrickleError::WalTransitionError(m) => ErrorView::WalTransitionError(m@),
            PgTrickleError::SpiError(m) => ErrorView::SpiError(m@),
            PgTrickleError::RefreshSkipped(m) => ErrorView::RefreshSkipped(m@),
            PgTrickleError::InternalError(m) => ErrorView::InternalError(m@),
        }
    }
}

impl ErrorView {
    /// The kind an error belongs to.
    pub open spec fn kind(self) -> PgTrickleErrorKind {
        match self {
            ErrorView::QueryParseError(_) => PgTrickleErrorKind::User,
            ErrorView::TypeMismatch(_) => PgTrickleErrorKind::User,
            ErrorView::UnsupportedOperator(_) => PgTrickleErrorKind::User,
            ErrorView::CycleDetected(_) => PgTrickleErrorKind::User,
            ErrorView::NotFound(_) => PgTrickleErrorKind::User,
            ErrorView::AlreadyExists(_) => PgTrickleErrorKind::User,
            ErrorView::InvalidArgument(_) => PgTrickleErrorKind::User,
            ErrorView::UpstreamTableDropped(_) => PgTrickleErrorKind::Schema,
            ErrorView::UpstreamSchemaChanged(_) => PgTrickleErrorKind::Schema,
            ErrorView::LockTimeout(_) => PgTrickleErrorKind::System,
            ErrorView::ReplicationSlotError(_) => PgTrickleErrorKind::System,
            ErrorView::WalTransitionError(_) => PgTrickleErrorKind::System,
            ErrorView::SpiError(_) => PgTrickleErrorKind::System,
            ErrorView::RefreshSkipped(_) => PgTrickleErrorKind::System,
            ErrorView::InternalError(_) => PgTrickleErrorKind::Internal,
        }
    }

    /// Whether the scheduler may retry after this error.
    pub open spec fn retryable(self) -> bool {
        ||| self is LockTimeout
        ||| self is ReplicationSlotError
        ||| self is WalTransitionError
        ||| self is SpiError
        ||| self is RefreshSkipped
    }

    /// Whether this error asks for the stream table to be reinitialized.
    pub open spec fn reinitializes(self) -> bool {
        self is UpstreamSchemaChanged || self is UpstreamTableDropped
    }

    /// Whether this error counts toward the consecutive error limit.
    pub open spec fn counts(self) -> bool {
        !(self is RefreshSkipped)
    }

    /// The message shown to users.
    pub open spec fn message(self) -> Seq<char> {
        match self {
            ErrorView::QueryParseError(m) => "query parse error: "@ + m,
            ErrorView::TypeMismatch(m) => "type mismatch: "@ + m,
            ErrorView::UnsupportedOperator(m) => {
                "unsupported operator for DIFFERENTIAL mode: "@ + m
            },
            ErrorView::CycleDetected(names) => {
                "cycle detected in dependency graph: "@ + text::join(names, " -> "@)
            },
            ErrorView::NotFound(m) => "stream table not found: "@ + m,
            ErrorView::AlreadyExists(m) => "stream table already exists: "@ + m,
            ErrorView::InvalidArgument(m) => "invalid argument: "@ + m,
            ErrorView::UpstreamTableDropped(oid) => {
                "upstream table dropped: OID "@ + text::decimal(oid as nat)
            },
            ErrorView::UpstreamSchemaChanged(oid) => {
                "upstream table schema changed: OID "@ + text::decimal(oid as nat)
            },
            ErrorView::LockTimeout(m) => "lock timeout: "@ + m,
            ErrorView::ReplicationSlotError(m) => "replication slot error: "@ + m,
            ErrorView::WalTransitionError(m) => "WAL transition error: "@ + m,
            ErrorView::SpiError(m) => "SPI error: "@ + m,
            ErrorView::RefreshSkipped(m) => "refresh skipped: "@ + m,
            ErrorView::InternalError(m) => "internal error: "@ + m,
        }
    }
}

/// `head` followed by `tail`, as one string.
fn with_prefix(head: &str, tail: &str) -> (r: String)
    ensures
        r@ == head@ + tail@,
{
    let mut r = head.to_string();
    r.append(tail);
    r
}

impl PgTrickleError {
    /// Whether this error is retryable by the scheduler.
    ///
    /// System errors and skipped refreshes are retryable.  User errors,
    /// schema errors and internal errors are not.
    pub fn is_retryable(&self) -> (r: bool)
        ensures
            r == self@.retryable(),
    {
        match self {
            PgTrickleError::LockTimeout(_) => true,
            PgTrickleError::ReplicationSlotError(_) => true,
            PgTrickleError::WalTransitionError(_) => true,
            PgTrickleError::SpiError(_) => true,
            PgTrickleError::RefreshSkipped(_) => true,
            _ => false,
        }
    }

    /// Whether this error requires the stream table to be reinitialized.
    pub fn requires_reinitialize(&self) -> (r: bool)
        ensures
            r == self@.reinitializes(),
    {
        match self {
            PgTrickleError::UpstreamSchemaChanged(_) => true,
            PgTrickleError::UpstreamTableDropped(_) => true,
            _ => false,
        }
    }

    /// Whether this error counts toward the consecutive error limit.
    ///
    /// Skipped refreshes do not: the stream table itself is not broken, the
    /// scheduler just could not run it this time.
    pub fn counts_toward_suspension(&self) -> (r: bool)
        ensures
            r == self@.counts(),
    {
        match self {
            PgTrickleError::RefreshSkipped(_) => false,
            _ => true,
        }
    }

    /// Classifies the error for monitoring and alerting.
    pub fn kind(&self) -> (r: PgTrickleErrorKind)
        ensures
            r == self@.kind(),
    {
        match self {
            PgTrickleError::QueryParseError(_) => PgTrickleErrorKind::User,
            PgTrickleError::TypeMismatch(_) => PgTrickleErrorKind::User,
            PgTrickleError::UnsupportedOperator(_) => PgTrickleErrorKind::User,
            PgTrickleError::CycleDetected(_) => PgTrickleErrorKind::User,
            PgTrickleError::NotFound(_) => PgTrickleErrorKind::User,
            PgTrickleError::AlreadyExists(_) => PgTrickleErrorKind::User,
            PgTrickleError::InvalidArgument(_) => PgTrickleErrorKind::User,
            PgTrickleError::UpstreamTableDropped(_) => PgTrickleErrorKind::Schema,
            PgTrickleError::UpstreamSchemaChanged(_) => PgTrickleErrorKind::Schema,
            PgTrickleError::LockTimeout(_) => PgTrickleErrorKind::System,
            PgTrickleError::ReplicationSlotError(_) => PgTrickleErrorKind::System,
            PgTrickleError::WalTransitionError(_) => PgTrickleErrorKind::System,
            PgTrickleError::SpiError(_) => PgTrickleErrorKind::System,
            PgTrickleError::RefreshSkipped(_) => PgTrickleErrorKind::System,
            PgTrickleError::InternalError(_) => PgTrickleErrorKind::Internal,
        }
    }

    /// The message shown to users.
    pub fn to_string(&self) -> (r: String)
        ensures
            r@ == self@.message(),
    {
        match self {
            PgTrickleError::QueryParseError(m) => with_prefix("query parse error: ", m),
            PgTrickleError::TypeMismatch(m) => with_prefix("type mismatch: ", m),
            PgTrickleError::UnsupportedOperator(m) => {
                with_prefix("unsupported operator for DIFFERENTIAL mode: ", m)
            },
            PgTrickleError::CycleDetected(names) => {
                with_prefix(
                    "cycle detected in dependency graph: ",
                    join_texts(names, " -> ").as_str(),
                )
            },
            PgTrickleError::NotFound(m) => with_prefix("stream table not found: ", m),
            PgTrickleError::AlreadyExists(m) => with_prefix("stream table already exists: ", m),
            PgTrickleError::InvalidArgument(m) => with_prefix("invalid argument: ", m),
            PgTrickleError::UpstreamTableDropped(oid) => {
                with_prefix("upstream table dropped: OID ", u32_text(*oid).as_str())
            },
            PgTrickleError::UpstreamSchemaChanged(oid) => {
                with_prefix("upstream table schema changed: OID ", u32_text(*oid).as_str())
            },
            PgTrickleError::LockTimeout(m) => with_prefix("lock timeout: ", m),
            PgTrickleError::ReplicationSlotError(m) => with_prefix("replication slot error: ", m),
            PgTrickleError::WalTransitionError(m) => with_prefix("WAL transition error: ", m),
            PgTrickleError::SpiError(m) => with_prefix("SPI error: ", m),
            PgTrickleError::RefreshSkipped(m) => with_prefix("refresh skipped: ", m),
            PgTrickleError::InternalError(m) => with_prefix("internal error: ", m),
        }
    }
}

/// Classification of error severity for monitoring.
#[derive(Debug, Clone, Copy, PartialEq, Eq, Structural)]
pub enum PgTrickleErrorKind {
    User,
    Schema,
    System,
    Internal,
}

impl PgTrickleErrorKind {
    /// The name of a kind.
    pub open spec fn name(self) -> Seq<char> {
        match self {
            PgTrickleErrorKind::User => "USER"@,
            PgTrickleErrorKind::Schema => "SCHEMA"@,
            PgTrickleErrorKind::System => "SYSTEM"@,
            PgTrickleErrorKind::Internal => "INTERNAL"@,
        }
    }

    /// The name of a kind, in capitals.
    pub fn to_string(&self) -> (r: String)
        ensures
            r@ == self.name(),
    {
        match self {
            PgTrickleErrorKind::User => "USER".to_string(),
            PgTrickleErrorKind::Schema => "SCHEMA".to_string(),
            PgTrickleErrorKind::System => "SYSTEM".to_string(),
            PgTrickleErrorKind::Internal => "INTERNAL".to_string(),
        }
    }
}

// ── Laws of the classification ─────────────────────────────────────────

/// The retryable errors are exactly the system errors.
pub proof fn retryable_means_system(e: ErrorView)
    ensures
        e.retryable() <==> e.kind() == PgTrickleErrorKind::System,
{
}

/// The errors that ask for a reinitialize are exactly the schema errors, and
/// none of them is retried.
pub proof fn reinitialize_means_schema(e: ErrorView)
    ensures
        e.reinitializes() <==> e.kind() == PgTrickleErrorKind::Schema,
        e.reinitializes() ==> !e.retryable(),
{
}

/// Whatever does not count toward suspension is retried.
pub proof fn uncounted_is_retried(e: ErrorView)
    ensures
        !e.counts() ==> e.retryable(),
{
}

// ── Retry policy ───────────────────────────────────────────────────────

/// Retry policy with exponential backoff for system errors.
#[derive(Debug, Clone)]
pub struct RetryPolicy {
    /// Base delay in milliseconds (doubled each attempt).
    pub base_delay_ms: u64,
    /// Maximum delay in milliseconds (cap for backoff).
    pub max_delay_ms: u64,
    /// Maximum number of retry attempts before giving up.
    pub max_attempts: u32,
}

impl Default for RetryPolicy {
    fn default() -> (r: Self)
        ensures
            r.base_delay_ms == 1000,
            r.max_delay_ms == 60000,
            r.max_attempts == 5,
    {
        RetryPolicy { base_delay_ms: 1_000, max_delay_ms: 60_000, max_attempts: 5 }
    }
}

/// The smaller of two integers.
pub open spec fn least(a: int, b: int) -> int {
    if a <= b {
        a
    } else {
        b
    }
}

/// The product of two numbers, or the largest number where it does not fit.
fn saturating_product(a: u64, b: u64) -> (r: u64)
    ensures
        r == least(a * b, u64::MAX as int),
{
    match a.checked_mul(b) {
        Some(p) => p,
        None => u64::MAX,
    }
}

impl RetryPolicy {
    /// The delay before jitter: the base doubled once per attempt, and never
    /// above the cap.
    pub open spec fn capped_delay(self, attempt: nat) -> int {
        least(self.base_delay_ms * pow2(attempt), self.max_delay_ms as int)
    }

    /// The delay with jitter: a quarter less on even attempts, a quarter more
    /// on odd ones.
    pub open spec fn backoff(self, attempt: nat) -> int {
        if attempt % 2 == 0 {
            least(self.capped_delay(attempt) * 3, u64::MAX as int) / 4
        } else {
            least(self.capped_delay(attempt) * 5, u64::MAX as int) / 4
        }
    }

    /// The base doubled once per attempt, up to the cap.
    fn doubled(&self, attempt: u32) -> (r: u64)
        ensures
            r == self.capped_delay(attempt as nat),
    {
        let mut delay: u64 = self.base_delay_ms;
        let mut i: u32 = 0;
        assert(delay == delay * pow2(0)) by {
            lemma2_to64();
        }
        while i < attempt && delay != 0 && delay < self.max_delay_ms
            invariant
                i <= attempt,
                least(delay as int, self.max_delay_ms as int) == self.capped_delay(i as nat),
                delay == self.base_delay_ms * pow2(i as nat) || delay >= self.max_delay_ms,
            decreases attempt - i,
        {
            let twice: u64 = saturating_product(delay, 2);
            proof {
                lemma_pow2_unfold((i + 1) as nat);
                assert(self.base_delay_ms * pow2((i + 1) as nat) == 2 * (self.base_delay_ms
                    * pow2(i as nat))) by (nonlinear_arith)
                    requires
                        pow2((i + 1) as nat) == 2 * pow2(i as nat),
                ;
            }
            delay = twice;
            i += 1;
        }
        proof {
            delay_is_monotone(*self, i as nat, attempt as nat);
            if delay == 0 && self.max_delay_ms > 0 {
                lemma_pow2_pos(i as nat);
                assert(self.base_delay_ms * pow2(attempt as nat) == 0) by (nonlinear_arith)
                    requires
                        self.base_delay_ms * pow2(i as nat) == 0,
                        pow2(i as nat) > 0,
                ;
            }
            assert(0 <= self.base_delay_ms * pow2(attempt as nat)) by (nonlinear_arith);
        }
        if delay < self.max_delay_ms {
            delay
        } else {
            self.max_delay_ms
        }
    }

    /// The backoff delay in milliseconds for an attempt, counted from zero.
    pub fn backoff_ms(&self, attempt: u32) -> (r: u64)
        ensures
            r == self.backoff(attempt as nat),
    {
        let capped: u64 = self.doubled(attempt);
        if attempt % 2 == 0 {
            saturating_product(capped, 3) / 4
        } else {
            saturating_product(capped, 5) / 4
        }
    }

    /// Whether an attempt, counted from zero, is within the retry limit.
    pub fn should_retry(&self, attempt: u32) -> (r: bool)
        ensures
            r == (attempt < self.max_attempts),
    {
        attempt < self.max_attempts
    }
}

/// A delay stays within a quarter above the cap, and within a quarter of the
/// delay before jitter, wherever five times that delay fits in 64 bits.
pub proof fn backoff_is_bounded(p: RetryPolicy, attempt: nat)
    ensures
        0 <= p.backoff(attempt) <= (p.max_delay_ms * 5) / 4,
        p.capped_delay(attempt) * 5 <= u64::MAX ==> (p.capped_delay(attempt) * 3) / 4 <= p.backoff(
            attempt,
        ) <= (p.capped_delay(attempt) * 5) / 4,
{
    assert(0 <= p.base_delay_ms * pow2(attempt)) by (nonlinear_arith);
}

/// Before jitter the delay never shrinks from one attempt to a later one.
pub proof fn delay_is_monotone(p: RetryPolicy, earlier: nat, later: nat)
    requires
        earlier <= later,
    ensures
        p.capped_delay(earlier) <= p.capped_delay(later),
{
    if earlier < later {
        lemma_pow2_strictly_increases(earlier, later);
    }
    assert(p.base_delay_ms * pow2(earlier) <= p.base_delay_ms * pow2(later)) by (nonlinear_arith)
        requires
            pow2(earlier) <= pow2(later),
            0 <= p.base_delay_ms,
    ;
}

// ── Retry state of one stream table ────────────────────────────────────

/// Tracks retries of a single stream table in the scheduler.
///
/// Held in memory.  Reset when a refresh succeeds or the scheduler restarts.
#[derive(Debug, Clone)]
pub struct RetryState {
    /// Number of consecutive retryable failures.
    pub attempts: u32,
    /// Time (epoch millis) from which the next retry is allowed.
    pub next_retry_at_ms: u64,
}

impl Default for RetryState {
    fn default() -> (r: Self)
        ensures
            r.attempts == 0,
            r.next_retry_at_ms == 0,
    {
        RetryState::new()
    }
}

impl RetryState {
    /// Whether the stream table waits at a moment.
    pub open spec fn waits(self, now_ms: u64) -> bool {
        self.attempts > 0 && now_ms < self.next_retry_at_ms
    }

    /// A state without failures.
    pub fn new() -> (r: Self)
        ensures
            r.attempts == 0,
            r.next_retry_at_ms == 0,
    {
        RetryState { attempts: 0, next_retry_at_ms: 0 }
    }

    /// Records a retryable failure and computes the next retry time.
    ///
    /// Returns whether another retry is allowed.  The count of failures and
    /// the retry time must fit their types.
    pub fn record_failure(&mut self, policy: &RetryPolicy, now_ms: u64) -> (r: bool)
        requires
            old(self).attempts < u32::MAX,
            old(self).attempts + 1 < policy.max_attempts ==> now_ms + policy.backoff(
                old(self).attempts as nat,
            ) <= u64::MAX,
        ensures
            r == (old(self).attempts + 1 < policy.max_attempts),
            final(self).attempts == old(self).attempts + 1,
            r ==> final(self).next_retry_at_ms == now_ms + policy.backoff(
                old(self).attempts as nat,
            ),
            !r ==> final(self).next_retry_at_ms == old(self).next_retry_at_ms,
    {
        self.attempts += 1;
        if policy.should_retry(self.attempts) {
            self.next_retry_at_ms = now_ms + policy.backoff_ms(self.attempts - 1);
            true
        } else {
            false
        }
    }

    /// Resets the state after a successful refresh.
    pub fn reset(&mut self)
        ensures
            final(self).attempts == 0,
            final(self).next_retry_at_ms == 0,
    {
        self.attempts = 0;
        self.next_retry_at_ms = 0;
    }

    /// Whether the stream table is in a backoff period.
    pub fn is_in_backoff(&self, now_ms: u64) -> (r: bool)
        ensures
            r == self.waits(now_ms),
    {
        self.attempts > 0 && now_ms < self.next_retry_at_ms
    }
}

/// A state with no failures waits at no moment, so neither a fresh state nor
/// one that was reset does.
pub proof fn no_failures_no_backoff(s: RetryState, now_ms: u64)
    requires
        s.attempts == 0,
    ensures
        !s.waits(now_ms),
{
}

} // verus!
