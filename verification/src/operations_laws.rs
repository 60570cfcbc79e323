//! What holds of errors and retries, of the quotas of databases, and of what is
//! made of the machine: which errors are whose, how delays double, and how
//! limits bound what is selected.

use vstd::arithmetic::power2::{lemma_pow2_unfold, pow2};
use vstd::prelude::*;

use crate::api::release_096 as machine;
use crate::api::release_096::SettingView;
use crate::error::{ErrorView, PgTrickleErrorKind, RetryPolicy, RetryState};
use crate::lexical;
use crate::scheduler::cost;
use crate::text;

verus! {

// ── Errors ─────────────────────────────────────────────────────────────

/// Errors are of the kind of what went wrong: the user's where a query or an
/// argument is at fault, of the schema where a source changed or is gone,
/// internal where the extension is at fault, and else of the system.
pub proof fn errors_are_of_the_kind_of_their_cause(e: ErrorView)
    ensures
        e.kind() == PgTrickleErrorKind::Schema <==> e is UpstreamTableDropped
            || e is UpstreamSchemaChanged,
        e.kind() == PgTrickleErrorKind::Internal <==> e is InternalError,
        e.kind() == PgTrickleErrorKind::System <==> e is LockTimeout || e is ReplicationSlotError
            || e is WalTransitionError || e is SpiError || e is RefreshSkipped,
        e.kind() == PgTrickleErrorKind::User <==> e is QueryParseError || e is TypeMismatch
            || e is UnsupportedOperator || e is CycleDetected || e is NotFound || e is AlreadyExists
            || e is InvalidArgument,
        e.retryable() <==> e.kind() == PgTrickleErrorKind::System,
        e.reinitializes() <==> e.kind() == PgTrickleErrorKind::Schema,
        e.counts() <==> e !is RefreshSkipped,
{
}

/// The names of kinds tell them apart.
pub proof fn kinds_are_told_by_their_names(a: PgTrickleErrorKind, b: PgTrickleErrorKind)
    ensures
        a.name() == b.name() ==> a == b,
        PgTrickleErrorKind::User.name() == "USER"@,
        PgTrickleErrorKind::Schema.name() == "SCHEMA"@,
        PgTrickleErrorKind::System.name() == "SYSTEM"@,
        PgTrickleErrorKind::Internal.name() == "INTERNAL"@,
{
    reveal_strlit("USER");
    reveal_strlit("SCHEMA");
    reveal_strlit("SYSTEM");
    reveal_strlit("INTERNAL");
    assert("USER"@.len() == 4 && "SCHEMA"@.len() == 6 && "SYSTEM"@.len() == 6
        && "INTERNAL"@.len() == 8);
    assert("SCHEMA"@[1] == 'C' && "SYSTEM"@[1] == 'Y');
}

/// What an error holds: its text, the names on a cycle with arrows between
/// them, or the number of the table.
pub open spec fn detail(e: ErrorView) -> Seq<char> {
    match e {
        ErrorView::QueryParseError(m) => m,
        ErrorView::TypeMismatch(m) => m,
        ErrorView::UnsupportedOperator(m) => m,
        ErrorView::CycleDetected(names) => text::join(names, " -> "@),
        ErrorView::NotFound(m) => m,
        ErrorView::AlreadyExists(m) => m,
        ErrorView::InvalidArgument(m) => m,
        ErrorView::UpstreamTableDropped(oid) => text::decimal(oid as nat),
        ErrorView::UpstreamSchemaChanged(oid) => text::decimal(oid as nat),
        ErrorView::LockTimeout(m) => m,
        ErrorView::ReplicationSlotError(m) => m,
        ErrorView::WalTransitionError(m) => m,
        ErrorView::SpiError(m) => m,
        ErrorView::RefreshSkipped(m) => m,
        ErrorView::InternalError(m) => m,
    }
}

/// The message of an error ends with what the error holds, behind words that
/// say what went wrong.
pub proof fn messages_end_with_what_errors_hold(e: ErrorView)
    ensures
        text::ends(e.message(), detail(e)),
        e.message().len() > detail(e).len(),
        e is QueryParseError ==> text::begins(e.message(), "query parse error: "@),
        e is TypeMismatch ==> text::begins(e.message(), "type mismatch: "@),
        e is UnsupportedOperator ==> text::begins(e.message(), "unsupported operator"@),
        e is CycleDetected ==> text::begins(e.message(), "cycle detected"@),
        e is NotFound ==> text::begins(e.message(), "stream table not found: "@),
        e is AlreadyExists ==> text::begins(e.message(), "stream table already exists: "@),
        e is InvalidArgument ==> text::begins(e.message(), "invalid argument: "@),
        e is UpstreamTableDropped ==> text::begins(e.message(), "upstream table dropped: "@),
        e is UpstreamSchemaChanged ==> text::begins(
            e.message(),
            "upstream table schema changed: "@,
        ),
        e is LockTimeout ==> text::begins(e.message(), "lock timeout: "@),
        e is ReplicationSlotError ==> text::begins(e.message(), "replication slot error: "@),
        e is WalTransitionError ==> text::begins(e.message(), "WAL transition error: "@),
        e is SpiError ==> text::begins(e.message(), "SPI error: "@),
        e is RefreshSkipped ==> text::begins(e.message(), "refresh skipped: "@),
        e is InternalError ==> text::begins(e.message(), "internal error: "@),
{
    let d = detail(e);
    match e {
        ErrorView::QueryParseError(_) => {
            reveal_strlit("query parse error: ");
            lemma_behind("query parse error: "@, "query parse error: "@, d);
        },
        ErrorView::TypeMismatch(_) => {
            reveal_strlit("type mismatch: ");
            lemma_behind("type mismatch: "@, "type mismatch: "@, d);
        },
        ErrorView::UnsupportedOperator(_) => {
            reveal_strlit("unsupported operator for DIFFERENTIAL mode: ");
            reveal_strlit("unsupported operator");
            lemma_behind(
                "unsupported operator for DIFFERENTIAL mode: "@,
                "unsupported operator"@,
                d,
            );
        },
        ErrorView::CycleDetected(_) => {
            reveal_strlit("cycle detected in dependency graph: ");
            reveal_strlit("cycle detected");
            lemma_behind("cycle detected in dependency graph: "@, "cycle detected"@, d);
        },
        ErrorView::NotFound(_) => {
            reveal_strlit("stream table not found: ");
            lemma_behind("stream table not found: "@, "stream table not found: "@, d);
        },
        ErrorView::AlreadyExists(_) => {
            reveal_strlit("stream table already exists: ");
            lemma_behind("stream table already exists: "@, "stream table already exists: "@, d);
        },
        ErrorView::InvalidArgument(_) => {
            reveal_strlit("invalid argument: ");
            lemma_behind("invalid argument: "@, "invalid argument: "@, d);
        },
        ErrorView::UpstreamTableDropped(_) => {
            reveal_strlit("upstream table dropped: OID ");
            reveal_strlit("upstream table dropped: ");
            lemma_behind("upstream table dropped: OID "@, "upstream table dropped: "@, d);
        },
        ErrorView::UpstreamSchemaChanged(_) => {
            reveal_strlit("upstream table schema changed: OID ");
            reveal_strlit("upstream table schema changed: ");
            lemma_behind(
                "upstream table schema changed: OID "@,
                "upstream table schema changed: "@,
                d,
            );
        },
        ErrorView::LockTimeout(_) => {
            reveal_strlit("lock timeout: ");
            lemma_behind("lock timeout: "@, "lock timeout: "@, d);
        },
        ErrorView::ReplicationSlotError(_) => {
            reveal_strlit("replication slot error: ");
            lemma_behind("replication slot error: "@, "replication slot error: "@, d);
        },
        ErrorView::WalTransitionError(_) => {
            reveal_strlit("WAL transition error: ");
            lemma_behind("WAL transition error: "@, "WAL transition error: "@, d);
        },
        ErrorView::SpiError(_) => {
            reveal_strlit("SPI error: ");
            lemma_behind("SPI error: "@, "SPI error: "@, d);
        },
        ErrorView::RefreshSkipped(_) => {
            reveal_strlit("refresh skipped: ");
            lemma_behind("refresh skipped: "@, "refresh skipped: "@, d);
        },
        ErrorView::InternalError(_) => {
            reveal_strlit("internal error: ");
            lemma_behind("internal error: "@, "internal error: "@, d);
        },
    }
}

/// A text behind words begins with what the words begin with.
proof fn lemma_behind(words: Seq<char>, first: Seq<char>, d: Seq<char>)
    requires
        first.len() <= words.len(),
        first =~= words.subrange(0, first.len() as int),
    ensures
        text::begins(words + d, first),
        text::ends(words + d, d),
{
    let t = words + d;
    assert(t.subrange(0, first.len() as int) =~= first);
    assert(t.subrange(t.len() - d.len(), t.len() as int) =~= d);
}

// ── Retries ────────────────────────────────────────────────────────────

/// The first delay is the base, up to the cap, and each later one is twice
/// that before, up to the cap.
pub proof fn delays_double_up_to_the_cap(p: RetryPolicy, attempt: nat)
    ensures
        p.base_delay_ms <= p.max_delay_ms ==> p.capped_delay(0) == p.base_delay_ms,
        p.base_delay_ms > p.max_delay_ms ==> p.capped_delay(0) == p.max_delay_ms,
        2 * p.capped_delay(attempt) <= p.max_delay_ms ==> p.capped_delay(attempt + 1) == 2
            * p.capped_delay(attempt),
        2 * p.capped_delay(attempt) > p.max_delay_ms ==> p.capped_delay(attempt + 1)
            == p.max_delay_ms,
{
    vstd::arithmetic::power2::lemma2_to64();
    assert(p.base_delay_ms * pow2(0) == p.base_delay_ms) by (nonlinear_arith)
        requires
            pow2(0) == 1,
    ;
    lemma_pow2_unfold(attempt + 1);
    assert(p.base_delay_ms * pow2(attempt + 1) == 2 * (p.base_delay_ms * pow2(attempt)))
        by (nonlinear_arith)
        requires
            pow2(attempt + 1) == 2 * pow2(attempt),
    ;
    assert(0 <= p.base_delay_ms * pow2(attempt)) by (nonlinear_arith);
}

/// Even attempts wait a quarter less than the delay and odd ones a quarter
/// more, where five times the delay fits in 64 bits.
pub proof fn jitter_alternates(p: RetryPolicy, attempt: nat)
    requires
        p.capped_delay(attempt) * 5 <= u64::MAX,
    ensures
        attempt % 2 == 0 ==> 4 * p.backoff(attempt) <= 3 * p.capped_delay(attempt) < 4 * p.backoff(
            attempt,
        ) + 4,
        attempt % 2 == 1 ==> 4 * p.backoff(attempt) <= 5 * p.capped_delay(attempt) < 4 * p.backoff(
            attempt,
        ) + 4,
{
    assert(0 <= p.base_delay_ms * pow2(attempt)) by (nonlinear_arith);
}

/// A stream table that failed waits before the moment of its next retry, and
/// from then on no more.
pub proof fn waits_end_at_the_next_retry(s: RetryState, now_ms: u64)
    ensures
        s.attempts > 0 && now_ms < s.next_retry_at_ms ==> s.waits(now_ms),
        now_ms >= s.next_retry_at_ms ==> !s.waits(now_ms),
        s.attempts == 0 ==> !s.waits(now_ms),
{
}

// ── Quotas ─────────────────────────────────────────────────────────────

/// The cluster has spare capacity below four fifths of its workers.
pub proof fn spare_capacity_is_below_four_fifths(max_cluster: u32, active: u32)
    ensures
        active < cost::burst_threshold(max_cluster) <==> 5 * active < 4 * max_cluster,
{
}

/// A database without a quota has the limit on refreshes, and one at least;
/// one with a quota has it, and half as much again, or one more where that is
/// more, while the cluster has spare capacity.
pub proof fn quotas_grow_by_half_with_spare_capacity(
    per_db_quota: i32,
    max_refreshes: i32,
    max_cluster: u32,
    active: u32,
)
    ensures
        ({
            let q = cost::quota(per_db_quota, max_refreshes, max_cluster, active);
            let spare = 5 * active < 4 * max_cluster;
            &&& per_db_quota <= 0 && max_refreshes >= 1 ==> q == max_refreshes
            &&& per_db_quota <= 0 && max_refreshes < 1 ==> q == 1
            &&& per_db_quota > 0 && !spare ==> q == per_db_quota
            &&& per_db_quota > 0 && spare ==> q > per_db_quota && 2 * q + 1 >= 3 * per_db_quota
                && (2 * q <= 3 * per_db_quota || q == per_db_quota + 1)
        }),
{
}

// ── Memory ─────────────────────────────────────────────────────────────

/// A setting is found by its name, the last one where there are several, and
/// no other is found.
pub proof fn settings_are_found_by_name(
    v: Seq<(Seq<char>, SettingView)>,
    name: Seq<char>,
    other: Seq<char>,
    s: SettingView,
)
    ensures
        machine::setting(v.push((name, s)), name) == Some(s),
        other != name ==> machine::setting(v.push((name, s)), other) == machine::setting(v, other),
        machine::setting(Seq::empty(), name) is None,
{
    assert(v.push((name, s)).drop_last() =~= v);
}

/// A row with a name, a value and a source is a setting; any other is passed
/// over, and no row changes what the others give.
pub proof fn whole_rows_are_settings(
    a: Seq<(Option<String>, Option<String>, Option<String>)>,
    b: Seq<(Option<String>, Option<String>, Option<String>)>,
    row: (Option<String>, Option<String>, Option<String>),
)
    ensures
        machine::row_settings(a + b) == machine::row_settings(a) + machine::row_settings(b),
        row.0 is Some && row.1 is Some && row.2 is Some ==> machine::row_settings(seq![row])
            == seq![(row.0->0@, SettingView { value: row.1->0@, source: row.2->0@ })],
        row.0 is None || row.1 is None || row.2 is None ==> machine::row_settings(seq![row]).len()
            == 0,
    decreases b.len(),
{
    reveal_with_fuel(machine::row_settings, 2);
    assert(seq![row].drop_last() =~= Seq::empty());
    if row.0 is Some && row.1 is Some && row.2 is Some {
        assert(machine::row_settings(seq![row]) =~= seq![
            (row.0->0@, SettingView { value: row.1->0@, source: row.2->0@ }),
        ]);
    }
    if b.len() == 0 {
        assert(a + b =~= a);
        assert(machine::row_settings(a) + machine::row_settings(b) =~= machine::row_settings(a));
    } else {
        whole_rows_are_settings(a, b.drop_last(), row);
        assert((a + b).drop_last() =~= a + b.drop_last());
        assert(machine::row_settings(a + b) =~= machine::row_settings(a) + machine::row_settings(
            b,
        ));
    }
}

/// A decimal number has no white space to be taken off.
proof fn lemma_decimal_is_trimmed(n: nat)
    ensures
        lexical::trimmed(text::decimal(n)) == text::decimal(n),
        lexical::trimmed(text::decimal(n).push('\n')) == text::decimal(n),
        lexical::trimmed(text::decimal(n)) != "max"@,
        n <= u64::MAX ==> lexical::parsed_u64(text::decimal(n)) == Some(n as u64),
{
    reveal_strlit("max");
    let d = text::decimal(n);
    lexical::decimal_reads_back(n);
    assert(d.len() > 0);
    assert('0' <= d[0] <= '9');
    assert('0' <= d[d.len() - 1] <= '9');
    let t = d.push('\n');
    assert(lexical::trimmed_start(t) == t);
    assert(t.drop_last() =~= d);
    assert(lexical::trimmed_end(d) == d);
    assert(lexical::trimmed_end(t) == d);
    assert("max"@[0] == 'm');
}

/// A control group file that holds a number gives it as the limit, with or
/// without a line feed behind it; zero, and the word for no limit, give none.
/// A limit is never zero.
pub proof fn limits_are_numbers(content: Seq<char>, n: u64)
    ensures
        n > 0 ==> machine::cgroup_limit(text::decimal(n as nat)) == Some(n),
        n > 0 ==> machine::cgroup_limit(text::decimal(n as nat).push('\n')) == Some(n),
        machine::cgroup_limit(text::decimal(0)) is None,
        lexical::trimmed(content) == "max"@ ==> machine::cgroup_limit(content) is None,
        machine::cgroup_limit(content) matches Some(limit) ==> limit > 0 && lexical::parsed_u64(
            lexical::trimmed(content),
        ) == Some(limit),
{
    lemma_decimal_is_trimmed(n as nat);
    lemma_decimal_is_trimmed(0);
}

/// The limit is that of the first file that gives one.
pub proof fn the_first_limit_counts(files: Seq<Option<String>>)
    ensures
        match machine::first_limit(files) {
            Some(n) => exists|k: int|
                0 <= k < files.len() && (#[trigger] files[k]) is Some && machine::cgroup_limit(
                    files[k]->0@,
                ) == Some(n) && machine::first_limit(files.take(k)) is None,
            None => forall|k: int|
                0 <= k < files.len() ==> (#[trigger] files[k]) is None || machine::cgroup_limit(
                    files[k]->0@,
                ) is None,
        },
    decreases files.len(),
{
    if files.len() > 0 {
        let rest = files.drop_first();
        the_first_limit_counts(rest);
        if files[0] is Some && machine::cgroup_limit(files[0]->0@) is Some {
            assert(files.take(0) =~= Seq::empty());
            assert(files[0] is Some);
        } else {
            match machine::first_limit(files) {
                Some(n) => {
                    let k = choose|k: int|
                        0 <= k < rest.len() && (#[trigger] rest[k]) is Some
                            && machine::cgroup_limit(rest[k]->0@) == Some(n)
                            && machine::first_limit(rest.take(k)) is None;
                    assert(files[k + 1] == rest[k]);
                    assert(files.take(k + 1).drop_first() =~= rest.take(k));
                },
                None => {
                    assert forall|k: int| 0 <= k < files.len() implies (#[trigger] files[k]) is None
                        || machine::cgroup_limit(files[k]->0@) is None by {
                        if k > 0 {
                            assert(files[k] == rest[k - 1]);
                        }
                    }
                },
            }
        }
    }
}

/// The memory of the system is the number of kibibytes that its line tells, in
/// bytes.
pub proof fn memory_is_told_in_kibibytes(report: Seq<char>)
    ensures
        match machine::total_memory(report) {
            Some(bytes) => {
                let line = lexical::line_with(report, "MemTotal:"@);
                &&& line is Some
                &&& lexical::words(line->0).len() > 1
                &&& lexical::parsed_u64(lexical::words(line->0)[1]) matches Some(kb)
                &&& kb * 1024 <= u64::MAX ==> bytes == kb * 1024
                &&& kb * 1024 > u64::MAX ==> bytes == u64::MAX
            },
            None => lexical::line_with(report, "MemTotal:"@) matches Some(line)
                ==> lexical::words(line).len() <= 1 || lexical::parsed_u64(
                lexical::words(line)[1],
            ) is None,
        },
{
}

/// A limit of a control group counts before the memory of the system.
pub proof fn limits_count_before_the_system(files: Seq<Option<String>>, report: Option<String>)
    ensures
        machine::first_limit(files) is Some ==> machine::visible_memory(files, report)
            == machine::first_limit(files),
        machine::first_limit(files) is None && report is Some ==> machine::visible_memory(
            files,
            report,
        ) == machine::total_memory(report->0@),
        machine::first_limit(files) is None && report is None ==> machine::visible_memory(
            files,
            report,
        ) is None,
{
}

/// Mebibytes are bytes in whole units of 2^20.
pub proof fn mebibytes_are_whole(bytes: u64)
    ensures
        machine::mebibytes(Some(bytes)) is Some,
        machine::mebibytes(Some(bytes))->0 * 1048576 <= bytes < (machine::mebibytes(Some(bytes))->0
            + 1) * 1048576,
        machine::mebibytes(None) is None,
{
}

/// There is a worker, no more than 32, no more than processors or than the
/// server allows where these are more than none; and no fewer than these
/// bounds leave room for.
pub proof fn workers_are_as_many_as_allowed(max_worker_processes: Option<i32>, cpu: i32)
    ensures
        ({
            let n = machine::worker_count(max_worker_processes, cpu);
            &&& 1 <= n <= 32
            &&& cpu >= 1 ==> n <= cpu
            &&& max_worker_processes is Some && max_worker_processes->0 >= 1 ==> n
                <= max_worker_processes->0
            &&& n == 1 || n == 32 || n == cpu || max_worker_processes == Some(n)
            &&& n < 32 && cpu > n ==> max_worker_processes is Some && max_worker_processes->0 <= n
            &&& n == 1 && cpu > 1 ==> max_worker_processes is Some && max_worker_processes->0 <= 1
        }),
{
}

/// The memory budget is a tenth of what can be used, within its bounds, and
/// the configured one where it is not known what can be used.
pub proof fn budgets_are_a_tenth(host: Option<u64>, configured: u64)
    ensures
        host is None ==> machine::budget(host, configured) == configured,
        machine::mebibytes(host) matches Some(mb) ==> {
            let b = machine::budget(host, configured);
            &&& 16 <= b <= 1_048_576
            &&& 160 <= mb <= 10_485_760 ==> 10 * b <= mb < 10 * b + 10
            &&& mb < 160 ==> b == 16
            &&& mb > 10_485_769 ==> b == 1_048_576
        },
{
}

/// A setting is overridden where it does not come from the default.
pub proof fn settings_that_differ_are_overridden(s: SettingView)
    ensures
        machine::overridden(Some(s)) <==> s.source != "default"@,
        !machine::overridden(None),
        machine::source_of(None) == "default"@,
        machine::source_of(Some(s)) == s.source,
        machine::value_of(Some(s)) == Some(s.value),
        machine::value_of(None) is None,
        machine::value_or_unknown(Some(s)) == s.value,
        machine::value_or_unknown(None) == "unknown"@,
{
}

/// A setting that holds a number is read as it; one that holds none, and one
/// that is not there, is read as the default.
pub proof fn numbers_are_read_from_settings(n: u64, source: Seq<char>, default: u64, s: SettingView)
    ensures
        machine::u64_of(Some(SettingView { value: text::decimal(n as nat), source }), default) == n,
        machine::u64_of(None, default) == default,
        lexical::parsed_u64(s.value) is None ==> machine::u64_of(Some(s), default) == default,
        machine::i32_of(None) is None,
        machine::i32_of(Some(s)) == lexical::parsed_i32(s.value),
{
    lemma_decimal_is_trimmed(n as nat);
}

// ── The profile ────────────────────────────────────────────────────────

/// The profile has a row for each limit, each with what was found for it,
/// whether anything was found, and what follows.
pub proof fn every_limit_is_in_the_profile(
    settings: Seq<(Seq<char>, SettingView)>,
    host: Option<u64>,
    cpus: Option<usize>,
)
    ensures
        ({
            let p = machine::profile(settings, host, cpus);
            let workers = machine::setting(settings, "max_worker_processes"@);
            let connections = machine::setting(settings, "max_connections"@);
            let buffers = machine::setting(settings, "shared_buffers"@);
            let memory = machine::setting(settings, "pg_trickle.memory_budget_mb"@);
            let refreshes = machine::setting(settings, "pg_trickle.max_concurrent_refreshes"@);
            let count = text::decimal_int(
                machine::worker_count(machine::i32_of(workers), machine::processors(cpus)) as int,
            );
            &&& p.len() == 7
            &&& p[0].constraint_name == "host_memory"@ && (p[0].available <==> host is Some)
            &&& p[0].detected_value is Some <==> host is Some
            &&& p[0].overridden == machine::overridden(memory)
            &&& p[1].constraint_name == "max_worker_processes"@ && p[1].selected_value == count
            &&& p[1].available <==> machine::i32_of(workers) is Some
            &&& p[1].detected_value is Some <==> p[1].available
            &&& p[1].overridden == machine::overridden(workers)
            &&& p[2].constraint_name == "cpu_parallelism"@ && p[2].selected_value == count
            &&& p[2].available <==> cpus is Some
            &&& cpus matches Some(n) ==> p[2].detected_value == Some(text::decimal(n as nat))
            &&& p[2].overridden == machine::overridden(refreshes)
            &&& p[3].constraint_name == "max_connections"@ && (p[3].available
                <==> connections is Some)
            &&& connections matches Some(s) ==> p[3].selected_value == s.value
                && p[3].detected_value == Some(s.value)
            &&& connections is None ==> p[3].selected_value == "unknown"@
            &&& p[4].constraint_name == "shared_buffers"@ && (p[4].available <==> buffers is Some)
            &&& buffers matches Some(s) ==> p[4].selected_value == s.value && p[4].detected_value
                == Some(s.value)
            &&& p[5].constraint_name == "pg_trickle_memory_budget_mb"@ && p[5].available
            &&& p[5].detected_value == Some(text::decimal(machine::u64_of(memory, 256) as nat))
            &&& p[5].selected_value == text::decimal(
                machine::budget(host, machine::u64_of(memory, 256)) as nat,
            )
            &&& memory matches Some(s) ==> p[5].source == s.source
            &&& text::begins(p[0].selected_value, p[5].selected_value)
            &&& p[6].constraint_name == "pg_trickle_max_concurrent_refreshes"@ && p[6].available
            &&& machine::i32_of(refreshes) matches Some(n) ==> p[6].detected_value == Some(
                text::decimal_int(n as int),
            )
            &&& p[6].selected_value == count
            &&& refreshes matches Some(s) ==> p[6].source == s.source
        }),
{
    let p = machine::profile(settings, host, cpus);
    let a = p[5].selected_value;
    assert(p[0].selected_value.subrange(0, a.len() as int) =~= a);
}

/// The number of processors is what was found, and one where nothing was.
pub proof fn unknown_processors_count_as_one(n: usize)
    ensures
        machine::processors(None) == 1,
        n <= i32::MAX ==> machine::processors(Some(n)) == n,
{
}

// ── Disk use ───────────────────────────────────────────────────────────

/// Sizes are never negative, and what a stream table may take is the sum of
/// what its table and its buffers take, up to what fits.
pub proof fn projections_add_up(relation: Option<i64>, buffers: Option<i64>)
    ensures
        machine::size(relation) >= 0,
        relation matches Some(n) ==> n >= 0 ==> machine::size(relation) == n,
        relation is None ==> machine::size(relation) == 0,
        machine::size(relation) + machine::size(buffers) <= i64::MAX ==> machine::projected(
            relation,
            buffers,
        ) == machine::size(relation) + machine::size(buffers),
        machine::size(relation) + machine::size(buffers) > i64::MAX ==> machine::projected(
            relation,
            buffers,
        ) == i64::MAX,
        machine::projected(relation, buffers) == machine::projected(buffers, relation),
{
}

/// The pressure is told by the headroom: none is told where there is none,
/// beyond it a stream table is over, from four fifths of it a warning is due,
/// and below all is well.
pub proof fn pressure_rises_at_four_fifths(total: i64, headroom: i64)
    requires
        total >= 0,
        headroom <= i64::MAX / 100,
    ensures
        headroom == 0 <==> machine::pressure(total, headroom) == "DISABLED"@,
        headroom > 0 && total >= headroom ==> machine::pressure(total, headroom)
            == "OVER_HEADROOM"@,
        headroom > 0 && total < headroom && 5 * total >= 4 * headroom ==> machine::pressure(
            total,
            headroom,
        ) == "WARN"@,
        headroom > 0 && 5 * total < 4 * headroom ==> machine::pressure(total, headroom) == "OK"@,
{
    reveal_strlit("DISABLED");
    reveal_strlit("OVER_HEADROOM");
    reveal_strlit("WARN");
    reveal_strlit("OK");
    assert("DISABLED"@.len() == 8 && "OVER_HEADROOM"@.len() == 13 && "WARN"@.len() == 4
        && "OK"@.len() == 2);
}

/// Each row with a stream table tells of its disk use, in order, and what is
/// left of the headroom is what the stream table does not take.
pub proof fn disk_use_is_told_row_by_row(
    a: Seq<(Option<String>, Option<i64>, Option<i64>)>,
    b: Seq<(Option<String>, Option<i64>, Option<i64>)>,
    row: (Option<String>, Option<i64>, Option<i64>),
    headroom: i64,
)
    ensures
        machine::usage(a + b, headroom) == machine::usage(a, headroom) + machine::usage(
            b,
            headroom,
        ),
        row.0 is None ==> machine::usage(seq![row], headroom).len() == 0,
        row.0 is Some ==> {
            let u = machine::usage(seq![row], headroom);
            &&& u.len() == 1
            &&& u[0].stream_table == row.0->0@
            &&& u[0].relation_bytes == machine::size(row.1)
            &&& u[0].change_buffer_bytes == machine::size(row.2)
            &&& u[0].projected_bytes == machine::projected(row.1, row.2)
            &&& u[0].headroom_bytes >= 0
            &&& headroom > u[0].projected_bytes ==> u[0].headroom_bytes + u[0].projected_bytes
                == headroom
            &&& headroom <= u[0].projected_bytes ==> u[0].headroom_bytes == 0
            &&& u[0].pressure_state == machine::pressure(u[0].projected_bytes, headroom)
        },
    decreases b.len(),
{
    reveal_with_fuel(machine::usage, 2);
    assert(seq![row].drop_last() =~= Seq::empty());
    projections_add_up(row.1, row.2);
    projections_add_up(row.2, row.1);
    if b.len() == 0 {
        assert(a + b =~= a);
        assert(machine::usage(a, headroom) + machine::usage(b, headroom) =~= machine::usage(
            a,
            headroom,
        ));
    } else {
        disk_use_is_told_row_by_row(a, b.drop_last(), row, headroom);
        assert((a + b).drop_last() =~= a + b.drop_last());
        assert((a + b).last() == b.last());
        assert(machine::usage(a + b, headroom) =~= machine::usage(a, headroom) + machine::usage(
            b,
            headroom,
        ));
    }
}

/// The catalog of errors has the states of the server that go with the names.
pub proof fn errors_have_the_states_of_the_server()
    ensures
        ({
            let c = machine::catalog_entries();
            &&& c.len() == 6
            &&& c[0].0 == "LOCK_TIMEOUT"@ && c[0].1 == "55P03"@
            &&& c[1].0 == "STATEMENT_TIMEOUT"@ && c[1].1 == "57014"@
            &&& c[2].0 == "DEADLOCK"@ && c[2].1 == "40P01"@
            &&& c[3].0 == "SERIALIZATION"@ && c[3].1 == "40001"@
            &&& c[4].0 == "OUT_OF_MEMORY"@ && c[4].1 == "53200"@
            &&& c[5].0 == "PERMANENT"@ && c[5].1 == "XX000"@
        }),
{
}

} // verus!
