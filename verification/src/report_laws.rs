//! What holds of reports: alerts and explanations of stream tables, and the
//! actions, answers and recommendations that are shown to users.

use vstd::prelude::*;

use crate::catalog::StreamTableMeta;
use crate::lexical;
use crate::monitor;
use crate::monitor::{AlertEvent, FrontierInfo, PlanInfo};
use crate::text;
use crate::text_laws;
use crate::text_map;
use crate::tui::poller;
use crate::tui::poller::{ActionReply, ActionRequest, DiagRow, ReplyKind};

verus! {

// ── Alerts ─────────────────────────────────────────────────────────────

/// The names of events are those that listeners know.
pub proof fn events_have_their_names()
    ensures
        AlertEvent::StaleData.name() == "stale_data"@,
        AlertEvent::AutoSuspended.name() == "auto_suspended"@,
        AlertEvent::ReinitializeNeeded.name() == "reinitialize_needed"@,
        AlertEvent::BufferGrowthWarning.name() == "buffer_growth_warning"@,
        AlertEvent::RefreshCompleted.name() == "refresh_completed"@,
        AlertEvent::RefreshFailed.name() == "refresh_failed"@,
{
}

/// As much of a text is kept as fits: what is kept fits, and with one
/// character more it does not.
pub proof fn as_much_is_kept_as_fits(s: Seq<char>, bytes: nat)
    ensures
        ({
            let k = monitor::chars_within(s, bytes) as int;
            &&& 0 <= k <= s.len()
            &&& lexical::byte_len(s.take(k)) <= bytes
            &&& k < s.len() ==> lexical::byte_len(s.take(k + 1)) > bytes
        }),
    decreases s.len(),
{
    assert(s.take(s.len() as int) =~= s);
    if lexical::byte_len(s) > bytes && s.len() > 0 {
        let rest = s.drop_last();
        as_much_is_kept_as_fits(rest, bytes);
        let k = monitor::chars_within(rest, bytes) as int;
        assert(rest.take(k) =~= s.take(k));
        if k < rest.len() {
            assert(rest.take(k + 1) =~= s.take(k + 1));
        } else {
            assert(s.take(k + 1) =~= s);
        }
    }
}

/// An alert that is short enough is sent whole; of a longer one the start is
/// sent, with a mark behind it.
pub proof fn short_alerts_are_sent_whole(payload: Seq<char>)
    ensures
        lexical::byte_len(payload) <= 7900 ==> monitor::cut(payload) == payload,
        lexical::byte_len(payload) > 7900 ==> {
            let k = monitor::cut(payload).len() - 4;
            &&& 0 <= k < payload.len()
            &&& text::begins(monitor::cut(payload), payload.take(k))
            &&& text::ends(monitor::cut(payload), "...}"@)
            &&& lexical::byte_len(payload.take(k)) <= 7890
            &&& lexical::byte_len(payload.take(k + 1)) > 7890
        },
{
    if lexical::byte_len(payload) > 7900 {
        reveal_strlit("...}");
        as_much_is_kept_as_fits(payload, monitor::KEPT_BYTES as nat);
        let k = monitor::chars_within(payload, monitor::KEPT_BYTES as nat) as int;
        let c = monitor::cut(payload);
        assert(payload.take(payload.len() as int) =~= payload);
        assert(c.subrange(0, k) =~= payload.take(k));
        assert(c.subrange(k, c.len() as int) =~= "...}"@);
    }
}

/// Characters take from one to four bytes, and more the higher their number;
/// texts take what their characters take.
pub proof fn bytes_add_up(a: Seq<char>, b: Seq<char>, c: char)
    ensures
        1 <= lexical::char_bytes(c) <= 4,
        (c as u32) < 0x80 <==> lexical::char_bytes(c) == 1,
        (c as u32) < 0x800 <==> lexical::char_bytes(c) <= 2,
        (c as u32) < 0x1_0000 <==> lexical::char_bytes(c) <= 3,
        lexical::byte_len(seq![c]) == lexical::char_bytes(c),
        lexical::byte_len(a + b) == lexical::byte_len(a) + lexical::byte_len(b),
    decreases b.len(),
{
    reveal_with_fuel(lexical::byte_len, 2);
    assert(seq![c].drop_last() =~= Seq::empty());
    if b.len() == 0 {
        assert(a + b =~= a);
    } else {
        bytes_add_up(a, b.drop_last(), c);
        assert((a + b).drop_last() =~= a + b.drop_last());
    }
}

/// An alert of a stream table has its schema and its name as JSON strings that
/// read back.
pub proof fn names_in_alerts_read_back(
    event: AlertEvent,
    schema: Seq<char>,
    name: Seq<char>,
    extra: Seq<char>,
)
    ensures
        ({
            let t = monitor::alert_text(event, schema, name, extra);
            &&& text::occurs(
                t,
                "\"event\":\""@ + event.name() + "\",\"pgs_schema\":\""@ + monitor::escaped(schema)
                    + "\",\"pgs_name\":\""@ + monitor::escaped(name) + "\",\"dt\":\""@
                    + monitor::escaped(schema + "."@ + name) + "\","@ + extra,
            )
            &&& monitor::unescaped(monitor::escaped(schema)) == Some(schema)
            &&& monitor::unescaped(monitor::escaped(name)) == Some(name)
        }),
{
    monitor::an_alert_tells_what_happened_and_where(
        event.name(),
        monitor::escaped(schema),
        monitor::escaped(name),
        monitor::escaped(schema + "."@ + name),
        extra,
    );
    monitor::escaped_reads_back(schema);
    monitor::escaped_reads_back(name);
}

/// A name without a dot is one of the schema `public`.
pub proof fn names_without_a_dot_are_public(name: Seq<char>)
    requires
        !name.contains('.'),
    ensures
        monitor::split_name(name) == ("public"@, name),
{
    reveal_strlit(".");
    lexical::first_iff_occurs(name, "."@);
    if text::occurs(name, "."@) {
        let i = choose|i: int| #[trigger] text::occurs_at(name, "."@, i);
        assert(name.subrange(i, i + 1)[0] == name[i]);
        assert("."@[0] == '.');
        assert(name.contains('.'));
    }
}

// ── Explanations ───────────────────────────────────────────────────────

/// An explanation tells the name, the query, the mode and the status of the
/// stream table, and whether it was filled.
pub proof fn explanations_tell_what_the_catalog_says(meta: StreamTableMeta)
    ensures
        ({
            let p = monitor::table_properties(meta);
            &&& p.contains(("pgs_name"@, meta.pgs_schema@ + "."@ + meta.pgs_name@))
            &&& p.contains(("defining_query"@, meta.defining_query@))
            &&& p.contains(("refresh_mode"@, meta.refresh_mode.name()))
            &&& p.contains(("status"@, meta.status.name()))
            &&& meta.is_populated ==> p.contains(("is_populated"@, "true"@))
            &&& !meta.is_populated ==> p.contains(("is_populated"@, "false"@))
            &&& p.len() == 5
        }),
{
    let p = monitor::table_properties(meta);
    assert(p[0] == ("pgs_name"@, meta.pgs_schema@ + "."@ + meta.pgs_name@));
    assert(p[1] == ("defining_query"@, meta.defining_query@));
    assert(p[2] == ("refresh_mode"@, meta.refresh_mode.name()));
    assert(p[3] == ("status"@, meta.status.name()));
    assert(p[4].0 == "is_populated"@);
}

/// An explanation tells whether the stream table can be maintained by deltas;
/// if so its operator tree, its columns, its sources and its delta query or
/// why there is none; and if not, why not.
pub proof fn explanations_tell_of_the_plan(plan: PlanInfo)
    ensures
        plan matches PlanInfo::Supported(tree, printed, delta) ==> {
            let p = monitor::plan_properties(plan);
            &&& p.contains(("dvm_supported"@, "true"@))
            &&& p.contains(("operator_tree"@, printed@))
            &&& p.contains(("output_columns"@, text::join(tree.spec_columns(), ", "@)))
            &&& p.contains(
                ("source_oids"@, text::join(monitor::oid_texts(tree.spec_sources()), ", "@)),
            )
            &&& delta matches Ok(sql) ==> p.contains(("delta_query"@, sql@))
            &&& delta matches Err(e) ==> p.contains(("delta_query_error"@, e@))
        },
        plan matches PlanInfo::Unsupported(e) ==> monitor::plan_properties(plan).contains(
            ("dvm_supported"@, "false"@),
        ) && monitor::plan_properties(plan).contains(("dvm_error"@, e@)),
{
    let p = monitor::plan_properties(plan);
    match plan {
        PlanInfo::Supported(tree, printed, delta) => {
            assert(p[0] == ("dvm_supported"@, "true"@));
            assert(p[1] == ("operator_tree"@, printed@));
            assert(p[2] == ("output_columns"@, text::join(tree.spec_columns(), ", "@)));
            assert(p[3] == (
                "source_oids"@,
                text::join(monitor::oid_texts(tree.spec_sources()), ", "@),
            ));
            match delta {
                Ok(sql) => {
                    assert(p[4] == ("delta_query"@, sql@));
                },
                Err(e) => {
                    assert(p[4] == ("delta_query_error"@, e@));
                },
            }
        },
        PlanInfo::Unsupported(e) => {
            assert(p[0] == ("dvm_supported"@, "false"@));
            assert(p[1] == ("dvm_error"@, e@));
        },
    }
}

/// An explanation tells how far the stream table has come, as JSON, and `null`
/// where it has not begun.
pub proof fn explanations_tell_of_the_frontier(frontier: FrontierInfo)
    ensures
        frontier matches FrontierInfo::Json(json) ==> monitor::frontier_properties(frontier)
            == seq![("frontier"@, json@)],
        frontier is Absent ==> monitor::frontier_properties(frontier) == seq![
            ("frontier"@, "null"@),
        ],
        frontier is Unwritable ==> monitor::frontier_properties(frontier).len() == 0,
{
}

// ── Actions ────────────────────────────────────────────────────────────

/// What an action is about.
pub open spec fn subject(action: ActionRequest) -> Option<Seq<char>> {
    match action {
        ActionRequest::RefreshTable(name) => Some(name@),
        ActionRequest::RefreshAll => None,
        ActionRequest::PauseTable(name) => Some(name@),
        ActionRequest::ResumeTable(name) => Some(name@),
        ActionRequest::ResetFuse(name, _) => Some(name@),
        ActionRequest::RepairTable(name) => Some(name@),
        ActionRequest::GateSource(name) => Some(name@),
        ActionRequest::UngateSource(name) => Some(name@),
        ActionRequest::FetchDeltaSql(name) => Some(name@),
        ActionRequest::FetchDdl(name) => Some(name@),
        ActionRequest::ValidateQuery(query) => Some(query@),
    }
}

/// The statement of an action has what it is about as its first parameter and
/// never in its text; the action on all has no parameter.
pub proof fn actions_pass_their_subject(action: ActionRequest)
    ensures
        subject(action) matches Some(s) ==> action.statement().params.len() >= 1
            && action.statement().params[0] == s,
        subject(action) is None ==> action.statement().params.len() == 0,
        action matches ActionRequest::ResetFuse(_, strategy) ==> action.statement().params.len()
            == 2 && action.statement().params[1] == strategy@,
        action !is ResetFuse ==> action.statement().params.len() <= 1,
{
}

/// The statement of an action calls the function for it.
pub proof fn actions_call_their_function(action: ActionRequest)
    ensures
        ({
            let sql = action.statement().sql;
            &&& action is RefreshTable ==> sql == "SELECT pgtrickle.refresh_stream_table($1)"@
            &&& action is RefreshAll ==> sql == "SELECT pgtrickle.refresh_all_stream_tables()"@
            &&& action is PauseTable ==> text::ends(sql, "status => 'paused')"@)
            &&& action is ResumeTable ==> text::ends(sql, "status => 'active')"@)
            &&& action is ResetFuse ==> sql == "SELECT pgtrickle.reset_fuse($1, $2)"@
            &&& action is RepairTable ==> sql == "SELECT pgtrickle.repair_stream_table($1)"@
            &&& action is GateSource ==> sql == "SELECT pgtrickle.gate_source($1)"@
            &&& action is UngateSource ==> sql == "SELECT pgtrickle.ungate_source($1)"@
            &&& action is FetchDeltaSql ==> sql == "SELECT pgtrickle.explain_delta($1)"@
            &&& action is FetchDdl ==> sql == "SELECT pgtrickle.export_definition($1)"@
            &&& action is ValidateQuery ==> text::ends(sql, "pgtrickle.validate_query($1)"@)
        }),
{
    reveal_strlit("SELECT pgtrickle.alter_stream_table($1, status => 'paused')");
    reveal_strlit("SELECT pgtrickle.alter_stream_table($1, status => 'active')");
    reveal_strlit("status => 'paused')");
    reveal_strlit("status => 'active')");
    reveal_strlit("pgtrickle.validate_query($1)");
    reveal_strlit(
        "SELECT check_name::text, result::text, severity::text FROM pgtrickle.validate_query($1)",
    );
    let sql = action.statement().sql;
    if action is PauseTable {
        assert(sql.subrange(sql.len() - 19, sql.len() as int) =~= "status => 'paused')"@);
    }
    if action is ResumeTable {
        assert(sql.subrange(sql.len() - 19, sql.len() as int) =~= "status => 'active')"@);
    }
    if action is ValidateQuery {
        assert(sql.subrange(sql.len() - 28, sql.len() as int) =~= "pgtrickle.validate_query($1)"@);
    }
}

/// What an action expects back: a text where one is fetched, checks where a
/// query is validated, and else nothing.
pub proof fn actions_expect_what_they_fetch(action: ActionRequest)
    ensures
        action.statement().reply == ReplyKind::Text <==> action is FetchDeltaSql
            || action is FetchDdl,
        action.statement().reply == ReplyKind::Checks <==> action is ValidateQuery,
{
}

/// Users are told what was done, and to what: to each action its own words.
pub proof fn users_are_told_what_was_done(action: ActionRequest)
    requires
        action.statement().reply == ReplyKind::Nothing,
    ensures
        subject(action) matches Some(s) ==> text::occurs(action.done_message(), s),
        action is RefreshTable || action is RefreshAll ==> text::begins(
            action.done_message(),
            "Refreshed "@,
        ),
        action is PauseTable ==> text::begins(action.done_message(), "Paused "@),
        action is ResumeTable ==> text::begins(action.done_message(), "Resumed "@),
        action is ResetFuse ==> text::begins(action.done_message(), "Reset fuse for "@),
        action is RepairTable ==> text::begins(action.done_message(), "Repaired "@),
        action is GateSource ==> text::begins(action.done_message(), "Gated source "@),
        action is UngateSource ==> text::begins(action.done_message(), "Ungated source "@),
        action matches ActionRequest::ResetFuse(_, strategy) ==> text::occurs(
            action.done_message(),
            strategy@,
        ),
{
    let e = Seq::<char>::empty();
    match action {
        ActionRequest::RefreshTable(name) => {
            lemma_told("Refreshed "@, name@, e);
        },
        ActionRequest::RefreshAll => {
            reveal_strlit("Refreshed all stream tables");
            reveal_strlit("Refreshed ");
            assert("Refreshed all stream tables"@.subrange(0, 10) =~= "Refreshed "@);
        },
        ActionRequest::PauseTable(name) => {
            lemma_told("Paused "@, name@, e);
        },
        ActionRequest::ResumeTable(name) => {
            lemma_told("Resumed "@, name@, e);
        },
        ActionRequest::ResetFuse(name, strategy) => {
            let rest = " (strategy: "@ + strategy@ + ")"@;
            lemma_told("Reset fuse for "@, name@, rest);
            let start = "Reset fuse for "@ + name@ + " (strategy: "@;
            assert(action.done_message() =~= "Reset fuse for "@ + name@ + rest);
            lemma_told(start, strategy@, ")"@);
            assert(action.done_message() =~= start + strategy@ + ")"@);
        },
        ActionRequest::RepairTable(name) => {
            lemma_told("Repaired "@, name@, e);
        },
        ActionRequest::GateSource(name) => {
            lemma_told("Gated source "@, name@, e);
        },
        ActionRequest::UngateSource(name) => {
            lemma_told("Ungated source "@, name@, e);
        },
        _ => {},
    }
}

/// A text behind words and before others.
proof fn lemma_told(words: Seq<char>, s: Seq<char>, rest: Seq<char>)
    ensures
        text::begins(words + s + rest, words),
        text::occurs(words + s + rest, s),
        rest.len() == 0 ==> words + s + rest == words + s,
{
    let t = words + s + rest;
    assert(t.subrange(0, words.len() as int) =~= words);
    text_laws::parts_of_a_text_occur_in_it(words, s, rest);
    if rest.len() == 0 {
        assert(t =~= words + s);
    }
}

/// What comes back is shown: a failure as an error, a text as it is, and what
/// was done where nothing comes back.
pub proof fn what_comes_back_is_shown(action: ActionRequest, reply: ActionReply)
    ensures
        reply matches ActionReply::Failed(e) ==> text::begins(
            poller::told(action, reply),
            "Error: "@,
        ) && text::ends(poller::told(action, reply), e@),
        reply matches ActionReply::Text(t) ==> poller::told(action, reply) == t@,
        reply is Done ==> poller::told(action, reply) == action.done_message(),
        reply matches ActionReply::Checks(rows) ==> poller::told(action, reply)
            == poller::check_lines(rows@),
{
    if let ActionReply::Failed(e) = reply {
        let t = "Error: "@ + e@;
        assert(t.subrange(0, "Error: "@.len() as int) =~= "Error: "@);
        assert(t.subrange(t.len() - e@.len(), t.len() as int) =~= e@);
    }
}

/// A reply answers an action only where it is of the kind that the action
/// expects, but for failures, which answer any.
pub proof fn replies_are_of_the_expected_kind(action: ActionRequest, reply: ActionReply)
    ensures
        reply is Failed ==> poller::answers(reply, action),
        reply is Text ==> (poller::answers(reply, action) <==> action is FetchDeltaSql
            || action is FetchDdl),
        reply is Checks ==> (poller::answers(reply, action) <==> action is ValidateQuery),
        reply is Done ==> (poller::answers(reply, action) <==> action !is FetchDeltaSql
            && action !is FetchDdl && action !is ValidateQuery),
{
}

/// Each check is a line with its severity, its name and its result, in the
/// order of the checks.
pub proof fn each_check_is_a_line(
    a: Seq<(String, String, String)>,
    b: Seq<(String, String, String)>,
    row: (String, String, String),
)
    ensures
        poller::check_lines(a + b) == poller::check_lines(a) + poller::check_lines(b),
        poller::check_lines(seq![row]) == "["@ + row.2@ + "] "@ + row.0@ + ": "@ + row.1@ + "\n"@,
    decreases b.len(),
{
    reveal_with_fuel(poller::check_lines, 2);
    assert(seq![row].drop_last() =~= Seq::empty());
    assert(poller::check_lines(seq![row]) =~= "["@ + row.2@ + "] "@ + row.0@ + ": "@ + row.1@
        + "\n"@);
    if b.len() == 0 {
        assert(a + b =~= a);
        assert(poller::check_lines(a) + poller::check_lines(b) =~= poller::check_lines(a));
    } else {
        each_check_is_a_line(a, b.drop_last(), row);
        assert((a + b).drop_last() =~= a + b.drop_last());
        assert(poller::check_lines(a + b) =~= poller::check_lines(a) + poller::check_lines(b));
    }
}

/// A failed poll is shown with its error; after one that went well an error of
/// something else stays.
pub proof fn other_errors_stay(before: Option<Seq<char>>, failure: Seq<char>)
    ensures
        text::ends(poller::shown_error(before, Some(failure))->0, failure),
        before matches Some(m) ==> !text::begins(m, "poll_stream_tables:"@)
            ==> poller::shown_error(before, None) == before,
        before is None ==> poller::shown_error(before, None) is None,
{
    let t = "poll_stream_tables: "@ + failure;
    assert(t.subrange(t.len() - failure.len(), t.len() as int) =~= failure);
}

/// The signals of a stream table are remembered under its name, the latest
/// ones; rows without signals change nothing.
pub proof fn latest_signals_are_remembered(
    before: Seq<(Seq<char>, Seq<char>)>,
    rows: Seq<DiagRow>,
    row: DiagRow,
    signals: Seq<Option<Seq<char>>>,
    other: Seq<char>,
)
    requires
        signals.len() == rows.len() + 1,
    ensures
        ({
            let now = poller::remembered(before, rows.push(row), signals);
            let earlier = poller::remembered(before, rows, signals);
            &&& signals.last() matches Some(s) ==> text_map::latest(now, row.name@) == Some(s)
            &&& signals.last() is None ==> now == earlier
            &&& other != row.name@ ==> text_map::latest(now, other) == text_map::latest(
                earlier,
                other,
            )
        }),
        poller::remembered(before, Seq::empty(), signals) == before,
{
    assert(rows.push(row).drop_last() =~= rows);
    let earlier = poller::remembered(before, rows, signals);
    if let Some(s) = signals.last() {
        assert(earlier.push((row.name@, s)).drop_last() =~= earlier);
    }
}

/// The signals of a row are those of its text, and none where it has none.
pub proof fn rows_without_a_text_have_no_signals(row: DiagRow)
    ensures
        row.signals_text is None ==> poller::row_signals(row) is None,
        row.signals_text matches Some(t) ==> poller::row_signals(row) == poller::compact_json(t@),
{
}

} // verus!
