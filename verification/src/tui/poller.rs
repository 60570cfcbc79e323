//! What the dashboard asks of the server, and what it makes of the answers.

use vstd::prelude::*;
use vstd::string::*;

use crate::text;
use crate::text::{copy_opt, starts_with};
use crate::text_map::TextMap;

verus! {

// ── Actions ────────────────────────────────────────────────────────────

/// Something that the user asks for.
#[derive(Debug)]
pub enum ActionRequest {
    RefreshTable(String),
    RefreshAll,
    PauseTable(String),
    ResumeTable(String),
    /// A stream table and how its fuse is reset.
    ResetFuse(String, String),
    RepairTable(String),
    GateSource(String),
    UngateSource(String),
    FetchDeltaSql(String),
    FetchDdl(String),
    ValidateQuery(String),
}

/// What the server sends back.
#[derive(Debug, Clone, Copy, PartialEq, Eq, Structural)]
pub enum ReplyKind {
    /// Nothing that matters.
    Nothing,
    /// One text.
    Text,
    /// Checks: a name, a result and a severity each.
    Checks,
}

/// A statement with its parameters, and what it sends back.
#[derive(Debug)]
pub struct Statement {
    pub sql: String,
    pub params: Vec<String>,
    pub reply: ReplyKind,
}

/// A statement with its parameters, and what it sends back.
pub struct StatementView {
    pub sql: Seq<char>,
    pub params: Seq<Seq<char>>,
    pub reply: ReplyKind,
}

impl View for Statement {
    type V = StatementView;

    open spec fn view(&self) -> StatementView {
        StatementView { sql: self.sql@, params: text::texts(self.params@), reply: self.reply }
    }
}

/// A statement with parameters.
pub open spec fn asks(sql: Seq<char>, params: Seq<Seq<char>>, reply: ReplyKind) -> StatementView {
    StatementView { sql, params, reply }
}

impl ActionRequest {
    /// The statement that an action runs.
    pub open spec fn statement(self) -> StatementView {
        match self {
            ActionRequest::RefreshTable(name) => asks(
                "SELECT pgtrickle.refresh_stream_table($1)"@,
                seq![name@],
                ReplyKind::Nothing,
            ),
            ActionRequest::RefreshAll => asks(
                "SELECT pgtrickle.refresh_all_stream_tables()"@,
                Seq::empty(),
                ReplyKind::Nothing,
            ),
            ActionRequest::PauseTable(name) => asks(
                "SELECT pgtrickle.alter_stream_table($1, status => 'paused')"@,
                seq![name@],
                ReplyKind::Nothing,
            ),
            ActionRequest::ResumeTable(name) => asks(
                "SELECT pgtrickle.alter_stream_table($1, status => 'active')"@,
                seq![name@],
                ReplyKind::Nothing,
            ),
            ActionRequest::ResetFuse(name, strategy) => asks(
                "SELECT pgtrickle.reset_fuse($1, $2)"@,
                seq![name@, strategy@],
                ReplyKind::Nothing,
            ),
            ActionRequest::RepairTable(name) => asks(
                "SELECT pgtrickle.repair_stream_table($1)"@,
                seq![name@],
                ReplyKind::Nothing,
            ),
            ActionRequest::GateSource(name) => asks(
                "SELECT pgtrickle.gate_source($1)"@,
                seq![name@],
                ReplyKind::Nothing,
            ),
            ActionRequest::UngateSource(name) => asks(
                "SELECT pgtrickle.ungate_source($1)"@,
                seq![name@],
                ReplyKind::Nothing,
            ),
            ActionRequest::FetchDeltaSql(name) => asks(
                "SELECT pgtrickle.explain_delta($1)"@,
                seq![name@],
                ReplyKind::Text,
            ),
            ActionRequest::FetchDdl(name) => asks(
                "SELECT pgtrickle.export_definition($1)"@,
                seq![name@],
                ReplyKind::Text,
            ),
            ActionRequest::ValidateQuery(query) => asks(
                "SELECT check_name::text, result::text, severity::text FROM pgtrickle.validate_query($1)"@,
                seq![query@],
                ReplyKind::Checks,
            ),
        }
    }

    /// What the user is told when an action that sends nothing back went well.
    pub open spec fn done_message(self) -> Seq<char> {
        match self {
            ActionRequest::RefreshTable(name) => "Refreshed "@ + name@,
            ActionRequest::RefreshAll => "Refreshed all stream tables"@,
            ActionRequest::PauseTable(name) => "Paused "@ + name@,
            ActionRequest::ResumeTable(name) => "Resumed "@ + name@,
            ActionRequest::ResetFuse(name, strategy) => "Reset fuse for "@ + name@
                + " (strategy: "@ + strategy@ + ")"@,
            ActionRequest::RepairTable(name) => "Repaired "@ + name@,
            ActionRequest::GateSource(name) => "Gated source "@ + name@,
            ActionRequest::UngateSource(name) => "Ungated source "@ + name@,
            _ => ""@,
        }
    }
}

/// A statement with parameters.
fn build_statement(
    sql: &str,
    first: Option<&String>,
    second: Option<&String>,
    reply: ReplyKind,
) -> (r: Statement)
    requires
        second is Some ==> first is Some,
    ensures
        r@ == asks(
            sql@,
            match (first, second) {
                (Some(a), Some(b)) => seq![a@, b@],
                (Some(a), None) => seq![a@],
                _ => Seq::empty(),
            },
            reply,
        ),
{
    let mut params: Vec<String> = Vec::new();
    match first {
        Some(a) => {
            params.push(a.clone());
            match second {
                Some(b) => {
                    params.push(b.clone());
                    assert(text::texts(params@) =~= seq![a@, b@]);
                },
                None => {
                    assert(text::texts(params@) =~= seq![a@]);
                },
            }
        },
        None => {
            assert(text::texts(params@) =~= Seq::empty());
        },
    }
    Statement { sql: sql.to_string(), params, reply }
}

/// The statement that an action runs.
pub fn action_statement(action: &ActionRequest) -> (r: Statement)
    ensures
        r@ == action.statement(),
{
    match action {
        ActionRequest::RefreshTable(name) => build_statement(
            "SELECT pgtrickle.refresh_stream_table($1)",
            Some(name),
            None,
            ReplyKind::Nothing,
        ),
        ActionRequest::RefreshAll => build_statement(
            "SELECT pgtrickle.refresh_all_stream_tables()",
            None,
            None,
            ReplyKind::Nothing,
        ),
        ActionRequest::PauseTable(name) => build_statement(
            "SELECT pgtrickle.alter_stream_table($1, status => 'paused')",
            Some(name),
            None,
            ReplyKind::Nothing,
        ),
        ActionRequest::ResumeTable(name) => build_statement(
            "SELECT pgtrickle.alter_stream_table($1, status => 'active')",
            Some(name),
            None,
            ReplyKind::Nothing,
        ),
        ActionRequest::ResetFuse(name, strategy) => build_statement(
            "SELECT pgtrickle.reset_fuse($1, $2)",
            Some(name),
            Some(strategy),
            ReplyKind::Nothing,
        ),
        ActionRequest::RepairTable(name) => build_statement(
            "SELECT pgtrickle.repair_stream_table($1)",
            Some(name),
            None,
            ReplyKind::Nothing,
        ),
        ActionRequest::GateSource(name) => build_statement(
            "SELECT pgtrickle.gate_source($1)",
            Some(name),
            None,
            ReplyKind::Nothing,
        ),
        ActionRequest::UngateSource(name) => build_statement(
            "SELECT pgtrickle.ungate_source($1)",
            Some(name),
            None,
            ReplyKind::Nothing,
        ),
        ActionRequest::FetchDeltaSql(name) => build_statement(
            "SELECT pgtrickle.explain_delta($1)",
            Some(name),
            None,
            ReplyKind::Text,
        ),
        ActionRequest::FetchDdl(name) => build_statement(
            "SELECT pgtrickle.export_definition($1)",
            Some(name),
            None,
            ReplyKind::Text,
        ),
        ActionRequest::ValidateQuery(query) => build_statement(
            "SELECT check_name::text, result::text, severity::text FROM pgtrickle.validate_query($1)",
            Some(query),
            None,
            ReplyKind::Checks,
        ),
    }
}

/// What came back from the server.
#[derive(Debug)]
pub enum ActionReply {
    Done,
    Text(String),
    /// The name, the result and the severity of each check.
    Checks(Vec<(String, String, String)>),
    /// The server or the connection failed.
    Failed(String),
}

/// What the user is told.
#[derive(Debug)]
pub struct ActionResult {
    pub success: bool,
    pub message: String,
}

/// Whether a reply is of the kind that an action expects, or a failure.
pub open spec fn answers(reply: ActionReply, action: ActionRequest) -> bool {
    match reply {
        ActionReply::Done => action.statement().reply == ReplyKind::Nothing,
        ActionReply::Text(_) => action.statement().reply == ReplyKind::Text,
        ActionReply::Checks(_) => action.statement().reply == ReplyKind::Checks,
        ActionReply::Failed(_) => true,
    }
}

/// Checks, one in each line.
pub open spec fn check_lines(rows: Seq<(String, String, String)>) -> Seq<char>
    decreases rows.len(),
{
    if rows.len() == 0 {
        Seq::empty()
    } else {
        check_lines(rows.drop_last()) + "["@ + rows.last().2@ + "] "@ + rows.last().0@ + ": "@
            + rows.last().1@ + "\n"@
    }
}

/// What the user is told of a reply.
pub open spec fn told(action: ActionRequest, reply: ActionReply) -> Seq<char> {
    match reply {
        ActionReply::Done => action.done_message(),
        ActionReply::Text(t) => t@,
        ActionReply::Checks(rows) => check_lines(rows@),
        ActionReply::Failed(e) => "Error: "@ + e@,
    }
}

/// A text after another.
fn after(start: &str, end: &str) -> (r: String)
    ensures
        r@ == start@ + end@,
{
    let mut r = start.to_string();
    r.append(end);
    r
}

/// What the user is told when an action that sends nothing back went well.
fn build_done_message(action: &ActionRequest) -> (r: String)
    ensures
        r@ == action.done_message(),
{
    match action {
        ActionRequest::RefreshTable(name) => after("Refreshed ", name.as_str()),
        ActionRequest::RefreshAll => "Refreshed all stream tables".to_string(),
        ActionRequest::PauseTable(name) => after("Paused ", name.as_str()),
        ActionRequest::ResumeTable(name) => after("Resumed ", name.as_str()),
        ActionRequest::ResetFuse(name, strategy) => {
            let mut r = after("Reset fuse for ", name.as_str());
            r.append(" (strategy: ");
            r.append(strategy.as_str());
            r.append(")");
            r
        },
        ActionRequest::RepairTable(name) => after("Repaired ", name.as_str()),
        ActionRequest::GateSource(name) => after("Gated source ", name.as_str()),
        ActionRequest::UngateSource(name) => after("Ungated source ", name.as_str()),
        _ => "".to_string(),
    }
}

/// Checks, one in each line.
fn build_check_lines(rows: &Vec<(String, String, String)>) -> (r: String)
    ensures
        r@ == check_lines(rows@),
{
    let mut r = String::new();
    let mut i: usize = 0;
    assert(r@ =~= Seq::empty());
    while i < rows.len()
        invariant
            i <= rows.len(),
            r@ == check_lines(rows@.take(i as int)),
        decreases rows.len() - i,
    {
        assert(rows@.take(i + 1).drop_last() =~= rows@.take(i as int));
        r.append("[");
        r.append(rows[i].2.as_str());
        r.append("] ");
        r.append(rows[i].0.as_str());
        r.append(": ");
        r.append(rows[i].1.as_str());
        r.append("\n");
        i += 1;
    }
    assert(rows@.take(i as int) =~= rows@);
    r
}

/// What the user is told of the reply to an action.
pub fn execute_action(action: &ActionRequest, reply: &ActionReply) -> (r: ActionResult)
    requires
        answers(*reply, *action),
    ensures
        r.success == !(reply is Failed),
        r.message@ == told(*action, *reply),
{
    match reply {
        ActionReply::Done => ActionResult { success: true, message: build_done_message(action) },
        ActionReply::Text(t) => ActionResult { success: true, message: t.clone() },
        ActionReply::Checks(rows) => ActionResult {
            success: true,
            message: build_check_lines(rows),
        },
        ActionReply::Failed(e) => ActionResult {
            success: false,
            message: after("Error: ", e.as_str()),
        },
    }
}

// ── Polls ──────────────────────────────────────────────────────────────

/// The error that is shown after the stream tables were polled: the new one,
/// or the one that was shown, unless it was of an earlier poll that failed.
pub open spec fn shown_error(before: Option<Seq<char>>, failure: Option<Seq<char>>) -> Option<
    Seq<char>,
> {
    match failure {
        Some(e) => Some("poll_stream_tables: "@ + e),
        None => match before {
            Some(m) => if text::begins(m, "poll_stream_tables:"@) {
                None
            } else {
                Some(m)
            },
            None => None,
        },
    }
}

/// The error that is shown after the stream tables were polled.
pub fn poll_stream_tables(error_message: &Option<String>, failure: &Option<String>) -> (r: Option<
    String,
>)
    ensures
        text::opt_text(r) == shown_error(text::opt_text(*error_message), text::opt_text(*failure)),
{
    match failure {
        Some(e) => Some(after("poll_stream_tables: ", e.as_str())),
        None => match error_message {
            Some(m) => if starts_with(m.as_str(), "poll_stream_tables:") {
                None
            } else {
                Some(m.clone())
            },
            None => None,
        },
    }
}

/// How many samples a sparkline has at most.
pub const SPARKLINE_LEN: usize = 20;

/// Adds a sample to a sparkline.  When it is full the oldest one goes.
pub fn push_sample<T>(samples: &mut Vec<T>, sample: T)
    ensures
        final(samples)@ == if old(samples)@.len() >= SPARKLINE_LEN {
            old(samples)@.push(sample).drop_first()
        } else {
            old(samples)@.push(sample)
        },
{
    let ghost before = samples@;
    samples.push(sample);
    if samples.len() > SPARKLINE_LEN {
        samples.remove(0);
        assert(samples@ =~= before.push(sample).drop_first());
    }
}

/// The rows that are shown after a poll: the new ones, or those that were
/// shown where it failed.
pub fn rows_or_keep<T>(current: Vec<T>, polled: Option<Vec<T>>) -> (r: Vec<T>)
    ensures
        r == match polled {
            Some(rows) => rows,
            None => current,
        },
{
    match polled {
        Some(rows) => rows,
        None => current,
    }
}

/// The rows that are shown after a poll of a function that older servers lack:
/// the new ones, or none where it failed; and whether it succeeded.
pub fn rows_or_clear<T>(polled: Option<Vec<T>>) -> (r: (Vec<T>, bool))
    ensures
        r.1 == polled is Some,
        r.0@ == match polled {
            Some(rows) => rows@,
            None => Seq::empty(),
        },
{
    match polled {
        Some(rows) => (rows, true),
        None => (Vec::new(), false),
    }
}

/// The summary that is shown after a poll of a function that older servers
/// lack: the new one, the one that was shown where there is no new one, or
/// none where it failed; and whether it succeeded.
pub fn summary_or_clear<T>(current: Option<T>, polled: Option<Option<T>>) -> (r: (Option<T>, bool))
    ensures
        r.1 == polled is Some,
        r.0 == match polled {
            Some(Some(summary)) => Some(summary),
            Some(None) => current,
            None => None,
        },
{
    match polled {
        Some(Some(summary)) => (Some(summary), true),
        Some(None) => (current, true),
        None => (None, false),
    }
}

// ── Recommendations ────────────────────────────────────────────────────

/// A row that recommends a refresh mode.
#[derive(Debug)]
pub struct DiagRow {
    pub schema: String,
    pub name: String,
    pub current_mode: String,
    pub recommended_mode: String,
    pub confidence: String,
    pub reason: String,
    /// What the recommendation rests on, as JSON.
    pub signals_text: Option<String>,
}

/// A recommended refresh mode.
#[derive(Debug)]
pub struct DiagRecommendation {
    pub schema: String,
    pub name: String,
    pub current_mode: String,
    pub recommended_mode: String,
    pub confidence: String,
    pub reason: String,
    /// What the recommendation rests on, as compact JSON.
    pub signals: Option<String>,
}

/// What `serde_json` makes of a text: the value that it denotes, printed
/// without white space, or nothing if it denotes none.
pub uninterp spec fn compact_json(s: Seq<char>) -> Option<Seq<char>>;

/// `serde_json::from_str` into a `serde_json::Value`, which is then printed.
/// What counts as JSON and how a value prints is for that crate to say.
#[verifier::external_body]
fn parse_json(s: &str) -> (r: Option<String>)
    ensures
        text::opt_text(r) == compact_json(s@),
{
    match serde_json::from_str::<serde_json::Value>(s) {
        Ok(value) => Some(value.to_string()),
        Err(_) => None,
    }
}

/// Whether a recommendation is that of a row with given signals.
pub open spec fn is_recommendation(
    rec: DiagRecommendation,
    row: DiagRow,
    signals: Option<Seq<char>>,
) -> bool {
    &&& rec.schema@ == row.schema@
    &&& rec.name@ == row.name@
    &&& rec.current_mode@ == row.current_mode@
    &&& rec.recommended_mode@ == row.recommended_mode@
    &&& rec.confidence@ == row.confidence@
    &&& rec.reason@ == row.reason@
    &&& text::opt_text(rec.signals) == signals
}

/// The signals of a row: nothing where there are none or they are not JSON.
pub open spec fn row_signals(row: DiagRow) -> Option<Seq<char>> {
    match row.signals_text {
        Some(t) => compact_json(t@),
        None => None,
    }
}

/// The signals of rows.
pub open spec fn all_signals(rows: Seq<DiagRow>) -> Seq<Option<Seq<char>>> {
    Seq::new(rows.len(), |i: int| row_signals(rows[i]))
}

/// The signals that are remembered by name: those that were, and those of rows
/// that have some.
pub open spec fn remembered(
    before: Seq<(Seq<char>, Seq<char>)>,
    rows: Seq<DiagRow>,
    signals: Seq<Option<Seq<char>>>,
) -> Seq<(Seq<char>, Seq<char>)>
    decreases rows.len(),
{
    if rows.len() == 0 {
        before
    } else {
        let rest = remembered(before, rows.drop_last(), signals);
        match signals[rows.len() - 1] {
            Some(s) => rest.push((rows.last().name@, s)),
            None => rest,
        }
    }
}

/// The texts that may be there.
pub open spec fn opt_texts(v: Seq<Option<String>>) -> Seq<Option<Seq<char>>> {
    Seq::new(v.len(), |i: int| text::opt_text(v[i]))
}

/// The recommendations of rows whose signals were parsed.  Signals are
/// remembered under the name of their stream table.
pub fn recommendations(
    rows: &Vec<DiagRow>,
    signals: &Vec<Option<String>>,
    diag_signals: &mut TextMap,
) -> (r: Vec<DiagRecommendation>)
    requires
        signals@.len() == rows@.len(),
    ensures
        r@.len() == rows@.len(),
        forall|i: int|
            0 <= i < rows@.len() ==> is_recommendation(
                #[trigger] r@[i],
                rows@[i],
                text::opt_text(signals@[i]),
            ),
        final(diag_signals)@ == remembered(old(diag_signals)@, rows@, opt_texts(signals@)),
{
    let ghost parsed = opt_texts(signals@);
    let ghost before = diag_signals@;
    let mut r: Vec<DiagRecommendation> = Vec::new();
    let mut i: usize = 0;
    while i < rows.len()
        invariant
            i <= rows.len(),
            signals@.len() == rows@.len(),
            parsed == opt_texts(signals@),
            r@.len() == i,
            forall|k: int|
                0 <= k < i ==> is_recommendation(
                    #[trigger] r@[k],
                    rows@[k],
                    text::opt_text(signals@[k]),
                ),
            diag_signals@ == remembered(before, rows@.take(i as int), parsed),
        decreases rows.len() - i,
    {
        assert(rows@.take(i + 1).drop_last() =~= rows@.take(i as int));
        assert(rows@.take(i + 1).last() == rows@[i as int]);
        assert(parsed[i as int] == text::opt_text(signals@[i as int]));
        let row = &rows[i];
        match &signals[i] {
            Some(s) => {
                diag_signals.insert(row.name.clone(), s.clone());
            },
            None => {},
        }
        r.push(
            DiagRecommendation {
                schema: row.schema.clone(),
                name: row.name.clone(),
                current_mode: row.current_mode.clone(),
                recommended_mode: row.recommended_mode.clone(),
                confidence: row.confidence.clone(),
                reason: row.reason.clone(),
                signals: copy_opt(&signals[i]),
            },
        );
        i += 1;
    }
    assert(rows@.take(i as int) =~= rows@);
    r
}

/// The recommendations of rows.  Signals that are not JSON are left out.
pub fn poll_diagnostics(rows: &Vec<DiagRow>, diag_signals: &mut TextMap) -> (r: Vec<
    DiagRecommendation,
>)
    ensures
        r@.len() == rows@.len(),
        forall|i: int|
            0 <= i < rows@.len() ==> is_recommendation(#[trigger] r@[i], rows@[i], row_signals(rows@[i])),
        final(diag_signals)@ == remembered(old(diag_signals)@, rows@, all_signals(rows@)),
{
    let mut signals: Vec<Option<String>> = Vec::new();
    let mut i: usize = 0;
    while i < rows.len()
        invariant
            i <= rows.len(),
            signals@.len() == i,
            forall|k: int|
                0 <= k < i ==> text::opt_text(#[trigger] signals@[k]) == row_signals(rows@[k]),
        decreases rows.len() - i,
    {
        match &rows[i].signals_text {
            Some(t) => {
                signals.push(parse_json(t.as_str()));
            },
            None => {
                signals.push(None);
            },
        }
        i += 1;
    }
    assert(opt_texts(signals@) =~= all_signals(rows@));
    recommendations(rows, &signals, diag_signals)
}

// ── Laws ───────────────────────────────────────────────────────────────

/// A poll of the stream tables that fails is shown, and the next one that
/// succeeds takes it away again.
pub proof fn poll_error_is_cleared(before: Option<Seq<char>>, failure: Seq<char>)
    ensures
        shown_error(before, Some(failure)) is Some,
        shown_error(shown_error(before, Some(failure)), None) is None,
{
    reveal_strlit("poll_stream_tables: ");
    reveal_strlit("poll_stream_tables:");
    let m = "poll_stream_tables: "@ + failure;
    let p = "poll_stream_tables:"@;
    assert(m.subrange(0, p.len() as int) =~= p);
    assert(text::begins(m, p));
}

} // verus!
