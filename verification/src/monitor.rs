//! Alerts and explanations.
//!
//! Alerts are JSON objects that are sent on a notification channel.  A
//! notification holds at most about 8000 bytes, so longer ones are cut.

use vstd::prelude::*;
use vstd::string::*;

use crate::catalog::StreamTableMeta;
use crate::cdc;
use crate::cdc::or_default;
use crate::dvm::parser::OpTree;
use crate::error::PgTrickleError;
use crate::lexical;
use crate::lexical::{char_len, find};
use crate::sql_builder;
use crate::sql_builder::literal;
use crate::text;
use crate::text::{chars_of, i64_text, join_texts, text_of, u32_text};

verus! {

// ── Alerts ─────────────────────────────────────────────────────────────

/// What an alert is about.
#[derive(Debug, Clone, Copy, PartialEq, Eq, Structural)]
pub enum AlertEvent {
    /// Data is older than twice the schedule.
    StaleData,
    /// A stream table was suspended after errors in a row.
    AutoSuspended,
    /// A source changed so that a stream table has to start anew.
    ReinitializeNeeded,
    /// Changes pile up.
    BufferGrowthWarning,
    /// A refresh went well.
    RefreshCompleted,
    /// A refresh failed.
    RefreshFailed,
}

impl AlertEvent {
    /// The name of an event in an alert.
    pub open spec fn name(self) -> Seq<char> {
        match self {
            AlertEvent::StaleData => "stale_data"@,
            AlertEvent::AutoSuspended => "auto_suspended"@,
            AlertEvent::ReinitializeNeeded => "reinitialize_needed"@,
            AlertEvent::BufferGrowthWarning => "buffer_growth_warning"@,
            AlertEvent::RefreshCompleted => "refresh_completed"@,
            AlertEvent::RefreshFailed => "refresh_failed"@,
        }
    }

    /// The name of an event in an alert.
    pub fn as_str(&self) -> (r: &'static str)
        ensures
            r@ == self.name(),
    {
        match self {
            AlertEvent::StaleData => "stale_data",
            AlertEvent::AutoSuspended => "auto_suspended",
            AlertEvent::ReinitializeNeeded => "reinitialize_needed",
            AlertEvent::BufferGrowthWarning => "buffer_growth_warning",
            AlertEvent::RefreshCompleted => "refresh_completed",
            AlertEvent::RefreshFailed => "refresh_failed",
        }
    }
}

/// Different events have different names.
pub proof fn event_names_differ(a: AlertEvent, b: AlertEvent)
    ensures
        a.name() == b.name() <==> a == b,
{
    reveal_strlit("stale_data");
    reveal_strlit("auto_suspended");
    reveal_strlit("reinitialize_needed");
    reveal_strlit("buffer_growth_warning");
    reveal_strlit("refresh_completed");
    reveal_strlit("refresh_failed");
    assert("stale_data"@.len() == 10);
    assert("auto_suspended"@.len() == 14 && "auto_suspended"@[0] == 'a');
    assert("reinitialize_needed"@.len() == 19);
    assert("buffer_growth_warning"@.len() == 21);
    assert("refresh_completed"@.len() == 17);
    assert("refresh_failed"@.len() == 14 && "refresh_failed"@[0] == 'r');
}

/// An alert about a stream table.
pub open spec fn alert_json(
    event: Seq<char>,
    schema: Seq<char>,
    name: Seq<char>,
    dt: Seq<char>,
    extra: Seq<char>,
) -> Seq<char> {
    "{\"event\":\""@ + event + "\",\"pgs_schema\":\""@ + schema + "\",\"pgs_name\":\""@ + name
        + "\",\"dt\":\""@ + dt + "\","@ + extra + "}"@
}

/// An alert about a stream table.
fn build_alert(event: &str, schema: &str, name: &str, dt: &str, extra: &str) -> (r: String)
    ensures
        r@ == alert_json(event@, schema@, name@, dt@, extra@),
{
    let mut r = "{\"event\":\"".to_string();
    r.append(event);
    r.append("\",\"pgs_schema\":\"");
    r.append(schema);
    r.append("\",\"pgs_name\":\"");
    r.append(name);
    r.append("\",\"dt\":\"");
    r.append(dt);
    r.append("\",");
    r.append(extra);
    r.append("}");
    r
}

/// An alert about changes that pile up.
pub open spec fn growth_json(slot: Seq<char>, pending: Seq<char>) -> Seq<char> {
    "{\"event\":\"buffer_growth_warning\",\"slot_name\":\""@ + slot + "\",\"pending_bytes\":"@
        + pending + "}"@
}

/// An alert about changes that pile up.
fn build_growth(slot: &str, pending: &str) -> (r: String)
    ensures
        r@ == growth_json(slot@, pending@),
{
    let mut r = "{\"event\":\"buffer_growth_warning\",\"slot_name\":\"".to_string();
    r.append(slot);
    r.append("\",\"pending_bytes\":");
    r.append(pending);
    r.append("}");
    r
}

/// What a suspension adds to an alert.
pub open spec fn suspended_json(count: Seq<char>) -> Seq<char> {
    "\"consecutive_errors\":"@ + count
}

/// What a suspension adds to an alert.
fn build_suspended(count: &str) -> (r: String)
    ensures
        r@ == suspended_json(count@),
{
    let mut r = "\"consecutive_errors\":".to_string();
    r.append(count);
    r
}

/// What a need to start anew adds to an alert.
pub open spec fn reason_json(text: Seq<char>) -> Seq<char> {
    "\"reason\":\""@ + text + "\""@
}

/// What a need to start anew adds to an alert.
fn build_reason(text: &str) -> (r: String)
    ensures
        r@ == reason_json(text@),
{
    let mut r = "\"reason\":\"".to_string();
    r.append(text);
    r.append("\"");
    r
}

/// What a refresh that went well adds to an alert.
pub open spec fn completed_json(
    action: Seq<char>,
    inserted: Seq<char>,
    deleted: Seq<char>,
    duration: Seq<char>,
) -> Seq<char> {
    "\"action\":\""@ + action + "\",\"rows_inserted\":"@ + inserted + ",\"rows_deleted\":"@
        + deleted + ",\"duration_ms\":"@ + duration
}

/// What a refresh that went well adds to an alert.
fn build_completed(action: &str, inserted: &str, deleted: &str, duration: &str) -> (r: String)
    ensures
        r@ == completed_json(action@, inserted@, deleted@, duration@),
{
    let mut r = "\"action\":\"".to_string();
    r.append(action);
    r.append("\",\"rows_inserted\":");
    r.append(inserted);
    r.append(",\"rows_deleted\":");
    r.append(deleted);
    r.append(",\"duration_ms\":");
    r.append(duration);
    r
}

/// What a refresh that failed adds to an alert.
pub open spec fn failed_json(action: Seq<char>, error: Seq<char>) -> Seq<char> {
    "\"action\":\""@ + action + "\",\"error\":\""@ + error + "\""@
}

/// What a refresh that failed adds to an alert.
fn build_failed(action: &str, error: &str) -> (r: String)
    ensures
        r@ == failed_json(action@, error@),
{
    let mut r = "\"action\":\"".to_string();
    r.append(action);
    r.append("\",\"error\":\"");
    r.append(error);
    r.append("\"");
    r
}

/// The number of changes that wait in a change buffer.
pub open spec fn pending_sql(schema: Seq<char>, relid: Seq<char>) -> Seq<char> {
    "SELECT count(*)::bigint FROM "@ + schema + ".changes_"@ + relid
}

/// The number of changes that wait in a change buffer.
fn pending_query(schema: &str, relid: &str) -> (r: String)
    ensures
        r@ == pending_sql(schema@, relid@),
{
    let mut r = "SELECT count(*)::bigint FROM ".to_string();
    r.append(schema);
    r.append(".changes_");
    r.append(relid);
    r
}

/// The hexadecimal digit for a number below sixteen.
pub open spec fn hex_digit(n: int) -> char {
    if n < 10 {
        ('0' as u32 + n) as char
    } else {
        ('a' as u32 + n - 10) as char
    }
}

/// A character as it stands in a JSON string: quotes, backslashes and control
/// characters are escaped.
pub open spec fn escaped_char(c: char) -> Seq<char> {
    if c == '"' || c == '\\' {
        seq!['\\', c]
    } else if (c as u32) < 32 {
        let code = (c as u32) as int;
        seq!['\\', 'u', '0', '0', hex_digit(code / 16), hex_digit(code % 16)]
    } else {
        seq![c]
    }
}

/// A text as it stands in a JSON string.
pub open spec fn escaped(s: Seq<char>) -> Seq<char>
    decreases s.len(),
{
    if s.len() == 0 {
        Seq::empty()
    } else {
        escaped_char(s.first()) + escaped(s.drop_first())
    }
}

/// The number for which a hexadecimal digit stands.
pub open spec fn hex_value(c: char) -> int {
    if '0' <= c <= '9' {
        c as u32 - '0' as u32
    } else {
        c as u32 - 'a' as u32 + 10
    }
}

/// The text that a JSON string stands for, or nothing for what is none: a
/// quote that is not escaped ends the string too early, and control characters
/// may not stand in it.
pub open spec fn unescaped(t: Seq<char>) -> Option<Seq<char>>
    decreases t.len(),
{
    if t.len() == 0 {
        Some(Seq::empty())
    } else if t[0] == '"' || (t[0] as u32) < 32 {
        None
    } else if t[0] != '\\' {
        match unescaped(t.skip(1)) {
            Some(s) => Some(seq![t[0]] + s),
            None => None,
        }
    } else if t.len() >= 2 && (t[1] == '"' || t[1] == '\\') {
        match unescaped(t.skip(2)) {
            Some(s) => Some(seq![t[1]] + s),
            None => None,
        }
    } else if t.len() >= 6 && t[1] == 'u' && t[2] == '0' && t[3] == '0' {
        match unescaped(t.skip(6)) {
            Some(s) => Some(seq![((hex_value(t[4]) * 16 + hex_value(t[5])) as u32) as char] + s),
            None => None,
        }
    } else {
        None
    }
}

/// A text is read back from the JSON string that it is written as.
pub proof fn escaped_reads_back(s: Seq<char>)
    ensures
        unescaped(escaped(s)) == Some(s),
    decreases s.len(),
{
    if s.len() > 0 {
        let c = s.first();
        let rest = s.drop_first();
        let head = escaped_char(c);
        let t = escaped(s);
        escaped_reads_back(rest);
        assert(t.skip(head.len() as int) =~= escaped(rest));
        assert forall|i: int| 0 <= i < head.len() implies #[trigger] t[i] == head[i] by {}
        if c != '"' && c != '\\' && (c as u32) < 32 {
            assert(t[4] == head[4] && t[5] == head[5]);
            assert(hex_value(t[4]) == c as u32 / 16);
            assert(hex_value(t[5]) == c as u32 % 16);
            assert(hex_value(t[4]) * 16 + hex_value(t[5]) == c as u32);
            vstd::utf8::char_u32_cast(c, (hex_value(t[4]) * 16 + hex_value(t[5])) as u32);
        }
        assert(t[0] == head[0]);
        assert(c == '"' || c == '\\' ==> t[1] == head[1]);
        assert(seq![c] + rest =~= s);
    }
}

/// The hexadecimal digit for a number below sixteen.
fn digit_of(n: u32) -> (r: char)
    requires
        n < 16,
    ensures
        r == hex_digit(n as int),
{
    match n {
        0 => '0',
        1 => '1',
        2 => '2',
        3 => '3',
        4 => '4',
        5 => '5',
        6 => '6',
        7 => '7',
        8 => '8',
        9 => '9',
        10 => 'a',
        11 => 'b',
        12 => 'c',
        13 => 'd',
        14 => 'e',
        _ => 'f',
    }
}

/// A text as it stands in a JSON string.
fn escape(s: &str) -> (r: String)
    ensures
        r@ == escaped(s@),
{
    let v = chars_of(s);
    let ghost all = escaped(s@);
    let mut r = String::new();
    let mut i: usize = 0;
    assert(v@.skip(0) =~= s@);
    assert(r@ + all =~= all);
    while i < v.len()
        invariant
            i <= v.len(),
            all == r@ + escaped(v@.skip(i as int)),
        decreases v.len() - i,
    {
        let ghost before = r@;
        let ghost tail = escaped(v@.skip(i + 1));
        let c = v[i];
        let code: u32 = c as u32;
        proof {
            assert(v@.skip(i as int).first() == c);
            assert(v@.skip(i as int).drop_first() =~= v@.skip(i + 1));
            assert(before + (escaped_char(c) + tail) =~= (before + escaped_char(c)) + tail);
        }
        if c == '"' || c == '\\' {
            r.push('\\');
            r.push(c);
        } else if code < 32 {
            r.push('\\');
            r.push('u');
            r.push('0');
            r.push('0');
            r.push(digit_of(code / 16));
            r.push(digit_of(code % 16));
        } else {
            r.push(c);
        }
        assert(r@ =~= before + escaped_char(c));
        i += 1;
    }
    assert(escaped(v@.skip(i as int)) =~= Seq::empty());
    assert(r@ + Seq::empty() =~= r@);
    r
}

/// An alert about a stream table.
pub open spec fn alert_text(
    event: AlertEvent,
    schema: Seq<char>,
    name: Seq<char>,
    extra: Seq<char>,
) -> Seq<char> {
    alert_json(
        event.name(),
        escaped(schema),
        escaped(name),
        escaped(schema + "."@ + name),
        extra,
    )
}

/// An alert about a stream table, before it is cut.
pub fn alert_payload(event: AlertEvent, pgs_schema: &str, pgs_name: &str, extra: &str) -> (r:
    String)
    ensures
        r@ == alert_text(event, pgs_schema@, pgs_name@, extra@),
{
    let mut dt = pgs_schema.to_string();
    dt.append(".");
    dt.append(pgs_name);
    build_alert(
        event.as_str(),
        escape(pgs_schema).as_str(),
        escape(pgs_name).as_str(),
        escape(dt.as_str()).as_str(),
        extra,
    )
}

// ── Cutting ────────────────────────────────────────────────────────────

/// The number of bytes that an alert may have.
pub const MAX_PAYLOAD_BYTES: usize = 7900;

/// The number of bytes that are kept of a longer alert.
pub const KEPT_BYTES: usize = 7890;

/// How many characters of a text fit into a number of bytes.
pub open spec fn chars_within(s: Seq<char>, bytes: nat) -> nat
    decreases s.len(),
{
    if lexical::byte_len(s) <= bytes {
        s.len()
    } else if s.len() == 0 {
        0
    } else {
        chars_within(s.drop_last(), bytes)
    }
}

/// Whether an alert is short enough, or can be cut between two characters.
pub open spec fn cuttable(payload: Seq<char>) -> bool {
    ||| lexical::byte_len(payload) <= MAX_PAYLOAD_BYTES
    ||| lexical::byte_len(payload.take(chars_within(payload, KEPT_BYTES as nat) as int))
        == KEPT_BYTES
}

/// An alert that is short enough.
pub open spec fn cut(payload: Seq<char>) -> Seq<char> {
    if lexical::byte_len(payload) <= MAX_PAYLOAD_BYTES {
        payload
    } else {
        payload.take(chars_within(payload, KEPT_BYTES as nat) as int) + "...}"@
    }
}

/// The characters that fit are those after which the next does not.
proof fn lemma_chars_within(s: Seq<char>, bytes: nat, k: int)
    requires
        0 <= k <= s.len(),
        lexical::byte_len(s.take(k)) <= bytes,
        k < s.len() ==> lexical::byte_len(s.take(k + 1)) > bytes,
    ensures
        chars_within(s, bytes) == k,
    decreases s.len(),
{
    assert(s.take(s.len() as int) =~= s);
    if k < s.len() {
        lexical::bytes_grow(s, k + 1, s.len() as int);
        let rest = s.drop_last();
        assert(rest.take(k) =~= s.take(k));
        if k < rest.len() {
            assert(rest.take(k + 1) =~= s.take(k + 1));
        }
        lemma_chars_within(rest, bytes, k);
    }
}

/// How much of an alert is kept.
struct Cut {
    /// Whether all of it is short enough.
    whole: bool,
    /// How many characters fit.
    kept: usize,
    /// Whether these take up all bytes that are kept.
    exact: bool,
}

/// How much of an alert is kept.
fn measure(v: &Vec<char>) -> (r: Cut)
    ensures
        r.whole == (lexical::byte_len(v@) <= MAX_PAYLOAD_BYTES),
        r.kept == chars_within(v@, KEPT_BYTES as nat),
        r.kept <= v@.len(),
        r.exact == (lexical::byte_len(v@.take(r.kept as int)) == KEPT_BYTES),
{
    let mut bytes: usize = 0;
    let mut i: usize = 0;
    assert(v@.take(0) =~= Seq::empty());
    while i < v.len() && bytes + char_len(v[i]) <= KEPT_BYTES
        invariant
            i <= v.len(),
            bytes <= KEPT_BYTES,
            bytes == lexical::byte_len(v@.take(i as int)),
        decreases v.len() - i,
    {
        assert(v@.take(i + 1).drop_last() =~= v@.take(i as int));
        bytes += char_len(v[i]);
        i += 1;
    }
    let kept: usize = i;
    let exact = bytes == KEPT_BYTES;
    proof {
        if i < v@.len() {
            assert(v@.take(i + 1).drop_last() =~= v@.take(i as int));
        }
        lemma_chars_within(v@, KEPT_BYTES as nat, i as int);
    }
    while i < v.len() && bytes <= MAX_PAYLOAD_BYTES
        invariant
            i <= v.len(),
            bytes <= MAX_PAYLOAD_BYTES + 4,
            bytes == lexical::byte_len(v@.take(i as int)),
        decreases v.len() - i,
    {
        assert(v@.take(i + 1).drop_last() =~= v@.take(i as int));
        bytes += char_len(v[i]);
        i += 1;
    }
    proof {
        assert(v@.take(v@.len() as int) =~= v@);
        lexical::bytes_grow(v@, i as int, v@.len() as int);
    }
    Cut { whole: bytes <= MAX_PAYLOAD_BYTES, kept, exact }
}

/// Whether an alert is short enough, or can be cut between two characters.
pub fn is_cuttable(payload: &str) -> (r: bool)
    ensures
        r == cuttable(payload@),
{
    let m = measure(&chars_of(payload));
    m.whole || m.exact
}

/// An alert that is short enough.
fn cut_payload(payload: &str) -> (r: String)
    requires
        cuttable(payload@),
    ensures
        r@ == cut(payload@),
{
    let v = chars_of(payload);
    let m = measure(&v);
    if m.whole {
        payload.to_string()
    } else {
        assert(v@.subrange(0, m.kept as int) =~= v@.take(m.kept as int));
        let mut r = text_of(&v, 0, m.kept);
        r.append("...}");
        r
    }
}

/// What is sent is never longer than an alert may be.
pub proof fn cut_is_short(payload: Seq<char>)
    requires
        cuttable(payload),
    ensures
        lexical::byte_len(cut(payload)) <= MAX_PAYLOAD_BYTES,
{
    if lexical::byte_len(payload) > MAX_PAYLOAD_BYTES {
        reveal_strlit("...}");
        let a = payload.take(chars_within(payload, KEPT_BYTES as nat) as int);
        let s = cut(payload);
        let n = a.len() as int;
        assert("...}"@.len() == 4);
        assert(s.take(n) =~= a);
        assert(s.take(n + 4) =~= s);
        assert(s[n] == '.' && s[n + 1] == '.' && s[n + 2] == '.' && s[n + 3] == '}');
        assert(s.take(n + 1).drop_last() =~= s.take(n));
        assert(lexical::byte_len(s.take(n + 1)) == lexical::byte_len(a) + 1);
        assert(s.take(n + 2).drop_last() =~= s.take(n + 1));
        assert(lexical::byte_len(s.take(n + 2)) == lexical::byte_len(a) + 2);
        assert(s.take(n + 3).drop_last() =~= s.take(n + 2));
        assert(lexical::byte_len(s.take(n + 3)) == lexical::byte_len(a) + 3);
        assert(s.take(n + 4).drop_last() =~= s.take(n + 3));
    }
}

// ── Sending ────────────────────────────────────────────────────────────

/// The statement that sends an alert.
pub open spec fn notify(payload: Seq<char>) -> Seq<char> {
    "NOTIFY pg_stream_alert, "@ + sql_builder::literal_text(payload)
}

/// What a statement sends is the payload, whatever characters it holds.
pub proof fn payload_reads_back(payload: Seq<char>)
    ensures
        sql_builder::read_quoted(
            notify(payload).skip("NOTIFY pg_stream_alert, "@.len() as int),
            '\'',
        ) == Some((payload, Seq::<char>::empty())),
{
    sql_builder::literal_reads_back(payload);
    assert(notify(payload).skip("NOTIFY pg_stream_alert, "@.len() as int)
        =~= sql_builder::literal_text(payload));
}

/// The statement that sends an alert.
fn notify_payload(payload: &str) -> (r: String)
    ensures
        r@ == notify(payload@),
{
    let mut r = "NOTIFY pg_stream_alert, ".to_string();
    r.append(literal(payload).as_str());
    r
}

/// The statement that sends an alert about a stream table, cut if it is too
/// long.
pub fn emit_alert(event: AlertEvent, pgs_schema: &str, pgs_name: &str, extra: &str) -> (r: String)
    requires
        cuttable(alert_text(event, pgs_schema@, pgs_name@, extra@)),
    ensures
        r@ == notify(cut(alert_text(event, pgs_schema@, pgs_name@, extra@))),
{
    let payload = alert_payload(event, pgs_schema, pgs_name, extra);
    notify_payload(cut_payload(payload.as_str()).as_str())
}

/// What a suspension adds to an alert.
pub fn suspended_extra(error_count: i32) -> (r: String)
    ensures
        r@ == suspended_json(text::decimal_int(error_count as int)),
{
    build_suspended(i64_text(error_count as i64).as_str())
}

/// The statement that tells of a suspension.
pub fn alert_auto_suspended(pgs_schema: &str, pgs_name: &str, error_count: i32) -> (r: String)
    requires
        cuttable(
            alert_text(
                AlertEvent::AutoSuspended,
                pgs_schema@,
                pgs_name@,
                suspended_json(text::decimal_int(error_count as int)),
            ),
        ),
    ensures
        r@ == notify(
            cut(
                alert_text(
                    AlertEvent::AutoSuspended,
                    pgs_schema@,
                    pgs_name@,
                    suspended_json(text::decimal_int(error_count as int)),
                ),
            ),
        ),
{
    emit_alert(
        AlertEvent::AutoSuspended,
        pgs_schema,
        pgs_name,
        suspended_extra(error_count).as_str(),
    )
}

/// What a need to start anew adds to an alert.
pub fn reinitialize_extra(reason: &str) -> (r: String)
    ensures
        r@ == reason_json(escaped(reason@)),
{
    build_reason(escape(reason).as_str())
}

/// The statement that tells of a need to start anew.
pub fn alert_reinitialize_needed(pgs_schema: &str, pgs_name: &str, reason: &str) -> (r: String)
    requires
        cuttable(
            alert_text(
                AlertEvent::ReinitializeNeeded,
                pgs_schema@,
                pgs_name@,
                reason_json(escaped(reason@)),
            ),
        ),
    ensures
        r@ == notify(
            cut(
                alert_text(
                    AlertEvent::ReinitializeNeeded,
                    pgs_schema@,
                    pgs_name@,
                    reason_json(escaped(reason@)),
                ),
            ),
        ),
{
    emit_alert(
        AlertEvent::ReinitializeNeeded,
        pgs_schema,
        pgs_name,
        reinitialize_extra(reason).as_str(),
    )
}

/// The statement that tells of changes that pile up.
pub fn alert_buffer_growth(slot_name: &str, pending_bytes: i64) -> (r: String)
    ensures
        r@ == notify(
            growth_json(escaped(slot_name@), text::decimal_int(pending_bytes as int)),
        ),
{
    let payload = build_growth(escape(slot_name).as_str(), i64_text(pending_bytes).as_str());
    notify_payload(payload.as_str())
}

/// What a refresh that went well adds to an alert.
pub fn completed_extra(action: &str, rows_inserted: i64, rows_deleted: i64, duration_ms: i64) -> (r:
    String)
    ensures
        r@ == completed_json(
            escaped(action@),
            text::decimal_int(rows_inserted as int),
            text::decimal_int(rows_deleted as int),
            text::decimal_int(duration_ms as int),
        ),
{
    build_completed(
        escape(action).as_str(),
        i64_text(rows_inserted).as_str(),
        i64_text(rows_deleted).as_str(),
        i64_text(duration_ms).as_str(),
    )
}

/// The statement that tells of a refresh that went well.
pub fn alert_refresh_completed(
    pgs_schema: &str,
    pgs_name: &str,
    action: &str,
    rows_inserted: i64,
    rows_deleted: i64,
    duration_ms: i64,
) -> (r: String)
    requires
        cuttable(
            alert_text(
                AlertEvent::RefreshCompleted,
                pgs_schema@,
                pgs_name@,
                completed_json(
                    escaped(action@),
                    text::decimal_int(rows_inserted as int),
                    text::decimal_int(rows_deleted as int),
                    text::decimal_int(duration_ms as int),
                ),
            ),
        ),
    ensures
        r@ == notify(
            cut(
                alert_text(
                    AlertEvent::RefreshCompleted,
                    pgs_schema@,
                    pgs_name@,
                    completed_json(
                        escaped(action@),
                        text::decimal_int(rows_inserted as int),
                        text::decimal_int(rows_deleted as int),
                        text::decimal_int(duration_ms as int),
                    ),
                ),
            ),
        ),
{
    emit_alert(
        AlertEvent::RefreshCompleted,
        pgs_schema,
        pgs_name,
        completed_extra(action, rows_inserted, rows_deleted, duration_ms).as_str(),
    )
}

/// What a refresh that failed adds to an alert.
pub fn failed_extra(action: &str, error: &str) -> (r: String)
    ensures
        r@ == failed_json(escaped(action@), escaped(error@)),
{
    build_failed(escape(action).as_str(), escape(error).as_str())
}

/// The statement that tells of a refresh that failed.
pub fn alert_refresh_failed(pgs_schema: &str, pgs_name: &str, action: &str, error: &str) -> (r:
    String)
    requires
        cuttable(
            alert_text(
                AlertEvent::RefreshFailed,
                pgs_schema@,
                pgs_name@,
                failed_json(escaped(action@), escaped(error@)),
            ),
        ),
    ensures
        r@ == notify(
            cut(
                alert_text(
                    AlertEvent::RefreshFailed,
                    pgs_schema@,
                    pgs_name@,
                    failed_json(escaped(action@), escaped(error@)),
                ),
            ),
        ),
{
    emit_alert(
        AlertEvent::RefreshFailed,
        pgs_schema,
        pgs_name,
        failed_extra(action, error).as_str(),
    )
}

/// More pending changes than this are told of.
pub const MAX_PENDING_CHANGES: i64 = 1_000_000;

/// The query for the number of changes that wait in a change buffer.
pub fn pending_changes_sql(change_schema: &str, relid: i64) -> (r: String)
    ensures
        r@ == pending_sql(change_schema@, text::decimal_int(relid as int)),
{
    pending_query(change_schema, i64_text(relid).as_str())
}

/// The statement that tells of changes that pile up, if there are too many.
pub fn check_slot_health_and_alert(trigger_name: &str, pending: Option<i64>) -> (r: Option<String>)
    ensures
        text::opt_text(r) == match pending {
            Some(n) => if n > MAX_PENDING_CHANGES {
                Some(
                    notify(growth_json(escaped(trigger_name@), text::decimal_int(n as int))),
                )
            } else {
                None
            },
            None => None,
        },
{
    match pending {
        Some(n) => if n > MAX_PENDING_CHANGES {
            Some(alert_buffer_growth(trigger_name, n))
        } else {
            None
        },
        None => None,
    }
}

// ── Names ──────────────────────────────────────────────────────────────

/// The schema and the table of a name: what stands before and after the first
/// dot, or the schema `public` where there is none.
pub open spec fn split_name(name: Seq<char>) -> (Seq<char>, Seq<char>) {
    match lexical::first(name, "."@) {
        Some(p) => (name.take(p), name.skip(p + 1)),
        None => ("public"@, name),
    }
}

/// The schema and the table of a name.
pub fn split_qualified_name(name: &str) -> (r: (String, String))
    ensures
        (r.0@, r.1@) == split_name(name@),
{
    proof {
        reveal_strlit(".");
    }
    let v = chars_of(name);
    match find(&v, ".") {
        Some(p) => {
            let len: usize = v.len();
            assert(v@.subrange(0, p as int) =~= v@.take(p as int));
            assert(v@.subrange(p + 1, len as int) =~= v@.skip(p + 1));
            (text_of(&v, 0, p), text_of(&v, p + 1, len))
        },
        None => ("public".to_string(), name.to_string()),
    }
}

/// A name that was put together is taken apart again, if the schema has no
/// dot.
pub proof fn name_splits_back(schema: Seq<char>, table: Seq<char>)
    requires
        !schema.contains('.'),
    ensures
        split_name(schema + "."@ + table) == (schema, table),
{
    reveal_strlit(".");
    let name = schema + "."@ + table;
    let p = schema.len() as int;
    assert(name.subrange(p, p + 1) =~= "."@);
    assert(text::occurs_at(name, "."@, p));
    assert forall|j: int| 0 <= j < p implies !text::occurs_at(name, "."@, j) by {
        assert(name[j] == schema[j]);
        assert(schema.contains(schema[j]));
        if text::occurs_at(name, "."@, j) {
            assert(name.subrange(j, j + 1)[0] == "."@[0]);
        }
    }
    lexical::lemma_first(name, "."@, 0, p);
    assert(name.take(p) =~= schema);
    assert(name.skip(p + 1) =~= table);
}

// ── Capture health ─────────────────────────────────────────────────────

/// The health of the capture of a source.
#[derive(Debug)]
pub struct SlotHealth {
    pub slot_name: String,
    pub source_relid: i64,
    pub active: bool,
    pub retained_wal_bytes: i64,
    pub wal_status: String,
}

/// The health of the capture of a source, from a row of the query for it.
pub fn slot_health_row(
    slot_name: &Option<String>,
    source_relid: Option<i64>,
    active: Option<bool>,
    retained_wal_bytes: Option<i64>,
    wal_status: &Option<String>,
) -> (r: SlotHealth)
    ensures
        r.slot_name@ == cdc::text_or(*slot_name, ""@),
        r.source_relid == match source_relid {
            Some(n) => n,
            None => 0,
        },
        r.active == (active != Some(false)),
        r.retained_wal_bytes == match retained_wal_bytes {
            Some(n) => n,
            None => 0,
        },
        r.wal_status@ == cdc::text_or(*wal_status, "trigger"@),
{
    SlotHealth {
        slot_name: or_default(slot_name, ""),
        source_relid: match source_relid {
            Some(n) => n,
            None => 0,
        },
        active: match active {
            Some(b) => b,
            None => true,
        },
        retained_wal_bytes: match retained_wal_bytes {
            Some(n) => n,
            None => 0,
        },
        wal_status: or_default(wal_status, "trigger"),
    }
}

// ── Explanations ───────────────────────────────────────────────────────

/// What is known of the plan of a stream table.
#[derive(Debug)]
pub enum PlanInfo {
    /// The operator tree, how it prints, and the delta query or why there is
    /// none.
    Supported(OpTree, String, Result<String, String>),
    /// Why the query has no operator tree.
    Unsupported(String),
}

/// What is known of the frontier of a stream table.
#[derive(Debug)]
pub enum FrontierInfo {
    /// There is none.
    Absent,
    /// The frontier as JSON.
    Json(String),
    /// It cannot be written as JSON.
    Unwritable,
}

/// Pairs of texts.
pub open spec fn pair_views(v: Seq<(String, String)>) -> Seq<(Seq<char>, Seq<char>)> {
    Seq::new(v.len(), |i: int| (v[i].0@, v[i].1@))
}

/// Numbers in decimal notation.
pub open spec fn oid_texts(oids: Seq<u32>) -> Seq<Seq<char>> {
    Seq::new(oids.len(), |i: int| text::decimal(oids[i] as nat))
}

/// The properties that an explanation of a stream table begins with.
pub open spec fn table_properties(meta: StreamTableMeta) -> Seq<(Seq<char>, Seq<char>)> {
    seq![
        ("pgs_name"@, meta.pgs_schema@ + "."@ + meta.pgs_name@),
        ("defining_query"@, meta.defining_query@),
        ("refresh_mode"@, meta.refresh_mode.name()),
        ("status"@, meta.status.name()),
        (
            "is_populated"@,
            if meta.is_populated {
                "true"@
            } else {
                "false"@
            },
        ),
    ]
}

/// The properties that tell of the plan of a stream table.
pub open spec fn plan_properties(plan: PlanInfo) -> Seq<(Seq<char>, Seq<char>)> {
    match plan {
        PlanInfo::Supported(tree, printed, delta) => seq![
            ("dvm_supported"@, "true"@),
            ("operator_tree"@, printed@),
            ("output_columns"@, text::join(tree.spec_columns(), ", "@)),
            ("source_oids"@, text::join(oid_texts(tree.spec_sources()), ", "@)),
            match delta {
                Ok(sql) => ("delta_query"@, sql@),
                Err(e) => ("delta_query_error"@, e@),
            },
        ],
        PlanInfo::Unsupported(e) => seq![("dvm_supported"@, "false"@), ("dvm_error"@, e@)],
    }
}

/// The properties that tell of the frontier of a stream table.
pub open spec fn frontier_properties(frontier: FrontierInfo) -> Seq<(Seq<char>, Seq<char>)> {
    match frontier {
        FrontierInfo::Absent => seq![("frontier"@, "null"@)],
        FrontierInfo::Json(json) => seq![("frontier"@, json@)],
        FrontierInfo::Unwritable => Seq::empty(),
    }
}

/// Adds a property to a list.
fn push_property(props: &mut Vec<(String, String)>, name: &str, value: &str)
    ensures
        pair_views(final(props)@) == pair_views(old(props)@).push((name@, value@)),
{
    let ghost before = props@;
    props.push((name.to_string(), value.to_string()));
    assert(pair_views(props@) =~= pair_views(before).push((name@, value@)));
}

/// Object ids, separated by commas.
fn join_oids(oids: &Vec<u32>) -> (r: String)
    ensures
        r@ == text::join(oid_texts(oids@), ", "@),
{
    let mut parts: Vec<String> = Vec::new();
    let mut i: usize = 0;
    while i < oids.len()
        invariant
            i <= oids.len(),
            parts@.len() == i,
            forall|k: int| 0 <= k < i ==> (#[trigger] parts@[k])@ == text::decimal(oids@[k] as nat),
        decreases oids.len() - i,
    {
        parts.push(u32_text(oids[i]));
        i += 1;
    }
    assert(text::texts(parts@) =~= oid_texts(oids@));
    join_texts(&parts, ", ")
}

/// The properties of a stream table: what the catalog says, whether it can be
/// maintained by deltas and how, and how far it has come.
pub fn explain_dt_impl(meta: &StreamTableMeta, plan: &PlanInfo, frontier: &FrontierInfo) -> (r: Vec<
    (String, String),
>)
    ensures
        pair_views(r@) == table_properties(*meta) + plan_properties(*plan) + frontier_properties(
            *frontier,
        ),
{
    let mut props: Vec<(String, String)> = Vec::new();
    let mut name = meta.pgs_schema.clone();
    name.append(".");
    name.append(meta.pgs_name.as_str());
    push_property(&mut props, "pgs_name", name.as_str());
    push_property(&mut props, "defining_query", meta.defining_query.as_str());
    push_property(&mut props, "refresh_mode", meta.refresh_mode.as_str());
    push_property(&mut props, "status", meta.status.as_str());
    let populated = if meta.is_populated {
        "true"
    } else {
        "false"
    };
    push_property(&mut props, "is_populated", populated);
    assert(pair_views(props@) =~= table_properties(*meta));
    match plan {
        PlanInfo::Supported(tree, printed, delta) => {
            push_property(&mut props, "dvm_supported", "true");
            push_property(&mut props, "operator_tree", printed.as_str());
            let columns = tree.output_columns();
            push_property(&mut props, "output_columns", join_texts(&columns, ", ").as_str());
            push_property(&mut props, "source_oids", join_oids(&tree.source_oids()).as_str());
            match delta {
                Ok(sql) => {
                    push_property(&mut props, "delta_query", sql.as_str());
                },
                Err(e) => {
                    push_property(&mut props, "delta_query_error", e.as_str());
                },
            }
        },
        PlanInfo::Unsupported(e) => {
            push_property(&mut props, "dvm_supported", "false");
            push_property(&mut props, "dvm_error", e.as_str());
        },
    }
    assert(pair_views(props@) =~= table_properties(*meta) + plan_properties(*plan));
    match frontier {
        FrontierInfo::Absent => {
            push_property(&mut props, "frontier", "null");
        },
        FrontierInfo::Json(json) => {
            push_property(&mut props, "frontier", json.as_str());
        },
        FrontierInfo::Unwritable => {},
    }
    assert(pair_views(props@) =~= table_properties(*meta) + plan_properties(*plan)
        + frontier_properties(*frontier));
    props
}

/// The rows of an explanation: the properties, or the error in their place.
pub fn explain_dt(props: Result<Vec<(String, String)>, PgTrickleError>) -> (r: Vec<
    (String, String),
>)
    ensures
        pair_views(r@) == match props {
            Ok(p) => pair_views(p@),
            Err(e) => seq![("error"@, e@.message())],
        },
{
    match props {
        Ok(p) => p,
        Err(e) => {
            let mut r: Vec<(String, String)> = Vec::new();
            push_property(&mut r, "error", e.to_string().as_str());
            assert(pair_views(r@) =~= seq![("error"@, e@.message())]);
            r
        },
    }
}

// ── What the texts say ─────────────────────────────────────────────────

/// An alert tells the event, the schema and the name of the stream table, both
/// together, and what else belongs to the event.
pub proof fn an_alert_tells_what_happened_and_where(
    event: Seq<char>,
    schema: Seq<char>,
    name: Seq<char>,
    dt: Seq<char>,
    extra: Seq<char>,
)
    ensures
        ({
            let t = alert_json(event, schema, name, dt, extra);
            &&& text::occurs(
                t,
                "\"event\":\""@ + event + "\",\"pgs_schema\":\""@ + schema + "\",\"pgs_name\":\""@
                    + name + "\",\"dt\":\""@ + dt + "\","@ + extra,
            )
        }),
{
    reveal_strlit("}");
    reveal_strlit("\",");
    reveal_strlit("\",\"dt\":\"");
    reveal_strlit("\"event\":\"");
    reveal_strlit("{\"event\":\"");
    reveal_strlit("\",\"pgs_name\":\"");
    reveal_strlit("\",\"pgs_schema\":\"");
    let t = alert_json(event, schema, name, dt, extra);
    let f0 = "\"event\":\""@ + event + "\",\"pgs_schema\":\""@ + schema + "\",\"pgs_name\":\""@
        + name + "\",\"dt\":\""@ + dt + "\","@ + extra;
    let k0 = 1int;
    assert(t.subrange(k0, k0 + f0.len()) =~= f0);
    assert(text::occurs_at(t, f0, k0));
}

/// A warning of growth tells whose changes wait, and how many bytes.
pub proof fn a_warning_of_growth_tells_how_much_waits(
    slot: Seq<char>,
    pending: Seq<char>,
)
    ensures
        ({
            let t = growth_json(slot, pending);
            &&& text::occurs(
                t,
                "\"event\":\"buffer_growth_warning\",\"slot_name\":\""@ + slot
                    + "\",\"pending_bytes\":"@ + pending,
            )
        }),
{
    reveal_strlit("}");
    reveal_strlit("\",\"pending_bytes\":");
    reveal_strlit("\"event\":\"buffer_growth_warning\",\"slot_name\":\"");
    reveal_strlit("{\"event\":\"buffer_growth_warning\",\"slot_name\":\"");
    let t = growth_json(slot, pending);
    let f0 = "\"event\":\"buffer_growth_warning\",\"slot_name\":\""@ + slot
        + "\",\"pending_bytes\":"@ + pending;
    let k0 = 1int;
    assert(t.subrange(k0, k0 + f0.len()) =~= f0);
    assert(text::occurs_at(t, f0, k0));
}

/// A suspension tells how many errors came in a row.
pub proof fn a_suspension_tells_how_many_errors(
    count: Seq<char>,
)
    ensures
        ({
            let t = suspended_json(count);
            &&& text::occurs(
                t,
                "\"consecutive_errors\":"@ + count,
            )
        }),
{
    reveal_strlit("\"consecutive_errors\":");
    let t = suspended_json(count);
    let f0 = "\"consecutive_errors\":"@ + count;
    let k0 = 0int;
    assert(t.subrange(k0, k0 + f0.len()) =~= f0);
    assert(text::occurs_at(t, f0, k0));
}

/// A need to start anew tells why.
pub proof fn a_need_to_start_anew_tells_why(
    text: Seq<char>,
)
    ensures
        ({
            let t = reason_json(text);
            &&& text::occurs(
                t,
                "\"reason\":\""@ + text + "\""@,
            )
        }),
{
    reveal_strlit("\"");
    reveal_strlit("\"reason\":\"");
    let t = reason_json(text);
    let f0 = "\"reason\":\""@ + text + "\""@;
    let k0 = 0int;
    assert(t.subrange(k0, k0 + f0.len()) =~= f0);
    assert(text::occurs_at(t, f0, k0));
}

/// A refresh that went well tells how it was done, how many rows were inserted
/// and how many deleted, and how long it took.
pub proof fn a_refresh_tells_what_it_did(
    action: Seq<char>,
    inserted: Seq<char>,
    deleted: Seq<char>,
    duration: Seq<char>,
)
    ensures
        ({
            let t = completed_json(action, inserted, deleted, duration);
            &&& text::occurs(
                t,
                "\"action\":\""@ + action + "\",\"rows_inserted\":"@ + inserted
                    + ",\"rows_deleted\":"@ + deleted + ",\"duration_ms\":"@ + duration,
            )
        }),
{
    reveal_strlit("\"action\":\"");
    reveal_strlit(",\"duration_ms\":");
    reveal_strlit(",\"rows_deleted\":");
    reveal_strlit("\",\"rows_inserted\":");
    let t = completed_json(action, inserted, deleted, duration);
    let f0 = "\"action\":\""@ + action + "\",\"rows_inserted\":"@ + inserted + ",\"rows_deleted\":"@
        + deleted + ",\"duration_ms\":"@ + duration;
    let k0 = 0int;
    assert(t.subrange(k0, k0 + f0.len()) =~= f0);
    assert(text::occurs_at(t, f0, k0));
}

/// A refresh that failed tells how it was done, and the error.
pub proof fn a_failure_tells_its_error(
    action: Seq<char>,
    error: Seq<char>,
)
    ensures
        ({
            let t = failed_json(action, error);
            &&& text::occurs(
                t,
                "\"action\":\""@ + action + "\",\"error\":\""@ + error + "\""@,
            )
        }),
{
    reveal_strlit("\"");
    reveal_strlit("\"action\":\"");
    reveal_strlit("\",\"error\":\"");
    let t = failed_json(action, error);
    let f0 = "\"action\":\""@ + action + "\",\"error\":\""@ + error + "\""@;
    let k0 = 0int;
    assert(t.subrange(k0, k0 + f0.len()) =~= f0);
    assert(text::occurs_at(t, f0, k0));
}

/// Changes that wait are counted in the buffer of the table.
pub proof fn waiting_changes_are_counted_in_the_buffer(
    schema: Seq<char>,
    relid: Seq<char>,
)
    ensures
        ({
            let t = pending_sql(schema, relid);
            &&& text::occurs(
                t,
                "count(*)::bigint FROM "@ + schema + ".changes_"@ + relid,
            )
        }),
{
    reveal_strlit(".changes_");
    reveal_strlit("count(*)::bigint FROM ");
    reveal_strlit("SELECT count(*)::bigint FROM ");
    let t = pending_sql(schema, relid);
    let f0 = "count(*)::bigint FROM "@ + schema + ".changes_"@ + relid;
    let k0 = 7int;
    assert(t.subrange(k0, k0 + f0.len()) =~= f0);
    assert(text::occurs_at(t, f0, k0));
}

} // verus!
