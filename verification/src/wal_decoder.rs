//! Change capture by logical decoding.
//!
//! A source moves from triggers to logical decoding and, where that fails,
//! back: a publication and a replication slot are created while the triggers
//! go on; once the decoder has caught up the triggers are dropped; if it does
//! not catch up in time, or its slot is lost, the triggers take over again.
//! Decoded changes go into the same change buffers that triggers write to.

use vstd::prelude::*;
use vstd::string::*;

use crate::catalog::{CdcMode, DtDependency};
use crate::cdc;
use crate::cdc::no_table;
use crate::error::{ErrorView, PgTrickleError};
use crate::lexical;
use crate::lexical::{find_from, find_word_end, is_whitespace, trim_char};
use crate::sql_builder;
use crate::sql_builder::{ident, literal};
use crate::text;
use crate::text::{
    chars_of, copy_opt, i64_text, join_texts, matches_at, replace_char, text_eq, text_of, u32_text,
};
use crate::text_map;
use crate::text_map::TextMap;

verus! {

// ── Statements ─────────────────────────────────────────────────────────

/// Creates a publication for a table.
pub open spec fn publish_sql(publication: Seq<char>, table: Seq<char>) -> Seq<char> {
    "CREATE PUBLICATION "@ + publication + " FOR TABLE "@ + table
}

/// Creates a publication for a table.
fn publish_query(publication: &str, table: &str) -> (r: String)
    ensures
        r@ == publish_sql(publication@, table@),
{
    let mut r = "CREATE PUBLICATION ".to_string();
    r.append(publication);
    r.append(" FOR TABLE ");
    r.append(table);
    r
}

/// Drops a publication.
pub open spec fn unpublish_sql(publication: Seq<char>) -> Seq<char> {
    "DROP PUBLICATION IF EXISTS "@ + publication
}

/// Drops a publication.
fn unpublish_query(publication: &str) -> (r: String)
    ensures
        r@ == unpublish_sql(publication@),
{
    let mut r = "DROP PUBLICATION IF EXISTS ".to_string();
    r.append(publication);
    r
}

/// Takes the next changes from a slot.
pub open spec fn poll_sql(
    slot: Seq<char>,
    max_changes: Seq<char>,
    publication: Seq<char>,
) -> Seq<char> {
    "SELECT lsn::text, xid, data FROM pg_logical_slot_get_changes('"@ + slot + "', NULL, "@
        + max_changes + ", 'proto_version', '1', 'publication_names', '"@ + publication + "')"@
}

/// Takes the next changes from a slot.
fn poll_query(slot: &str, max_changes: &str, publication: &str) -> (r: String)
    ensures
        r@ == poll_sql(slot@, max_changes@, publication@),
{
    let mut r = "SELECT lsn::text, xid, data FROM pg_logical_slot_get_changes('".to_string();
    r.append(slot);
    r.append("', NULL, ");
    r.append(max_changes);
    r.append(", 'proto_version', '1', 'publication_names', '");
    r.append(publication);
    r.append("')");
    r
}

/// Writes a decoded change into a change buffer.
pub open spec fn insert_change_sql(
    schema: Seq<char>,
    oid: Seq<char>,
    cols: Seq<char>,
    vals: Seq<char>,
) -> Seq<char> {
    "INSERT INTO "@ + schema + ".changes_"@ + oid + " ("@ + cols + ") VALUES ("@ + vals + ")"@
}

/// Writes a decoded change into a change buffer.
fn insert_change_query(schema: &str, oid: &str, cols: &str, vals: &str) -> (r: String)
    ensures
        r@ == insert_change_sql(schema@, oid@, cols@, vals@),
{
    let mut r = "INSERT INTO ".to_string();
    r.append(schema);
    r.append(".changes_");
    r.append(oid);
    r.append(" (");
    r.append(cols);
    r.append(") VALUES (");
    r.append(vals);
    r.append(")");
    r
}

/// Whether a time lies further back than a number of seconds.
pub open spec fn timed_out_sql(seconds: Seq<char>) -> Seq<char> {
    "SELECT (now() - $1::timestamptz) > interval '"@ + seconds + " seconds'"@
}

/// Whether a time lies further back than a number of seconds.
fn timed_out_query(seconds: &str) -> (r: String)
    ensures
        r@ == timed_out_sql(seconds@),
{
    let mut r = "SELECT (now() - $1::timestamptz) > interval '".to_string();
    r.append(seconds);
    r.append(" seconds'");
    r
}

// ── Names ──────────────────────────────────────────────────────────────

/// The name of the replication slot for a table.
pub open spec fn slot_name(oid: u32) -> Seq<char> {
    "pgstream_"@ + text::decimal(oid as nat)
}

/// The name of the publication for a table.
pub open spec fn publication_name(oid: u32) -> Seq<char> {
    "pgstream_cdc_"@ + text::decimal(oid as nat)
}

/// Different tables have different slots and publications, and a slot never has
/// the name of a publication.
pub proof fn slots_differ(a: u32, b: u32)
    ensures
        slot_name(a) == slot_name(b) ==> a == b,
        publication_name(a) == publication_name(b) ==> a == b,
        slot_name(a) != publication_name(b),
{
    reveal_strlit("pgstream_");
    reveal_strlit("pgstream_cdc_");
    let slot = "pgstream_"@;
    let publication = "pgstream_cdc_"@;
    assert(slot.len() == 9);
    assert(publication.len() == 13);
    assert(slot.last() == '_');
    assert(publication.last() == '_');
    if slot_name(a) == slot_name(b) {
        lexical::last_number_is_read(slot, slot, a as nat, b as nat);
    }
    if publication_name(a) == publication_name(b) {
        lexical::last_number_is_read(publication, publication, a as nat, b as nat);
    }
    if slot_name(a) == publication_name(b) {
        lexical::last_number_is_read(slot, publication, a as nat, b as nat);
    }
}

/// The name of the replication slot for a table.
pub fn slot_name_for_source(source_oid: u32) -> (r: String)
    ensures
        r@ == slot_name(source_oid),
{
    let mut r = "pgstream_".to_string();
    r.append(u32_text(source_oid).as_str());
    r
}

/// The name of the publication for a table.
pub fn publication_name_for_source(source_oid: u32) -> (r: String)
    ensures
        r@ == publication_name(source_oid),
{
    let mut r = "pgstream_cdc_".to_string();
    r.append(u32_text(source_oid).as_str());
    r
}

/// A name in double quotes.
pub fn quote_ident(name: &str) -> (r: String)
    ensures
        r@ == sql_builder::ident_text(name@),
{
    ident(name)
}

// ── Publications and slots ─────────────────────────────────────────────

/// The statement that creates the publication for a table, unless there is
/// one.  The table is given by its name, or there is none with that object
/// id, which is an error.
pub fn create_publication(source_oid: u32, source_table: &Option<String>, exists: bool) -> (r:
    Result<Option<String>, PgTrickleError>)
    ensures
        match *source_table {
            None => r is Err && r->Err_0@ == cdc::table_missing(source_oid),
            Some(table) => r is Ok && text::opt_text(r->Ok_0) == if exists {
                None
            } else {
                Some(
                    publish_sql(sql_builder::ident_text(publication_name(source_oid)), table@),
                )
            },
        },
{
    match source_table {
        None => Err(no_table(source_oid)),
        Some(table) => if exists {
            Ok(None)
        } else {
            let name = publication_name_for_source(source_oid);
            Ok(Some(publish_query(quote_ident(name.as_str()).as_str(), table.as_str())))
        },
    }
}

/// The statement that drops the publication for a table.
pub fn drop_publication(source_oid: u32) -> (r: String)
    ensures
        r@ == unpublish_sql(sql_builder::ident_text(publication_name(source_oid))),
{
    let name = publication_name_for_source(source_oid);
    unpublish_query(quote_ident(name.as_str()).as_str())
}

/// The error of a step towards logical decoding that failed.
pub fn transition_failed(what: &str, error: &str) -> (r: PgTrickleError)
    ensures
        r@ == ErrorView::WalTransitionError(what@ + ": "@ + error@),
{
    let mut m = what.to_string();
    m.append(": ");
    m.append(error);
    PgTrickleError::WalTransitionError(m)
}

/// The error of a replication slot that could not be created or dropped.
pub fn slot_failed(verb: &str, slot: &str, error: &str) -> (r: PgTrickleError)
    ensures
        r@ == ErrorView::ReplicationSlotError(
            "Failed to "@ + verb@ + " replication slot '"@ + slot@ + "': "@ + error@,
        ),
{
    let mut m = "Failed to ".to_string();
    m.append(verb);
    m.append(" replication slot '");
    m.append(slot);
    m.append("': ");
    m.append(error);
    PgTrickleError::ReplicationSlotError(m)
}

/// How many changes are taken from a slot at once.
pub const MAX_CHANGES_PER_POLL: i64 = 10_000;

/// The query that takes the next changes of a table from a slot.
pub fn poll_sql_for_source(source_oid: u32, slot: &str) -> (r: String)
    ensures
        r@ == poll_sql(
            slot@,
            text::decimal_int(MAX_CHANGES_PER_POLL as int),
            publication_name(source_oid),
        ),
{
    poll_query(
        slot,
        i64_text(MAX_CHANGES_PER_POLL).as_str(),
        publication_name_for_source(source_oid).as_str(),
    )
}

// ── Decoding ───────────────────────────────────────────────────────────

/// Where the name of a table ends that goes on at a position: at the first
/// colon with a space behind it that does not stand in double quotes.
pub open spec fn name_end(s: Seq<char>, i: int, quoted: bool) -> Option<int>
    decreases s.len() - i,
{
    if i < 0 || i + 1 >= s.len() {
        None
    } else if s[i] == '"' {
        name_end(s, i + 1, !quoted)
    } else if !quoted && s[i] == ':' && s[i + 1] == ' ' {
        Some(i)
    } else {
        name_end(s, i + 1, quoted)
    }
}

/// Where the word stands that says what a decoded line does: behind `table`,
/// the name of the table, a colon and a space.
pub open spec fn action_start(data: Seq<char>) -> Option<int> {
    if text::occurs_at(data, "table "@, 0) {
        match name_end(data, 6, false) {
            Some(p) => Some(p + 2),
            None => None,
        }
    } else {
        None
    }
}

/// What a word at a position says: insert, update, delete or truncate.
pub open spec fn action_at(data: Seq<char>, p: int) -> Option<char> {
    if text::occurs_at(data, "INSERT:"@, p) {
        Some('I')
    } else if text::occurs_at(data, "UPDATE:"@, p) {
        Some('U')
    } else if text::occurs_at(data, "DELETE:"@, p) {
        Some('D')
    } else if text::occurs_at(data, "TRUNCATE:"@, p) {
        Some('T')
    } else {
        None
    }
}

/// What a decoded line does: insert, update, delete or truncate.
pub open spec fn action_of(data: Seq<char>) -> Option<char> {
    match action_start(data) {
        Some(p) => action_at(data, p),
        None => None,
    }
}

/// Where the column values of a decoded line start: behind the word for what
/// it does.  A truncation has none.
pub open spec fn payload_start(data: Seq<char>) -> Option<int> {
    match action_of(data) {
        Some('T') => None,
        Some(_) => Some(action_start(data)->0 + 7),
        None => None,
    }
}

/// A line does what the word behind the name of its table says, whatever
/// stands further on.
pub proof fn action_follows_table(name: Seq<char>, word: Seq<char>, rest: Seq<char>)
    requires
        forall|i: int| 0 <= i < name.len() ==> name[i] != '"' && name[i] != ':',
        seq!["INSERT:"@, "UPDATE:"@, "DELETE:"@, "TRUNCATE:"@].contains(word),
    ensures
        action_of("table "@ + name + ": "@ + word + rest) == action_at(word, 0),
        action_at(word, 0) is Some,
{
    let data = "table "@ + name + ": "@ + word + rest;
    reveal_strlit("table ");
    reveal_strlit(": ");
    reveal_strlit("INSERT:");
    reveal_strlit("UPDATE:");
    reveal_strlit("DELETE:");
    reveal_strlit("TRUNCATE:");
    assert(data.subrange(0, 6) =~= "table "@);
    let words = seq!["INSERT:"@, "UPDATE:"@, "DELETE:"@, "TRUNCATE:"@];
    assert(word.len() >= 7);
    lemma_plain_name(data, 6, (6 + name.len()) as int);
    let p = (8 + name.len()) as int;
    assert(data.subrange(p, p + word.len()) =~= word);
    assert forall|w: Seq<char>| words.contains(w) implies #[trigger] text::occurs_at(data, w, p)
        == text::occurs_at(word, w, 0) by {
        if w.len() <= word.len() {
            assert(data.subrange(p, p + w.len()) =~= word.subrange(0, w.len() as int));
        } else {
            assert(word[0] != 'T');
            assert(w[0] == 'T');
            if text::occurs_at(data, w, p) {
                assert(data[p] == data.subrange(p, p + w.len())[0]);
                assert(data[p] == word[0]);
            }
        }
    }
    assert(words[0] == "INSERT:"@ && words[1] == "UPDATE:"@ && words[2] == "DELETE:"@ && words[3]
        == "TRUNCATE:"@);
    assert(word.subrange(0, word.len() as int) =~= word);
}

/// A name without quotes and colons ends at the colon behind it.
proof fn lemma_plain_name(s: Seq<char>, i: int, end: int)
    requires
        0 <= i <= end,
        end + 1 < s.len(),
        forall|k: int| i <= k < end ==> s[k] != '"' && s[k] != ':',
        s[end] == ':',
        s[end + 1] == ' ',
    ensures
        name_end(s, i, false) == Some(end),
    decreases end - i,
{
    if i < end {
        lemma_plain_name(s, i + 1, end);
    }
}

/// Where the name of a table ends that goes on at a position.
fn find_name_end(v: &Vec<char>, from: usize) -> (r: Option<usize>)
    ensures
        match r {
            Some(p) => name_end(v@, from as int, false) == Some(p as int) && p + 2 <= v@.len(),
            None => name_end(v@, from as int, false) is None,
        },
{
    let mut quoted = false;
    let mut i: usize = from;
    while i < v.len() && v.len() - i > 1
        invariant
            name_end(v@, from as int, false) == name_end(v@, i as int, quoted),
        decreases v.len() - i,
    {
        if v[i] == '"' {
            quoted = !quoted;
        } else if !quoted && v[i] == ':' && v[i + 1] == ' ' {
            return Some(i);
        }
        i += 1;
    }
    None
}

/// Where the word stands that says what a decoded line does.
fn find_action(v: &Vec<char>) -> (r: Option<usize>)
    ensures
        match r {
            Some(p) => action_start(v@) == Some(p as int) && p <= v@.len(),
            None => action_start(v@) is None,
        },
{
    let len: usize = v.len();
    if matches_at(v, &chars_of("table "), 0) {
        match find_name_end(v, 6) {
            Some(p) => Some(p + 2),
            None => None,
        }
    } else {
        None
    }
}

/// What a word at a position says.
fn read_action(v: &Vec<char>, p: usize) -> (r: Option<char>)
    requires
        p <= v@.len(),
    ensures
        r == action_at(v@, p as int),
{
    if matches_at(v, &chars_of("INSERT:"), p) {
        Some('I')
    } else if matches_at(v, &chars_of("UPDATE:"), p) {
        Some('U')
    } else if matches_at(v, &chars_of("DELETE:"), p) {
        Some('D')
    } else if matches_at(v, &chars_of("TRUNCATE:"), p) {
        Some('T')
    } else {
        None
    }
}

/// What a decoded line does; lines that begin or end a transaction do nothing.
pub fn parse_pgoutput_action(data: &str) -> (r: Option<char>)
    ensures
        r == action_of(data@),
{
    let v = chars_of(data);
    match find_action(&v) {
        Some(p) => read_action(&v, p),
        None => None,
    }
}

/// Where the column values of a decoded line start.
fn find_payload(v: &Vec<char>) -> (r: Option<usize>)
    ensures
        match r {
            Some(p) => payload_start(v@) == Some(p as int) && p <= v@.len(),
            None => payload_start(v@) is None,
        },
{
    proof {
        reveal_strlit("INSERT:");
        reveal_strlit("UPDATE:");
        reveal_strlit("DELETE:");
    }
    let len: usize = v.len();
    match find_action(v) {
        Some(p) => match read_action(v, p) {
            Some('T') => None,
            Some(_) => Some(p + 7),
            None => None,
        },
        None => None,
    }
}

/// Where the bracket stands before which the name of a column ends that goes
/// on at a position, if no white space comes first.
pub open spec fn bracket(s: Seq<char>, i: int) -> Option<int>
    decreases s.len() - i,
{
    if i < 0 || i >= s.len() || lexical::whitespace(s[i]) {
        None
    } else if s[i] == '[' {
        Some(i)
    } else {
        bracket(s, i + 1)
    }
}

/// The position behind the quote that closes a value in single quotes that
/// goes on at a position.  Two quotes in a row are part of the value.
pub open spec fn closing(s: Seq<char>, i: int) -> Option<int>
    decreases s.len() - i,
{
    if i < 0 || i >= s.len() {
        None
    } else if s[i] != '\'' {
        closing(s, i + 1)
    } else if i + 1 < s.len() && s[i + 1] == '\'' {
        closing(s, i + 2)
    } else {
        Some(i + 1)
    }
}

/// Where a value ends that starts at a position: behind its closing quote, and
/// at white space where it has none.
pub open spec fn value_end(s: Seq<char>, i: int) -> int {
    if 0 <= i < s.len() && s[i] == '\'' && closing(s, i + 1) is Some {
        closing(s, i + 1)->0
    } else {
        lexical::word_end(s, i)
    }
}

/// A column and its value, and where the value ends.
pub struct PairAt {
    pub name: Seq<char>,
    pub value: Seq<char>,
    pub end: int,
}

/// The pair of the form `column[type]:value` at a position.  Quotes around the
/// value are left out.
pub open spec fn pair_at(s: Seq<char>, i: int) -> Option<PairAt> {
    match bracket(s, i) {
        Some(b) => match lexical::first_from(s, "]:"@, b) {
            Some(c) => {
                let end = value_end(s, c + 2);
                Some(
                    PairAt {
                        name: s.subrange(i, b),
                        value: lexical::without_ends(s.subrange(c + 2, end), '\''),
                        end,
                    },
                )
            },
            None => None,
        },
        None => None,
    }
}

/// The columns and values from a position on, in order.  Words that do not
/// begin a pair are passed over.
pub open spec fn pairs_from(s: Seq<char>, i: int) -> Seq<(Seq<char>, Seq<char>)>
    decreases s.len() - i,
    via pairs_from_shrinks
{
    if i < 0 || i >= s.len() {
        Seq::empty()
    } else if lexical::whitespace(s[i]) {
        pairs_from(s, i + 1)
    } else {
        match pair_at(s, i) {
            Some(p) => seq![(p.name, p.value)] + pairs_from(s, p.end),
            None => pairs_from(s, lexical::word_end(s, i)),
        }
    }
}

/// Pairs and words are not empty.
#[via_fn]
proof fn pairs_from_shrinks(s: Seq<char>, i: int) {
    if 0 <= i < s.len() && !lexical::whitespace(s[i]) {
        lexical::lemma_word_end(s, i);
        lemma_pair_at(s, i);
    }
}

/// A bracket stands within the text.
proof fn lemma_bracket(s: Seq<char>, i: int)
    ensures
        bracket(s, i) is Some ==> i <= bracket(s, i)->0 < s.len(),
    decreases s.len() - i,
{
    if 0 <= i < s.len() {
        lemma_bracket(s, i + 1);
    }
}

/// A value ends within the text.
proof fn lemma_closing(s: Seq<char>, i: int)
    ensures
        closing(s, i) is Some ==> i < closing(s, i)->0 <= s.len(),
    decreases s.len() - i,
{
    if 0 <= i < s.len() {
        lemma_closing(s, i + 1);
        if i + 1 < s.len() {
            lemma_closing(s, i + 2);
        }
    }
}

/// A pair lies within the text, and is not empty.
proof fn lemma_pair_at(s: Seq<char>, i: int)
    requires
        0 <= i < s.len(),
    ensures
        pair_at(s, i) is Some ==> i < pair_at(s, i)->0.end <= s.len(),
{
    lemma_bracket(s, i);
    match bracket(s, i) {
        Some(b) => {
            reveal_strlit("]:");
            lexical::lemma_first_from(s, "]:"@, b);
            match lexical::first_from(s, "]:"@, b) {
                Some(c) => {
                    lemma_closing(s, c + 3);
                    lexical::lemma_word_end(s, c + 2);
                },
                None => {},
            }
        },
        None => {},
    }
}

/// A name without brackets and white space ends at the bracket behind it.
proof fn lemma_name_bracket(s: Seq<char>, i: int, b: int)
    requires
        0 <= i <= b < s.len(),
        forall|k: int| i <= k < b ==> s[k] != '[' && !lexical::whitespace(s[k]),
        s[b] == '[',
    ensures
        bracket(s, i) == Some(b),
    decreases b - i,
{
    if i < b {
        lemma_name_bracket(s, i + 1, b);
    }
}

/// A value without quotes ends at the quote behind it.
proof fn lemma_value_closing(s: Seq<char>, i: int, q: int)
    requires
        0 <= i <= q < s.len(),
        forall|k: int| i <= k < q ==> s[k] != '\'',
        s[q] == '\'',
        q + 1 < s.len() ==> s[q + 1] != '\'',
    ensures
        closing(s, i) == Some(q + 1),
    decreases q - i,
{
    if i < q {
        lemma_value_closing(s, i + 1, q);
    }
}

/// A column with its type and a quoted value reads back, whatever the type and
/// the value hold: the name ends at the bracket, the type at its closing
/// bracket and colon, the value at its closing quote.
pub proof fn pair_reads_back(
    before: Seq<char>,
    name: Seq<char>,
    sql_type: Seq<char>,
    value: Seq<char>,
    rest: Seq<char>,
)
    requires
        forall|k: int|
            0 <= k < name.len() ==> name[k] != '[' && !lexical::whitespace(#[trigger] name[k]),
        forall|k: int| 0 <= k < sql_type.len() - 1 ==> !(#[trigger] sql_type[k] == ']' && sql_type[k
            + 1] == ':'),
        forall|k: int| 0 <= k < value.len() ==> value[k] != '\'',
        rest.len() > 0 ==> rest[0] != '\'',
    ensures
        ({
            let pair = name + seq!['['] + sql_type + seq![']', ':', '\''] + value + seq!['\''];
            pair_at(before + pair + rest, before.len() as int) == Some(
                (PairAt { name, value, end: (before.len() + pair.len()) as int }),
            )
        }),
{
    let pair = name + seq!['['] + sql_type + seq![']', ':', '\''] + value + seq!['\''];
    let s = before + pair + rest;
    let i = before.len() as int;
    let b = i + name.len();
    let c = b + 1 + sql_type.len();
    let v = c + 2;
    let q = v + 1 + value.len();
    reveal_strlit("]:");
    assert forall|k: int| i <= k < b implies s[k] != '[' && !lexical::whitespace(s[k]) by {
        assert(s[k] == name[k - i]);
    }
    assert(s[b] == '[');
    lemma_name_bracket(s, i, b);
    assert(s.subrange(c, c + 2) =~= "]:"@);
    assert forall|j: int| b <= j < c implies !text::occurs_at(s, "]:"@, j) by {
        if text::occurs_at(s, "]:"@, j) {
            assert(s.subrange(j, j + 2)[0] == ']' && s.subrange(j, j + 2)[1] == ':');
            assert(s[j] == ']' && s[j + 1] == ':');
            if j > b {
                assert(s[j] == sql_type[j - b - 1]);
                if j + 1 < c {
                    assert(s[j + 1] == sql_type[j - b]);
                }
            }
        }
    }
    lemma_first_within(s, "]:"@, b, c);
    assert(s[v] == '\'');
    assert forall|k: int| v + 1 <= k < q implies s[k] != '\'' by {
        assert(s[k] == value[k - v - 1]);
    }
    assert(s[q] == '\'');
    assert(q + 1 < s.len() ==> s[q + 1] == rest[0]);
    lemma_value_closing(s, v + 1, q);
    assert(s.subrange(i, b) =~= name);
    assert(s.subrange(v, q + 1) =~= seq!['\''] + value + seq!['\'']);
    lemma_unquoted(value);
}

/// The first place of a pattern from a position on is the one that has none
/// before it.
proof fn lemma_first_within(s: Seq<char>, pat: Seq<char>, i: int, p: int)
    requires
        0 <= i <= p,
        text::occurs_at(s, pat, p),
        forall|j: int| i <= j < p ==> !text::occurs_at(s, pat, j),
    ensures
        lexical::first_from(s, pat, i) == Some(p),
    decreases p - i,
{
    if i < p {
        assert(!text::occurs_at(s, pat, i));
        lemma_first_within(s, pat, i + 1, p);
    }
}

/// A text without quotes is what is left between quotes.
proof fn lemma_unquoted(value: Seq<char>)
    requires
        forall|k: int| 0 <= k < value.len() ==> value[k] != '\'',
    ensures
        lexical::without_ends(seq!['\''] + value + seq!['\''], '\'') == value,
{
    let t = seq!['\''] + value + seq!['\''];
    let u = value + seq!['\''];
    reveal_with_fuel(lexical::without_start, 3);
    reveal_with_fuel(lexical::without_end, 3);
    assert(t.first() == '\'');
    assert(t.drop_first() =~= u);
    if value.len() > 0 {
        assert(u.first() == value[0]);
        assert(u.drop_last() =~= value);
        assert(value.last() == value[value.len() - 1]);
    } else {
        assert(u.drop_first() =~= value);
    }
}

/// The columns and values of a decoded line.
pub open spec fn columns_of(data: Seq<char>) -> Seq<(Seq<char>, Seq<char>)> {
    match payload_start(data) {
        Some(p) => pairs_from(data, p),
        None => Seq::empty(),
    }
}

/// Where the bracket stands before which the name of a column ends.
fn find_bracket(v: &Vec<char>, from: usize) -> (r: Option<usize>)
    ensures
        match r {
            Some(p) => bracket(v@, from as int) == Some(p as int) && from <= p < v@.len(),
            None => bracket(v@, from as int) is None,
        },
{
    let mut i: usize = from;
    while i < v.len()
        invariant
            from <= i,
            bracket(v@, from as int) == bracket(v@, i as int),
        decreases v.len() - i,
    {
        if is_whitespace(v[i]) {
            return None;
        }
        if v[i] == '[' {
            return Some(i);
        }
        i += 1;
    }
    None
}

/// The position behind the quote that closes a value.
fn find_closing(v: &Vec<char>, from: usize) -> (r: Option<usize>)
    ensures
        match r {
            Some(p) => closing(v@, from as int) == Some(p as int) && from < p <= v@.len(),
            None => closing(v@, from as int) is None,
        },
{
    let mut i: usize = from;
    while i < v.len()
        invariant
            from <= i,
            closing(v@, from as int) == closing(v@, i as int),
        decreases v.len() - i,
    {
        if v[i] != '\'' {
            i += 1;
        } else if v.len() - i > 1 && v[i + 1] == '\'' {
            i += 2;
        } else {
            return Some(i + 1);
        }
    }
    None
}

/// Where a value ends that starts at a position.
fn find_value_end(v: &Vec<char>, from: usize) -> (r: usize)
    requires
        from <= v@.len(),
    ensures
        r == value_end(v@, from as int),
        from <= r <= v@.len(),
{
    proof {
        lexical::lemma_word_end(v@, from as int);
    }
    if from < v.len() && v[from] == '\'' {
        match find_closing(v, from + 1) {
            Some(p) => p,
            None => find_word_end(v, from),
        }
    } else {
        find_word_end(v, from)
    }
}

/// The pair at a position, and where it ends.
fn parse_pair(v: &Vec<char>, i: usize) -> (r: Option<(String, String, usize)>)
    requires
        i < v@.len(),
    ensures
        match r {
            Some(p) => pair_at(v@, i as int) == Some(
                (PairAt { name: p.0@, value: p.1@, end: p.2 as int }),
            ) && i < p.2 <= v@.len(),
            None => pair_at(v@, i as int) is None,
        },
{
    proof {
        reveal_strlit("]:");
        lemma_pair_at(v@, i as int);
    }
    let len: usize = v.len();
    match find_bracket(v, i) {
        Some(b) => match find_from(v, "]:", b) {
            Some(c) => {
                let end: usize = find_value_end(v, c + 2);
                Some((text_of(v, i, b), trim_char(v, c + 2, end, '\''), end))
            },
            None => None,
        },
        None => None,
    }
}

/// The columns and values of a decoded line, which has them in the form
/// `column[type]:value`.
///
/// A type goes up to its closing bracket and colon, and a value in quotes up
/// to its closing quote.  Other words are passed over; of several values for a
/// column the last counts.
pub fn parse_pgoutput_columns(data: &str) -> (r: TextMap)
    ensures
        r@ == columns_of(data@),
{
    let v = chars_of(data);
    let mut cols = TextMap::new();
    let mut i: usize = match find_payload(&v) {
        Some(p) => p,
        None => {
            return cols;
        },
    };
    let ghost all = columns_of(data@);
    assert(cols@ + all =~= all);
    while i < v.len()
        invariant
            i <= v.len(),
            all == cols@ + pairs_from(v@, i as int),
        decreases v.len() - i,
    {
        let ghost before = cols@;
        if is_whitespace(v[i]) {
            i += 1;
        } else {
            match parse_pair(&v, i) {
                Some((name, value, end)) => {
                    let ghost pair = (name@, value@);
                    cols.insert(name, value);
                    i = end;
                    proof {
                        let rest = pairs_from(v@, i as int);
                        assert(before + (seq![pair] + rest) =~= cols@ + rest);
                    }
                },
                None => {
                    proof {
                        lexical::lemma_word_end(v@, i as int);
                    }
                    i = find_word_end(&v, i);
                },
            }
        }
    }
    assert(cols@ + pairs_from(v@, i as int) =~= cols@);
    cols
}

/// A value as a literal, or `NULL` where there is none.
pub open spec fn value_text(parsed: Seq<(Seq<char>, Seq<char>)>, column: Seq<char>) -> Seq<char> {
    match text_map::latest(parsed, column) {
        Some(v) => sql_builder::literal_text(v),
        None => "NULL"@,
    }
}

/// A value as a literal, or `NULL` where there is none.
fn build_value(parsed: &TextMap, column: &str) -> (r: String)
    ensures
        r@ == value_text(parsed@, column@),
{
    match parsed.get(column) {
        Some(v) => literal(v),
        None => "NULL".to_string(),
    }
}

/// The values of columns.
pub open spec fn value_texts(
    parsed: Seq<(Seq<char>, Seq<char>)>,
    columns: Seq<Seq<char>>,
) -> Seq<Seq<char>> {
    Seq::new(columns.len(), |i: int| value_text(parsed, columns[i]))
}

/// The hash of the primary key in a decoded line; zero where there is no key
/// or no value for a key of one column.
pub open spec fn value_hash(
    parsed: Seq<(Seq<char>, Seq<char>)>,
    pk: Seq<Seq<char>>,
) -> Seq<char> {
    if pk.len() == 0 {
        "0"@
    } else if pk.len() == 1 {
        match text_map::latest(parsed, pk[0]) {
            Some(v) => cdc::hash_one_sql(sql_builder::literal_text(v)),
            None => "0"@,
        }
    } else {
        cdc::hash_many_sql(text::join(value_texts(parsed, pk), ", "@))
    }
}

/// The hash of the primary key in a decoded line.
///
/// It is computed by the functions that the triggers use, so that the hash of
/// a key does not depend on how a change was captured.
pub fn build_pk_hash_from_values(pk_columns: &Vec<String>, parsed: &TextMap) -> (r: String)
    ensures
        r@ == value_hash(parsed@, text::texts(pk_columns@)),
{
    if pk_columns.len() == 0 {
        return "0".to_string();
    }
    if pk_columns.len() == 1 {
        assert(text::texts(pk_columns@)[0] == pk_columns@[0]@);
        return match parsed.get(pk_columns[0].as_str()) {
            Some(v) => cdc::hash_one_query(literal(v).as_str()),
            None => "0".to_string(),
        };
    }
    let mut items: Vec<String> = Vec::new();
    let mut i: usize = 0;
    while i < pk_columns.len()
        invariant
            i <= pk_columns.len(),
            items@.len() == i,
            forall|k: int|
                0 <= k < i ==> (#[trigger] items@[k])@ == value_text(parsed@, pk_columns@[k]@),
        decreases pk_columns.len() - i,
    {
        items.push(build_value(parsed, pk_columns[i].as_str()));
        i += 1;
    }
    assert(text::texts(items@) =~= value_texts(parsed@, text::texts(pk_columns@)));
    cdc::hash_many_query(join_texts(&items, ", ").as_str())
}

/// The columns of a change buffer that a change writes: new values for inserts
/// and updates, old values for updates and deletes.
pub open spec fn written_columns(action: char, columns: Seq<Seq<char>>) -> Seq<Seq<char>>
    decreases columns.len(),
{
    if columns.len() == 0 {
        Seq::empty()
    } else {
        let before = written_columns(action, columns.drop_last());
        let new = "\"new_"@ + cdc::doubled(columns.last()) + "\""@;
        let old = "\"old_"@ + cdc::doubled(columns.last()) + "\""@;
        if action == 'I' {
            before.push(new)
        } else if action == 'U' {
            before.push(new).push(old)
        } else if action == 'D' {
            before.push(old)
        } else {
            before
        }
    }
}

/// The values that a change writes.  A decoded update has no old values.
pub open spec fn written_values(
    action: char,
    columns: Seq<Seq<char>>,
    parsed: Seq<(Seq<char>, Seq<char>)>,
) -> Seq<Seq<char>>
    decreases columns.len(),
{
    if columns.len() == 0 {
        Seq::empty()
    } else {
        let before = written_values(action, columns.drop_last(), parsed);
        let value = value_text(parsed, columns.last());
        if action == 'U' {
            before.push(value).push("NULL"@)
        } else if action == 'I' || action == 'D' {
            before.push(value)
        } else {
            before
        }
    }
}

/// There is a value for each column that a change writes.
pub proof fn columns_have_values(
    action: char,
    columns: Seq<Seq<char>>,
    parsed: Seq<(Seq<char>, Seq<char>)>,
)
    ensures
        written_columns(action, columns).len() == written_values(action, columns, parsed).len(),
    decreases columns.len(),
{
    if columns.len() > 0 {
        columns_have_values(action, columns.drop_last(), parsed);
    }
}

/// The statement that writes a decoded change into the change buffer.
pub open spec fn change_insert(
    oid: u32,
    lsn: Seq<char>,
    action: char,
    data: Seq<char>,
    schema: Seq<char>,
    pk: Seq<Seq<char>>,
    columns: Seq<Seq<char>>,
) -> Seq<char> {
    let parsed = columns_of(data);
    let first_cols = seq!["lsn"@, "action"@];
    let first_vals = seq!["'"@ + lsn + "'::pg_lsn"@, "'"@ + seq![action] + "'"@];
    let key_cols = if pk.len() > 0 {
        first_cols.push("pk_hash"@)
    } else {
        first_cols
    };
    let key_vals = if pk.len() > 0 {
        first_vals.push(value_hash(parsed, pk))
    } else {
        first_vals
    };
    insert_change_sql(
        schema,
        text::decimal(oid as nat),
        text::join(key_cols + written_columns(action, columns), ", "@),
        text::join(key_vals + written_values(action, columns, parsed), ", "@),
    )
}

/// What a decoded change calls for.
#[derive(Debug)]
pub enum DecodedChange {
    /// A truncated table: what reads it has to start anew.
    Reinitialize,
    /// A statement that writes the change into the change buffer.
    Insert(String),
}

/// What a decoded change calls for.
pub enum DecodedView {
    Reinitialize,
    Insert(Seq<char>),
}

impl View for DecodedChange {
    type V = DecodedView;

    open spec fn view(&self) -> DecodedView {
        match self {
            DecodedChange::Reinitialize => DecodedView::Reinitialize,
            DecodedChange::Insert(sql) => DecodedView::Insert(sql@),
        }
    }
}

/// What a decoded change calls for.
pub open spec fn decoded(
    oid: u32,
    lsn: Seq<char>,
    action: char,
    data: Seq<char>,
    schema: Seq<char>,
    pk: Seq<Seq<char>>,
    columns: Seq<Seq<char>>,
) -> DecodedView {
    if action == 'T' {
        DecodedView::Reinitialize
    } else {
        DecodedView::Insert(change_insert(oid, lsn, action, data, schema, pk, columns))
    }
}

/// Adds a column name between two texts to a list.
fn push_column(list: &mut Vec<String>, before: &str, name: &str)
    ensures
        text::texts(final(list)@) == text::texts(old(list)@).push(
            before@ + cdc::doubled(name@) + "\""@,
        ),
{
    let ghost start = list@;
    let mut t = before.to_string();
    t.append(replace_char(name, '"', "\"\"").as_str());
    t.append("\"");
    let ghost added = t@;
    list.push(t);
    assert(text::texts(list@) =~= text::texts(start).push(added));
}

/// Adds a text to a list.
fn push_text(list: &mut Vec<String>, t: String)
    ensures
        text::texts(final(list)@) == text::texts(old(list)@).push(t@),
{
    let ghost start = list@;
    let ghost added = t@;
    list.push(t);
    assert(text::texts(list@) =~= text::texts(start).push(added));
}

/// What a decoded change calls for.
///
/// The change buffer gets the position, the action, the hash of the key where
/// there is one, the new values of inserts and updates and the old values of
/// deletes.
pub fn write_decoded_change(
    source_oid: u32,
    lsn: &str,
    action: char,
    data: &str,
    change_schema: &str,
    pk_columns: &Vec<String>,
    columns: &Vec<(String, String)>,
) -> (r: DecodedChange)
    ensures
        r@ == decoded(
            source_oid,
            lsn@,
            action,
            data@,
            change_schema@,
            text::texts(pk_columns@),
            cdc::def_names(columns@),
        ),
{
    if action == 'T' {
        return DecodedChange::Reinitialize;
    }
    let parsed = parse_pgoutput_columns(data);
    let mut col_names: Vec<String> = Vec::new();
    let mut col_values: Vec<String> = Vec::new();
    push_text(&mut col_names, "lsn".to_string());
    push_text(&mut col_names, "action".to_string());
    let mut position = "'".to_string();
    position.append(lsn);
    position.append("'::pg_lsn");
    push_text(&mut col_values, position);
    let mut word = "'".to_string();
    let mut letter = String::new();
    letter.push(action);
    assert(letter@ =~= seq![action]);
    word.append(letter.as_str());
    word.append("'");
    push_text(&mut col_values, word);
    assert(text::texts(col_names@) =~= seq!["lsn"@, "action"@]);
    assert(text::texts(col_values@) =~= seq![
        "'"@ + lsn@ + "'::pg_lsn"@,
        "'"@ + seq![action] + "'"@,
    ]);
    if pk_columns.len() > 0 {
        push_text(&mut col_names, "pk_hash".to_string());
        push_text(&mut col_values, build_pk_hash_from_values(pk_columns, &parsed));
    }
    let ghost names0 = text::texts(col_names@);
    let ghost values0 = text::texts(col_values@);
    let ghost all = cdc::def_names(columns@);
    let mut i: usize = 0;
    assert(names0 =~= names0 + written_columns(action, all.take(0)));
    assert(values0 =~= values0 + written_values(action, all.take(0), parsed@));
    while i < columns.len()
        invariant
            i <= columns.len(),
            all == cdc::def_names(columns@),
            text::texts(col_names@) == names0 + written_columns(action, all.take(i as int)),
            text::texts(col_values@) == values0 + written_values(
                action,
                all.take(i as int),
                parsed@,
            ),
        decreases columns.len() - i,
    {
        assert(all.take(i + 1).drop_last() =~= all.take(i as int));
        assert(all.take(i + 1).last() == columns@[i as int].0@);
        let name = columns[i].0.as_str();
        if action == 'I' || action == 'U' {
            push_column(&mut col_names, "\"new_", name);
            push_text(&mut col_values, build_value(&parsed, name));
        }
        if action == 'U' {
            push_column(&mut col_names, "\"old_", name);
            push_text(&mut col_values, "NULL".to_string());
        }
        if action == 'D' {
            push_column(&mut col_names, "\"old_", name);
            push_text(&mut col_values, build_value(&parsed, name));
        }
        i += 1;
        assert(text::texts(col_names@) =~= names0 + written_columns(action, all.take(i as int)));
        assert(text::texts(col_values@) =~= values0 + written_values(
            action,
            all.take(i as int),
            parsed@,
        ));
    }
    assert(all.take(i as int) =~= all);
    DecodedChange::Insert(
        insert_change_query(
            change_schema,
            u32_text(source_oid).as_str(),
            join_texts(&col_names, ", ").as_str(),
            join_texts(&col_values, ", ").as_str(),
        ),
    )
}

/// A row that was taken from a slot.
#[derive(Debug)]
pub struct WalRow {
    pub lsn: String,
    pub data: String,
}

/// What the rows that were taken from a slot call for, in order.
#[derive(Debug)]
pub struct DecodedBatch {
    pub changes: Vec<DecodedChange>,
    /// The position of the last row.
    pub last_lsn: Option<String>,
}

/// The views of decoded changes.
pub open spec fn decoded_views(v: Seq<DecodedChange>) -> Seq<DecodedView> {
    Seq::new(v.len(), |i: int| v[i]@)
}

/// What rows call for: one thing for each row that changes the table.
pub open spec fn decoded_rows(
    oid: u32,
    rows: Seq<WalRow>,
    schema: Seq<char>,
    pk: Seq<Seq<char>>,
    columns: Seq<Seq<char>>,
) -> Seq<DecodedView>
    decreases rows.len(),
{
    if rows.len() == 0 {
        Seq::empty()
    } else {
        let before = decoded_rows(oid, rows.drop_last(), schema, pk, columns);
        match action_of(rows.last().data@) {
            Some(a) => before.push(
                decoded(oid, rows.last().lsn@, a, rows.last().data@, schema, pk, columns),
            ),
            None => before,
        }
    }
}

/// What the rows that were taken from a slot call for.
///
/// Rows that change nothing are passed over, and count for the position only.
pub fn poll_wal_changes(
    source_oid: u32,
    rows: &Vec<WalRow>,
    change_schema: &str,
    pk_columns: &Vec<String>,
    columns: &Vec<(String, String)>,
) -> (r: DecodedBatch)
    ensures
        decoded_views(r.changes@) == decoded_rows(
            source_oid,
            rows@,
            change_schema@,
            text::texts(pk_columns@),
            cdc::def_names(columns@),
        ),
        text::opt_text(r.last_lsn) == if rows@.len() == 0 {
            None
        } else {
            Some(rows@.last().lsn@)
        },
{
    let mut changes: Vec<DecodedChange> = Vec::new();
    let mut last_lsn: Option<String> = None;
    let mut i: usize = 0;
    assert(decoded_views(changes@) =~= Seq::empty());
    while i < rows.len()
        invariant
            i <= rows.len(),
            decoded_views(changes@) == decoded_rows(
                source_oid,
                rows@.take(i as int),
                change_schema@,
                text::texts(pk_columns@),
                cdc::def_names(columns@),
            ),
            text::opt_text(last_lsn) == if i == 0 {
                None
            } else {
                Some(rows@[i - 1].lsn@)
            },
        decreases rows.len() - i,
    {
        assert(rows@.take(i + 1).drop_last() =~= rows@.take(i as int));
        let row = &rows[i];
        match parse_pgoutput_action(row.data.as_str()) {
            Some(action) => {
                let ghost before = changes@;
                let change = write_decoded_change(
                    source_oid,
                    row.lsn.as_str(),
                    action,
                    row.data.as_str(),
                    change_schema,
                    pk_columns,
                    columns,
                );
                let ghost added = change@;
                changes.push(change);
                assert(decoded_views(changes@) =~= decoded_views(before).push(added));
            },
            None => {},
        }
        last_lsn = Some(row.lsn.clone());
        i += 1;
    }
    assert(rows@.take(i as int) =~= rows@);
    DecodedBatch { changes, last_lsn }
}

// ── Transitions ────────────────────────────────────────────────────────

/// A decoder that lags no further than this has caught up.
pub const MAX_LAG_BYTES: i64 = 65_536;

/// A decoder that lags further than this is warned of.
pub const WARN_LAG_BYTES: i64 = 1_073_741_824;

/// What is entered into the catalog for a source.
#[derive(Debug)]
pub struct CatalogUpdate {
    pub mode: CdcMode,
    pub slot_name: Option<String>,
    pub confirmed_lsn: Option<String>,
}

/// What is entered when logical decoding starts beside the triggers.
pub fn start_wal_transition(source_oid: u32, slot_lsn: &str) -> (r: CatalogUpdate)
    ensures
        r.mode == CdcMode::Transitioning,
        text::opt_text(r.slot_name) == Some(slot_name(source_oid)),
        text::opt_text(r.confirmed_lsn) == Some(slot_lsn@),
{
    CatalogUpdate {
        mode: CdcMode::Transitioning,
        slot_name: Some(slot_name_for_source(source_oid)),
        confirmed_lsn: Some(slot_lsn.to_string()),
    }
}

/// What is entered when the triggers were dropped.
pub fn complete_wal_transition() -> (r: CatalogUpdate)
    ensures
        r.mode == CdcMode::Wal,
        r.slot_name is None,
        r.confirmed_lsn is None,
{
    CatalogUpdate { mode: CdcMode::Wal, slot_name: None, confirmed_lsn: None }
}

/// What is entered when the triggers take over again.
pub fn abort_wal_transition() -> (r: CatalogUpdate)
    ensures
        r.mode == CdcMode::Trigger,
        r.slot_name is None,
        r.confirmed_lsn is None,
{
    CatalogUpdate { mode: CdcMode::Trigger, slot_name: None, confirmed_lsn: None }
}

/// The replication slot of a dependency: the one in the catalog, or else the
/// one that is named after the source.
pub open spec fn dependency_slot(dep: DtDependency) -> Seq<char> {
    match dep.slot_name {
        Some(name) => name@,
        None => slot_name(dep.source_relid),
    }
}

/// The replication slot of a dependency.
pub fn slot_of_dependency(dep: &DtDependency) -> (r: String)
    ensures
        r@ == dependency_slot(*dep),
{
    match &dep.slot_name {
        Some(name) => name.clone(),
        None => slot_name_for_source(dep.source_relid),
    }
}

/// What is entered after changes were taken from a slot: the position of the
/// last one, if there was one.
pub fn poll_source_changes(dep: &DtDependency, last_lsn: &Option<String>) -> (r: Option<
    CatalogUpdate,
>)
    ensures
        match *last_lsn {
            None => r is None,
            Some(lsn) => {
                &&& r is Some
                &&& r->0.mode == dep.cdc_mode
                &&& text::opt_text(r->0.slot_name) == text::opt_text(dep.slot_name)
                &&& text::opt_text(r->0.confirmed_lsn) == Some(lsn@)
            },
        },
{
    match last_lsn {
        None => None,
        Some(lsn) => Some(
            CatalogUpdate {
                mode: dep.cdc_mode,
                slot_name: copy_opt(&dep.slot_name),
                confirmed_lsn: Some(lsn.clone()),
            },
        ),
    }
}

/// What the lag of a decoder calls for while the triggers go on.
#[derive(Debug)]
pub enum TransitionCheck {
    /// The decoder has caught up: drop the triggers.
    Complete,
    /// Ask whether the transition takes too long, and if so abort it.
    CheckTimeout(String),
    /// Go on.
    Wait,
}

/// What the lag of a decoder calls for while the triggers go on.
///
/// The query takes the time at which the transition started as its parameter.
pub fn check_and_complete_transition(
    lag_bytes: i64,
    dep: &DtDependency,
    timeout_secs: i32,
) -> (r: TransitionCheck)
    ensures
        lag_bytes <= MAX_LAG_BYTES <==> r is Complete,
        lag_bytes > MAX_LAG_BYTES && dep.transition_started_at is Some ==> r is CheckTimeout
            && r->CheckTimeout_0@ == timed_out_sql(text::decimal_int(timeout_secs as int)),
        lag_bytes > MAX_LAG_BYTES && dep.transition_started_at is None ==> r is Wait,
{
    if lag_bytes <= MAX_LAG_BYTES {
        return TransitionCheck::Complete;
    }
    match &dep.transition_started_at {
        Some(_) => TransitionCheck::CheckTimeout(
            timed_out_query(i64_text(timeout_secs as i64).as_str()),
        ),
        None => TransitionCheck::Wait,
    }
}

/// Whether a source can start logical decoding.
#[derive(Debug, Clone, Copy, PartialEq, Eq, Structural)]
pub enum StartDecision {
    /// The server cannot decode: stay on triggers.
    Unavailable,
    /// The table does not tell its rows apart: stay on triggers.
    InadequateIdentity,
    Start,
}

/// Whether a source can start logical decoding.
pub fn try_start_transition(can_use_replication: bool, identity_adequate: bool) -> (r:
    StartDecision)
    ensures
        r == if !can_use_replication {
            StartDecision::Unavailable
        } else if !identity_adequate {
            StartDecision::InadequateIdentity
        } else {
            StartDecision::Start
        },
{
    if !can_use_replication {
        StartDecision::Unavailable
    } else if !identity_adequate {
        StartDecision::InadequateIdentity
    } else {
        StartDecision::Start
    }
}

/// The state of a decoder on which a source relies.
#[derive(Debug, Clone, Copy, PartialEq, Eq, Structural)]
pub enum DecoderHealth {
    /// The slot is gone: go back to triggers.
    SlotMissing,
    /// The decoder lags far behind: warn, and go on.
    Lagging,
    Healthy,
}

/// The state of a decoder on which a source relies.
pub fn check_decoder_health(slot_exists: bool, lag_bytes: i64) -> (r: DecoderHealth)
    ensures
        r == if !slot_exists {
            DecoderHealth::SlotMissing
        } else if lag_bytes > WARN_LAG_BYTES {
            DecoderHealth::Lagging
        } else {
            DecoderHealth::Healthy
        },
{
    if !slot_exists {
        DecoderHealth::SlotMissing
    } else if lag_bytes > WARN_LAG_BYTES {
        DecoderHealth::Lagging
    } else {
        DecoderHealth::Healthy
    }
}

// ── Scheduling ─────────────────────────────────────────────────────────

/// What is done for a source in a tick of the scheduler.
#[derive(Debug, Clone, Copy, PartialEq, Eq, Structural)]
pub enum SourceAction {
    /// See whether logical decoding can start.
    TryStart,
    /// Take changes, and see whether the decoder has caught up.
    PollAndCheck,
    /// Take changes, and see whether the decoder is well.
    PollAndCheckHealth,
}

/// What is done for a source with a capture mode.
pub open spec fn action_for(mode: CdcMode) -> SourceAction {
    match mode {
        CdcMode::Trigger => SourceAction::TryStart,
        CdcMode::Transitioning => SourceAction::PollAndCheck,
        CdcMode::Wal => SourceAction::PollAndCheckHealth,
    }
}

/// Whether a dependency is on a table.
pub open spec fn on_table(dep: DtDependency) -> bool {
    dep.source_type@ == "TABLE"@
}

/// Whether a dependency is the first on its table.
pub open spec fn first_on_table(deps: Seq<DtDependency>, i: int) -> bool {
    &&& on_table(deps[i])
    &&& forall|j: int|
        0 <= j < i && on_table(#[trigger] deps[j]) ==> deps[j].source_relid
            != deps[i].source_relid
}

/// What is done in a tick: for each table, what the first dependency on it
/// calls for.
pub open spec fn planned(deps: Seq<DtDependency>, n: nat) -> Seq<(usize, SourceAction)>
    decreases n,
{
    if n == 0 {
        Seq::empty()
    } else if first_on_table(deps, n - 1) {
        planned(deps, (n - 1) as nat).push(((n - 1) as usize, action_for(deps[n - 1].cdc_mode)))
    } else {
        planned(deps, (n - 1) as nat)
    }
}

/// Whether a dependency is the first on its table.
fn is_first_on_table(deps: &Vec<DtDependency>, i: usize) -> (r: bool)
    requires
        i < deps@.len(),
    ensures
        r == first_on_table(deps@, i as int),
{
    if !text_eq(deps[i].source_type.as_str(), "TABLE") {
        return false;
    }
    let mut j: usize = 0;
    while j < i
        invariant
            j <= i < deps@.len(),
            forall|k: int|
                0 <= k < j && on_table(#[trigger] deps@[k]) ==> deps@[k].source_relid
                    != deps@[i as int].source_relid,
        decreases i - j,
    {
        if text_eq(deps[j].source_type.as_str(), "TABLE") && deps[j].source_relid
            == deps[i].source_relid {
            assert(on_table(deps@[j as int]));
            return false;
        }
        j += 1;
    }
    true
}

/// What is done in a tick of the scheduler: for each table that is a source,
/// what its capture mode calls for.  Nothing is done where only triggers are
/// allowed.
pub fn advance_wal_transitions(cdc_mode: &str, deps: &Vec<DtDependency>) -> (r: Vec<
    (usize, SourceAction),
>)
    ensures
        r@ == if cdc_mode@ == "trigger"@ {
            Seq::empty()
        } else {
            planned(deps@, deps@.len())
        },
{
    let mut r: Vec<(usize, SourceAction)> = Vec::new();
    if text_eq(cdc_mode, "trigger") {
        return r;
    }
    let mut i: usize = 0;
    while i < deps.len()
        invariant
            i <= deps.len(),
            r@ == planned(deps@, i as nat),
        decreases deps.len() - i,
    {
        if is_first_on_table(deps, i) {
            let action = match deps[i].cdc_mode {
                CdcMode::Trigger => SourceAction::TryStart,
                CdcMode::Transitioning => SourceAction::PollAndCheck,
                CdcMode::Wal => SourceAction::PollAndCheckHealth,
            };
            r.push((i, action));
        }
        i += 1;
    }
    r
}

/// The table that an entry of a plan is for.
pub open spec fn planned_table(
    deps: Seq<DtDependency>,
    plan: Seq<(usize, SourceAction)>,
    a: int,
) -> u32 {
    deps[plan[a].0 as int].source_relid
}

/// Whether a plan has an entry for a table.
pub open spec fn plans_for(
    deps: Seq<DtDependency>,
    plan: Seq<(usize, SourceAction)>,
    table: u32,
) -> bool {
    exists|a: int| 0 <= a < plan.len() && #[trigger] planned_table(deps, plan, a) == table
}

/// In a tick each table that is a source is dealt with once, and no other
/// source is.
pub proof fn each_table_once(deps: Seq<DtDependency>, n: nat)
    requires
        n <= deps.len(),
        deps.len() <= usize::MAX,
    ensures
        forall|a: int|
            0 <= a < planned(deps, n).len() ==> (#[trigger] planned(deps, n)[a]).0 < n && on_table(
                deps[planned(deps, n)[a].0 as int],
            ),
        forall|a: int, b: int|
            0 <= a < b < planned(deps, n).len() ==> #[trigger] planned_table(
                deps,
                planned(deps, n),
                a,
            ) != #[trigger] planned_table(deps, planned(deps, n), b),
        forall|i: int|
            0 <= i < n && on_table(#[trigger] deps[i]) ==> plans_for(
                deps,
                planned(deps, n),
                deps[i].source_relid,
            ),
    decreases n,
{
    if n > 0 {
        let m = (n - 1) as nat;
        each_table_once(deps, m);
        let before = planned(deps, m);
        let now = planned(deps, n);
        assert forall|a: int| 0 <= a < before.len() implies planned_table(deps, now, a)
            == #[trigger] planned_table(deps, before, a) by {
            assert(now[a] == before[a]);
        }
        assert forall|a: int| 0 <= a < now.len() implies (#[trigger] now[a]).0 < n && on_table(
            deps[now[a].0 as int],
        ) by {
            if a < before.len() {
                assert(now[a] == before[a]);
            }
        }
        assert forall|a: int, b: int| 0 <= a < b < now.len() implies #[trigger] planned_table(
            deps,
            now,
            a,
        ) != #[trigger] planned_table(deps, now, b) by {
            assert(planned_table(deps, now, a) == planned_table(deps, before, a));
            if b < before.len() {
                assert(planned_table(deps, now, b) == planned_table(deps, before, b));
            } else {
                assert(before[a].0 < m && on_table(deps[before[a].0 as int]));
            }
        }
        assert forall|i: int| 0 <= i < n && on_table(#[trigger] deps[i]) implies plans_for(
            deps,
            now,
            deps[i].source_relid,
        ) by {
            if i == m && first_on_table(deps, m as int) {
                assert(planned_table(deps, now, before.len() as int) == deps[i].source_relid);
            } else {
                let j = if i < m {
                    i
                } else {
                    choose|j: int|
                        0 <= j < m && on_table(#[trigger] deps[j]) && deps[j].source_relid
                            == deps[m as int].source_relid
                };
                assert(plans_for(deps, before, deps[j].source_relid));
                let a = choose|a: int|
                    0 <= a < before.len() && #[trigger] planned_table(deps, before, a)
                        == deps[j].source_relid;
                assert(planned_table(deps, now, a) == deps[i].source_relid);
            }
        }
    }
}

// ── What the queries say ───────────────────────────────────────────────

/// Changes are taken from the slot, no more than the limit, and only those of
/// the publication.
pub proof fn changes_are_taken_from_the_slot_of_the_table(
    slot: Seq<char>,
    max_changes: Seq<char>,
    publication: Seq<char>,
)
    ensures
        ({
            let t = poll_sql(slot, max_changes, publication);
            &&& text::occurs(
                t,
                "pg_logical_slot_get_changes('"@ + slot + "', NULL, "@ + max_changes
                    + ", 'proto_version', '1', 'publication_names', '"@ + publication + "')"@,
            )
        }),
{
    reveal_strlit("')");
    reveal_strlit("', NULL, ");
    reveal_strlit("pg_logical_slot_get_changes('");
    reveal_strlit(", 'proto_version', '1', 'publication_names', '");
    reveal_strlit("SELECT lsn::text, xid, data FROM pg_logical_slot_get_changes('");
    let t = poll_sql(slot, max_changes, publication);
    let f0 = "pg_logical_slot_get_changes('"@ + slot + "', NULL, "@ + max_changes
        + ", 'proto_version', '1', 'publication_names', '"@ + publication + "')"@;
    let k0 = 33int;
    assert(t.subrange(k0, k0 + f0.len()) =~= f0);
    assert(text::occurs_at(t, f0, k0));
}

/// A transition has timed out when more than the limit has passed since it
/// began.
pub proof fn a_transition_times_out_after_the_limit(
    seconds: Seq<char>,
)
    ensures
        ({
            let t = timed_out_sql(seconds);
            &&& text::occurs(
                t,
                "(now() - $1::timestamptz) > interval '"@ + seconds + " seconds'"@,
            )
        }),
{
    reveal_strlit(" seconds'");
    reveal_strlit("(now() - $1::timestamptz) > interval '");
    reveal_strlit("SELECT (now() - $1::timestamptz) > interval '");
    let t = timed_out_sql(seconds);
    let f0 = "(now() - $1::timestamptz) > interval '"@ + seconds + " seconds'"@;
    let k0 = 7int;
    assert(t.subrange(k0, k0 + f0.len()) =~= f0);
    assert(text::occurs_at(t, f0, k0));
}

/// A publication is for its table.
pub proof fn a_publication_is_for_its_table(
    publication: Seq<char>,
    table: Seq<char>,
)
    ensures
        ({
            let t = publish_sql(publication, table);
            &&& text::occurs(
                t,
                "CREATE PUBLICATION "@ + publication + " FOR TABLE "@ + table,
            )
        }),
{
    reveal_strlit(" FOR TABLE ");
    reveal_strlit("CREATE PUBLICATION ");
    let t = publish_sql(publication, table);
    let f0 = "CREATE PUBLICATION "@ + publication + " FOR TABLE "@ + table;
    let k0 = 0int;
    assert(t.subrange(k0, k0 + f0.len()) =~= f0);
    assert(text::occurs_at(t, f0, k0));
}

// ── What the statements say ────────────────────────────────────────────

/// A change is written to the buffer of its table, values in the order of the
/// columns.
pub proof fn a_change_is_written_to_the_buffer_of_its_table(
    schema: Seq<char>,
    oid: Seq<char>,
    cols: Seq<char>,
    vals: Seq<char>,
)
    ensures
        ({
            let t = insert_change_sql(schema, oid, cols, vals);
            &&& text::occurs(
                t,
                "INSERT INTO "@ + schema + ".changes_"@ + oid + " ("@ + cols + ") VALUES ("@ + vals
                    + ")"@,
            )
        }),
{
    reveal_strlit(")");
    reveal_strlit(" (");
    reveal_strlit(".changes_");
    reveal_strlit(") VALUES (");
    reveal_strlit("INSERT INTO ");
    let t = insert_change_sql(schema, oid, cols, vals);
    let f0 = "INSERT INTO "@ + schema + ".changes_"@ + oid + " ("@ + cols + ") VALUES ("@ + vals
        + ")"@;
    let k0 = 0int;
    assert(t.subrange(k0, k0 + f0.len()) =~= f0);
    assert(text::occurs_at(t, f0, k0));
}

/// A publication is dropped by its name.
pub proof fn a_publication_is_dropped_by_its_name(
    publication: Seq<char>,
)
    ensures
        ({
            let t = unpublish_sql(publication);
            &&& text::occurs(
                t,
                "DROP PUBLICATION IF EXISTS "@ + publication,
            )
        }),
{
    reveal_strlit("DROP PUBLICATION IF EXISTS ");
    let t = unpublish_sql(publication);
    let f0 = "DROP PUBLICATION IF EXISTS "@ + publication;
    let k0 = 0int;
    assert(t.subrange(k0, k0 + f0.len()) =~= f0);
    assert(text::occurs_at(t, f0, k0));
}

} // verus!
