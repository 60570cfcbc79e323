//! What holds of the capture of changes, by triggers and by decoding: no
//! change is lost, lines read back, and both ways write the same columns.

use vstd::prelude::*;

use crate::catalog::{CdcMode, DtDependency};
use crate::cdc;
use crate::lexical;
use crate::sql_builder;
use crate::text;
use crate::text_map;
use crate::wal_decoder as wal;
use crate::wal_decoder::{DecodedView, PairAt, SourceAction, WalRow};

verus! {

// ── Batches ────────────────────────────────────────────────────────────

/// How many rows change the table.
pub open spec fn acting(rows: Seq<WalRow>) -> nat
    decreases rows.len(),
{
    if rows.len() == 0 {
        0
    } else {
        (if wal::action_of(rows[0].data@) is Some {
            1nat
        } else {
            0
        }) + acting(rows.drop_first())
    }
}

/// The rows of two lists are counted together.
proof fn lemma_acting_adds(a: Seq<WalRow>, b: Seq<WalRow>)
    ensures
        acting(a + b) == acting(a) + acting(b),
    decreases a.len(),
{
    if a.len() == 0 {
        assert(a + b =~= b);
    } else {
        assert((a + b).drop_first() =~= a.drop_first() + b);
        lemma_acting_adds(a.drop_first(), b);
    }
}

/// What two batches call for, one after the other, is what both together call
/// for.
pub proof fn batches_are_decoded_apart(
    oid: u32,
    a: Seq<WalRow>,
    b: Seq<WalRow>,
    schema: Seq<char>,
    pk: Seq<Seq<char>>,
    columns: Seq<Seq<char>>,
)
    ensures
        wal::decoded_rows(oid, a + b, schema, pk, columns) == wal::decoded_rows(
            oid,
            a,
            schema,
            pk,
            columns,
        ) + wal::decoded_rows(oid, b, schema, pk, columns),
    decreases b.len(),
{
    let left = wal::decoded_rows(oid, a, schema, pk, columns);
    if b.len() == 0 {
        assert(a + b =~= a);
        assert(left + wal::decoded_rows(oid, b, schema, pk, columns) =~= left);
    } else {
        assert((a + b).drop_last() =~= a + b.drop_last());
        assert((a + b).last() == b.last());
        batches_are_decoded_apart(oid, a, b.drop_last(), schema, pk, columns);
        assert(wal::decoded_rows(oid, a + b, schema, pk, columns) =~= left + wal::decoded_rows(
            oid,
            b,
            schema,
            pk,
            columns,
        ));
    }
}

/// No change is lost, whatever it does: there are as many changes as rows that
/// change the table, and each such row gives, in its place, the change that it
/// gives by itself with its own position and action.
pub proof fn no_change_is_lost(
    oid: u32,
    rows: Seq<WalRow>,
    schema: Seq<char>,
    pk: Seq<Seq<char>>,
    columns: Seq<Seq<char>>,
    i: int,
)
    requires
        0 <= i < rows.len(),
        wal::action_of(rows[i].data@) is Some,
    ensures
        wal::decoded_rows(oid, rows, schema, pk, columns).len() == acting(rows),
        acting(rows.take(i)) < acting(rows),
        wal::decoded_rows(oid, rows, schema, pk, columns)[acting(rows.take(i)) as int]
            == wal::decoded(
            oid,
            rows[i].lsn@,
            wal::action_of(rows[i].data@)->0,
            rows[i].data@,
            schema,
            pk,
            columns,
        ),
{
    let before = rows.take(i);
    let row = seq![rows[i]];
    let after = rows.skip(i + 1);
    assert(rows =~= before + row + after);
    batches_are_decoded_apart(oid, before + row, after, schema, pk, columns);
    batches_are_decoded_apart(oid, before, row, schema, pk, columns);
    lemma_acting_adds(before + row, after);
    lemma_acting_adds(before, row);
    lemma_decoded_len(oid, before, schema, pk, columns);
    lemma_decoded_len(oid, rows, schema, pk, columns);
    lemma_one_row(oid, rows[i], schema, pk, columns);
    assert(row.drop_first() =~= Seq::empty());
    assert(acting(row) == 1) by {
        reveal_with_fuel(acting, 2);
    }
}

/// A row by itself gives one change where it changes the table, and else none.
proof fn lemma_one_row(
    oid: u32,
    row: WalRow,
    schema: Seq<char>,
    pk: Seq<Seq<char>>,
    columns: Seq<Seq<char>>,
)
    ensures
        wal::decoded_rows(oid, seq![row], schema, pk, columns) == match wal::action_of(row.data@) {
            Some(a) => seq![wal::decoded(oid, row.lsn@, a, row.data@, schema, pk, columns)],
            None => Seq::empty(),
        },
{
    let one = seq![row];
    assert(one.drop_last() =~= Seq::empty());
    assert(one.last() == row);
    let none = wal::decoded_rows(oid, one.drop_last(), schema, pk, columns);
    assert(none =~= Seq::empty());
    match wal::action_of(row.data@) {
        Some(a) => {
            let d = wal::decoded(oid, row.lsn@, a, row.data@, schema, pk, columns);
            assert(wal::decoded_rows(oid, one, schema, pk, columns) =~= none.push(d));
            assert(none.push(d) =~= seq![d]);
        },
        None => {},
    }
}

/// There are as many changes as rows that change the table.
proof fn lemma_decoded_len(
    oid: u32,
    rows: Seq<WalRow>,
    schema: Seq<char>,
    pk: Seq<Seq<char>>,
    columns: Seq<Seq<char>>,
)
    ensures
        wal::decoded_rows(oid, rows, schema, pk, columns).len() == acting(rows),
    decreases rows.len(),
{
    if rows.len() > 0 {
        let row = seq![rows[0]];
        let rest = rows.drop_first();
        assert(rows =~= row + rest);
        batches_are_decoded_apart(oid, row, rest, schema, pk, columns);
        lemma_one_row(oid, rows[0], schema, pk, columns);
        lemma_decoded_len(oid, rest, schema, pk, columns);
    }
}

/// Rows that do nothing give nothing, however many there are.
pub proof fn idle_rows_give_nothing(
    oid: u32,
    rows: Seq<WalRow>,
    schema: Seq<char>,
    pk: Seq<Seq<char>>,
    columns: Seq<Seq<char>>,
)
    requires
        forall|i: int| 0 <= i < rows.len() ==> wal::action_of((#[trigger] rows[i]).data@) is None,
    ensures
        wal::decoded_rows(oid, rows, schema, pk, columns).len() == 0,
    decreases rows.len(),
{
    if rows.len() > 0 {
        assert(wal::action_of(rows[rows.len() - 1].data@) is None);
        assert forall|i: int| 0 <= i < rows.drop_last().len() implies wal::action_of(
            (#[trigger] rows.drop_last()[i]).data@,
        ) is None by {
            assert(rows.drop_last()[i] == rows[i]);
        }
        idle_rows_give_nothing(oid, rows.drop_last(), schema, pk, columns);
    }
}

// ── Lines ──────────────────────────────────────────────────────────────

/// A line that does not begin with `table`, such as one that begins or ends a
/// transaction, changes nothing, and neither does one whose word is none of
/// the four.
pub proof fn other_lines_change_nothing(data: Seq<char>)
    ensures
        !text::begins(data, "table "@) ==> wal::action_of(data) is None && wal::columns_of(
            data,
        ).len() == 0,
        wal::action_of(data) is None ==> wal::columns_of(data).len() == 0,
        wal::action_of(data) == Some('T') ==> wal::columns_of(data).len() == 0,
        wal::action_of(data) is Some ==> seq!['I', 'U', 'D', 'T'].contains(
            wal::action_of(data)->0,
        ),
{
    let all = seq!['I', 'U', 'D', 'T'];
    assert(all[0] == 'I' && all[1] == 'U' && all[2] == 'D' && all[3] == 'T');
}

/// Each of the four words means what it says.
pub proof fn words_mean_what_they_say(word: Seq<char>)
    ensures
        word == "INSERT:"@ ==> wal::action_at(word, 0) == Some('I'),
        word == "UPDATE:"@ ==> wal::action_at(word, 0) == Some('U'),
        word == "DELETE:"@ ==> wal::action_at(word, 0) == Some('D'),
        word == "TRUNCATE:"@ ==> wal::action_at(word, 0) == Some('T'),
{
    reveal_strlit("INSERT:");
    reveal_strlit("UPDATE:");
    reveal_strlit("DELETE:");
    reveal_strlit("TRUNCATE:");
    let whole = word.subrange(0, word.len() as int);
    assert(whole =~= word);
    if word == "UPDATE:"@ {
        assert(word[0] == 'U' && "INSERT:"@[0] == 'I');
    }
    if word == "DELETE:"@ {
        assert(word[0] == 'D' && "INSERT:"@[0] == 'I' && "UPDATE:"@[0] == 'U');
    }
    if word == "TRUNCATE:"@ {
        let part = word.subrange(0, 7);
        assert(part[0] == 'T');
        assert("INSERT:"@[0] == 'I' && "UPDATE:"@[0] == 'U' && "DELETE:"@[0] == 'D');
    }
}

/// A column of a line: its name, its type, its value, and whether the value
/// stands in quotes.
pub struct LineColumn {
    pub name: Seq<char>,
    pub sql_type: Seq<char>,
    pub value: Seq<char>,
    pub in_quotes: bool,
}

impl LineColumn {
    /// The column as it stands in a line.
    pub open spec fn text(self) -> Seq<char> {
        let value = if self.in_quotes {
            seq!['\''] + self.value + seq!['\'']
        } else {
            self.value
        };
        self.name + seq!['['] + self.sql_type + seq![']', ':'] + value
    }

    /// Whether name and type end where their brackets stand, and the value
    /// where its quotes or white space do.
    pub open spec fn wf(self) -> bool {
        &&& self.name.len() > 0
        &&& forall|k: int|
            0 <= k < self.name.len() ==> self.name[k] != '[' && !lexical::whitespace(
                #[trigger] self.name[k],
            )
        &&& forall|k: int|
            0 <= k < self.sql_type.len() - 1 ==> !(#[trigger] self.sql_type[k] == ']'
                && self.sql_type[k + 1] == ':')
        &&& forall|k: int| 0 <= k < self.value.len() ==> #[trigger] self.value[k] != '\''
        &&& !self.in_quotes ==> forall|k: int|
            0 <= k < self.value.len() ==> !lexical::whitespace(#[trigger] self.value[k])
    }
}

/// Columns as they stand in a line, each after a space.
pub open spec fn line_text(cols: Seq<LineColumn>) -> Seq<char>
    decreases cols.len(),
{
    if cols.len() == 0 {
        Seq::empty()
    } else {
        seq![' '] + cols[0].text() + line_text(cols.drop_first())
    }
}

/// A word without white space ends where white space follows or the text ends.
proof fn lemma_word_ends(s: Seq<char>, i: int, end: int)
    requires
        0 <= i <= end <= s.len(),
        forall|k: int| i <= k < end ==> !lexical::whitespace(#[trigger] s[k]),
        end < s.len() ==> lexical::whitespace(s[end]),
    ensures
        lexical::word_end(s, i) == end,
    decreases end - i,
{
    if i < end {
        lemma_word_ends(s, i + 1, end);
    }
}

/// A name without brackets and white space ends at the bracket behind it.
proof fn lemma_bracket_found(s: Seq<char>, i: int, b: int)
    requires
        0 <= i <= b < s.len(),
        forall|k: int| i <= k < b ==> s[k] != '[' && !lexical::whitespace(#[trigger] s[k]),
        s[b] == '[',
    ensures
        wal::bracket(s, i) == Some(b),
    decreases b - i,
{
    if i < b {
        lemma_bracket_found(s, i + 1, b);
    }
}

/// The first place of a pattern is the one that has none before it.
proof fn lemma_first_place(s: Seq<char>, pat: Seq<char>, i: int, p: int)
    requires
        0 <= i <= p,
        text::occurs_at(s, pat, p),
        forall|j: int| i <= j < p ==> !text::occurs_at(s, pat, j),
    ensures
        lexical::first_from(s, pat, i) == Some(p),
    decreases p - i,
{
    if i < p {
        assert(!text::occurs_at(s, pat, i));
        lemma_first_place(s, pat, i + 1, p);
    }
}

/// A text without a character has nothing to take off.
proof fn lemma_nothing_to_take_off(v: Seq<char>, c: char)
    requires
        forall|k: int| 0 <= k < v.len() ==> #[trigger] v[k] != c,
    ensures
        lexical::without_ends(v, c) == v,
{
    if v.len() > 0 {
        assert(v.first() == v[0]);
        assert(v.last() == v[v.len() - 1]);
    }
}

/// A column reads back from where it stands in a line.
pub proof fn column_reads_back(before: Seq<char>, col: LineColumn, rest: Seq<char>)
    requires
        col.wf(),
        rest.len() == 0 || rest[0] == ' ',
    ensures
        wal::pair_at(before + col.text() + rest, before.len() as int) == Some(
            (PairAt {
                name: col.name,
                value: col.value,
                end: (before.len() + col.text().len()) as int,
            }),
        ),
{
    if col.in_quotes {
        wal::pair_reads_back(before, col.name, col.sql_type, col.value, rest);
        let pair = col.name + seq!['['] + col.sql_type + seq![']', ':', '\''] + col.value + seq![
            '\'',
        ];
        assert(pair =~= col.text());
    } else {
        let s = before + col.text() + rest;
        let i = before.len() as int;
        let b = i + col.name.len();
        let c = b + 1 + col.sql_type.len();
        let v = c + 2;
        let end = v + col.value.len();
        reveal_strlit("]:");
        assert forall|k: int| i <= k < b implies s[k] != '[' && !lexical::whitespace(
            #[trigger] s[k],
        ) by {
            assert(s[k] == col.name[k - i]);
        }
        assert(s[b] == '[');
        lemma_bracket_found(s, i, b);
        assert(s.subrange(c, c + 2) =~= "]:"@);
        assert forall|j: int| b <= j < c implies !text::occurs_at(s, "]:"@, j) by {
            if text::occurs_at(s, "]:"@, j) {
                assert(s.subrange(j, j + 2)[0] == ']' && s.subrange(j, j + 2)[1] == ':');
                assert(s[j] == ']' && s[j + 1] == ':');
                if j > b {
                    assert(s[j] == col.sql_type[j - b - 1]);
                    if j + 1 < c {
                        assert(s[j + 1] == col.sql_type[j - b]);
                    }
                }
            }
        }
        lemma_first_place(s, "]:"@, b, c);
        assert forall|k: int| v <= k < end implies !lexical::whitespace(#[trigger] s[k]) by {
            assert(s[k] == col.value[k - v]);
        }
        if rest.len() > 0 {
            assert(s[end] == ' ');
        }
        lemma_word_ends(s, v, end);
        if v < s.len() {
            if col.value.len() > 0 {
                assert(s[v] == col.value[0]);
            } else {
                assert(s[v] == ' ');
            }
        }
        assert(s.subrange(i, b) =~= col.name);
        assert(s.subrange(v, end) =~= col.value);
        lemma_nothing_to_take_off(col.value, '\'');
    }
}

/// All columns of a line read back, in their order, with their names and
/// values.
pub proof fn line_reads_back(before: Seq<char>, cols: Seq<LineColumn>)
    requires
        forall|i: int| 0 <= i < cols.len() ==> (#[trigger] cols[i]).wf(),
    ensures
        wal::pairs_from(before + line_text(cols), before.len() as int) == Seq::new(
            cols.len(),
            |i: int| (cols[i].name, cols[i].value),
        ),
    decreases cols.len(),
{
    let s = before + line_text(cols);
    let i = before.len() as int;
    let all = Seq::new(cols.len(), |i: int| (cols[i].name, cols[i].value));
    if cols.len() == 0 {
        assert(all =~= Seq::empty());
        assert(wal::pairs_from(s, i) =~= Seq::empty());
    } else {
        let c = cols[0];
        let more = cols.drop_first();
        let rest = line_text(more);
        let head = before + seq![' '];
        assert(c.wf());
        assert(s =~= head + c.text() + rest);
        assert(s[i] == ' ');
        assert(lexical::whitespace(' '));
        if more.len() > 0 {
            assert(rest[0] == ' ');
        }
        column_reads_back(head, c, rest);
        assert(s[i + 1] == c.name[0]);
        assert(!lexical::whitespace(c.name[0]));
        let next = head + c.text();
        assert(s =~= next + rest);
        assert forall|k: int| 0 <= k < more.len() implies (#[trigger] more[k]).wf() by {
            assert(more[k] == cols[k + 1]);
        }
        line_reads_back(next, more);
        let tail = Seq::new(more.len(), |i: int| (more[i].name, more[i].value));
        assert(wal::pairs_from(s, next.len() as int) == tail);
        assert(wal::pairs_from(s, i + 1) == seq![(c.name, c.value)] + tail);
        assert(wal::pairs_from(s, i) == wal::pairs_from(s, i + 1));
        assert(all =~= seq![(c.name, c.value)] + tail);
    }
}

// ── What is written ────────────────────────────────────────────────────

/// Whether a text names a column in double quotes, and nothing else.
pub open spec fn names_column(t: Seq<char>, column: Seq<char>) -> bool {
    sql_builder::read_quoted(t, '"') == Some((column, Seq::<char>::empty()))
}

/// Doubling quotes goes by parts.
proof fn lemma_replaced_adds(a: Seq<char>, b: Seq<char>, c: char, with: Seq<char>)
    ensures
        text::replaced(a + b, c, with) == text::replaced(a, c, with) + text::replaced(b, c, with),
    decreases b.len(),
{
    if b.len() == 0 {
        assert(a + b =~= a);
        assert(text::replaced(a, c, with) + text::replaced(b, c, with) =~= text::replaced(
            a,
            c,
            with,
        ));
    } else {
        assert((a + b).drop_last() =~= a + b.drop_last());
        assert((a + b).last() == b.last());
        lemma_replaced_adds(a, b.drop_last(), c, with);
        assert(text::replaced(a + b, c, with) =~= text::replaced(a, c, with) + text::replaced(
            b,
            c,
            with,
        ));
    }
}

/// A text without a character has none to replace.
proof fn lemma_replaced_none(a: Seq<char>, c: char, with: Seq<char>)
    requires
        forall|k: int| 0 <= k < a.len() ==> #[trigger] a[k] != c,
    ensures
        text::replaced(a, c, with) == a,
    decreases a.len(),
{
    if a.len() > 0 {
        assert(a.last() == a[a.len() - 1]);
        lemma_replaced_none(a.drop_last(), c, with);
        assert(a.drop_last().push(a.last()) =~= a);
    }
}

/// A quoted column of a change buffer is named after a column and the record
/// that it is of.
proof fn lemma_buffer_column(prefix: Seq<char>, name: Seq<char>)
    requires
        forall|k: int| 0 <= k < prefix.len() ==> #[trigger] prefix[k] != '"',
    ensures
        names_column(seq!['"'] + prefix + cdc::doubled(name) + "\""@, prefix + name),
{
    reveal_strlit("\"");
    reveal_strlit("\"\"");
    let q = seq!['"', '"'];
    assert("\"\""@ =~= q);
    lemma_replaced_adds(prefix, name, '"', q);
    lemma_replaced_none(prefix, '"', q);
    sql_builder::ident_reads_back(prefix + name);
    assert(seq!['"'] + prefix + cdc::doubled(name) + "\""@ =~= sql_builder::ident_text(
        prefix + name,
    ));
}

/// An insert writes the new value of every column, a delete the old value of
/// every column, and an update both of every column, in the order of the
/// columns.
pub proof fn every_column_is_written(columns: Seq<Seq<char>>, i: int)
    requires
        0 <= i < columns.len(),
    ensures
        wal::written_columns('I', columns).len() == columns.len(),
        names_column(wal::written_columns('I', columns)[i], "new_"@ + columns[i]),
        wal::written_columns('D', columns).len() == columns.len(),
        names_column(wal::written_columns('D', columns)[i], "old_"@ + columns[i]),
        wal::written_columns('U', columns).len() == 2 * columns.len(),
        names_column(wal::written_columns('U', columns)[2 * i], "new_"@ + columns[i]),
        names_column(wal::written_columns('U', columns)[2 * i + 1], "old_"@ + columns[i]),
    decreases columns.len(),
{
    let rest = columns.drop_last();
    if i < rest.len() {
        every_column_is_written(rest, i);
        assert(rest[i] == columns[i]);
    } else {
        if rest.len() > 0 {
            every_column_is_written(rest, 0);
        }
        reveal_strlit("\"new_");
        reveal_strlit("\"old_");
        reveal_strlit("new_");
        reveal_strlit("old_");
        lemma_buffer_column("new_"@, columns[i]);
        lemma_buffer_column("old_"@, columns[i]);
        assert("\"new_"@ =~= seq!['"'] + "new_"@);
        assert("\"old_"@ =~= seq!['"'] + "old_"@);
    }
}

/// Each column is written with its own value: the value that the line gives
/// for it, as a literal that reads back, or none.  The old values of an update
/// are not known.
pub proof fn every_value_is_its_columns(
    columns: Seq<Seq<char>>,
    parsed: Seq<(Seq<char>, Seq<char>)>,
    i: int,
)
    requires
        0 <= i < columns.len(),
    ensures
        wal::written_values('I', columns, parsed)[i] == wal::value_text(parsed, columns[i]),
        wal::written_values('D', columns, parsed)[i] == wal::value_text(parsed, columns[i]),
        wal::written_values('U', columns, parsed)[2 * i] == wal::value_text(parsed, columns[i]),
        wal::written_values('U', columns, parsed)[2 * i + 1] == "NULL"@,
        wal::written_values('I', columns, parsed).len() == columns.len(),
        wal::written_values('D', columns, parsed).len() == columns.len(),
        wal::written_values('U', columns, parsed).len() == 2 * columns.len(),
    decreases columns.len(),
{
    reveal_with_fuel(wal::written_values, 2);
    let rest = columns.drop_last();
    if i < rest.len() {
        every_value_is_its_columns(rest, parsed, i);
        assert(rest[i] == columns[i]);
    } else if rest.len() > 0 {
        every_value_is_its_columns(rest, parsed, 0);
    }
}

/// The value of a column is the one that the line gives for it last, as a
/// literal that reads back; a column without a value has none.
pub proof fn values_read_back(
    parsed: Seq<(Seq<char>, Seq<char>)>,
    column: Seq<char>,
    value: Seq<char>,
    other: Seq<char>,
)
    ensures
        sql_builder::read_quoted(
            wal::value_text(parsed.push((column, value)), column),
            '\'',
        ) == Some((value, Seq::<char>::empty())),
        other != column ==> wal::value_text(parsed.push((column, value)), other)
            == wal::value_text(parsed, other),
        wal::value_text(Seq::empty(), column) == "NULL"@,
{
    text_map::entered_is_found(parsed, column, value, other);
    sql_builder::literal_reads_back(value);
}

/// A truncated table, and nothing else, has what reads it start anew.
pub proof fn only_truncation_starts_anew(
    oid: u32,
    lsn: Seq<char>,
    action: char,
    data: Seq<char>,
    schema: Seq<char>,
    pk: Seq<Seq<char>>,
    columns: Seq<Seq<char>>,
)
    ensures
        wal::decoded(oid, lsn, action, data, schema, pk, columns) is Reinitialize <==> action
            == 'T',
{
}

/// A change is written into the buffer of its table, with its position, its
/// action, the hash of its key where there is one, and each column with its
/// value: as many columns as values.
pub proof fn changes_are_written_whole(
    oid: u32,
    lsn: Seq<char>,
    action: char,
    data: Seq<char>,
    schema: Seq<char>,
    pk: Seq<Seq<char>>,
    columns: Seq<Seq<char>>,
)
    requires
        action != 'T',
    ensures
        ({
            let d = wal::decoded(oid, lsn, action, data, schema, pk, columns);
            exists|names: Seq<Seq<char>>, values: Seq<Seq<char>>| #[trigger]
                writes(d, cdc::buffer_name(schema, oid), names, values) && {
                    let n = if pk.len() > 0 {
                        3int
                    } else {
                        2int
                    };
                    &&& names.len() == values.len()
                    &&& names.len() == n + wal::written_columns(action, columns).len()
                    &&& names[0] == "lsn"@
                    &&& values[0] == "'"@ + lsn + "'::pg_lsn"@
                    &&& names[1] == "action"@
                    &&& values[1] == seq!['\'', action, '\'']
                    &&& pk.len() > 0 ==> names[2] == "pk_hash"@ && values[2] == wal::value_hash(
                        wal::columns_of(data),
                        pk,
                    )
                    &&& names.skip(n) == wal::written_columns(action, columns)
                    &&& values.skip(n) == wal::written_values(
                        action,
                        columns,
                        wal::columns_of(data),
                    )
                }
        }),
{
    let d = wal::decoded(oid, lsn, action, data, schema, pk, columns);
    let parsed = wal::columns_of(data);
    let a = seq!["lsn"@, "action"@];
    let b = seq!["'"@ + lsn + "'::pg_lsn"@, "'"@ + seq![action] + "'"@];
    let a2 = if pk.len() > 0 {
        a.push("pk_hash"@)
    } else {
        a
    };
    let b2 = if pk.len() > 0 {
        b.push(wal::value_hash(parsed, pk))
    } else {
        b
    };
    let names = a2 + wal::written_columns(action, columns);
    let values = b2 + wal::written_values(action, columns, parsed);
    wal::columns_have_values(action, columns, parsed);
    reveal_strlit("'");
    reveal_strlit("INSERT INTO ");
    reveal_strlit(".changes_");
    reveal_strlit(" (");
    reveal_strlit(") VALUES (");
    reveal_strlit(")");
    assert("'"@ + seq![action] + "'"@ =~= seq!['\'', action, '\'']);
    assert(names.skip(a2.len() as int) =~= wal::written_columns(action, columns));
    assert(values.skip(b2.len() as int) =~= wal::written_values(action, columns, parsed));
    let t = "INSERT INTO "@ + cdc::buffer_name(schema, oid) + " ("@ + text::join(names, ", "@)
        + ") VALUES ("@ + text::join(values, ", "@) + ")"@;
    assert(d->Insert_0 =~= t);
    assert(writes(d, cdc::buffer_name(schema, oid), names, values));
}

/// Whether a change is an insert of values into columns of a table.
pub open spec fn writes(
    d: DecodedView,
    table: Seq<char>,
    names: Seq<Seq<char>>,
    values: Seq<Seq<char>>,
) -> bool {
    d == DecodedView::Insert(
        "INSERT INTO "@ + table + " ("@ + text::join(names, ", "@) + ") VALUES ("@ + text::join(
            values,
            ", "@,
        ) + ")"@,
    )
}

// ── Both ways of capture ───────────────────────────────────────────────

/// Texts, each after a comma.
pub open spec fn after_commas(parts: Seq<Seq<char>>) -> Seq<char>
    decreases parts.len(),
{
    if parts.len() == 0 {
        Seq::empty()
    } else {
        after_commas(parts.drop_last()) + ", "@ + parts.last()
    }
}

/// Joining without a separator goes by parts.
proof fn lemma_join_plain(parts: Seq<Seq<char>>)
    requires
        parts.len() > 0,
    ensures
        text::join(parts, ""@) == text::join(parts.drop_last(), ""@) + parts.last(),
{
    reveal_strlit("");
    let head = text::join(parts.drop_last(), ""@);
    if parts.len() == 1 {
        assert(parts.drop_last() =~= Seq::empty());
        assert(head =~= Seq::empty());
        assert(head + parts.last() =~= parts[0]);
    } else {
        assert(head + ""@ + parts.last() =~= head + parts.last());
    }
}

/// Triggers and decoding write inserts and deletes into the same columns of a
/// change buffer.
pub proof fn both_ways_write_the_same_columns(columns: Seq<Seq<char>>)
    ensures
        text::join(cdc::each(", \"new_"@, columns, "\""@), ""@) == after_commas(
            wal::written_columns('I', columns),
        ),
        text::join(cdc::each(", \"old_"@, columns, "\""@), ""@) == after_commas(
            wal::written_columns('D', columns),
        ),
    decreases columns.len(),
{
    let new = cdc::each(", \"new_"@, columns, "\""@);
    let old = cdc::each(", \"old_"@, columns, "\""@);
    if columns.len() == 0 {
        assert(new =~= Seq::empty());
        assert(old =~= Seq::empty());
    } else {
        let rest = columns.drop_last();
        both_ways_write_the_same_columns(rest);
        assert(new.drop_last() =~= cdc::each(", \"new_"@, rest, "\""@));
        assert(old.drop_last() =~= cdc::each(", \"old_"@, rest, "\""@));
        lemma_join_plain(new);
        lemma_join_plain(old);
        reveal_strlit(", \"new_");
        reveal_strlit(", \"old_");
        reveal_strlit("\"new_");
        reveal_strlit("\"old_");
        reveal_strlit(", ");
        assert(", \"new_"@ =~= ", "@ + "\"new_"@);
        assert(", \"old_"@ =~= ", "@ + "\"old_"@);
        let wi = wal::written_columns('I', columns);
        let wd = wal::written_columns('D', columns);
        assert(wi.drop_last() =~= wal::written_columns('I', rest));
        assert(wd.drop_last() =~= wal::written_columns('D', rest));
        assert(new.last() =~= ", "@ + wi.last());
        assert(old.last() =~= ", "@ + wd.last());
        assert(text::join(new, ""@) =~= after_commas(wi));
        assert(text::join(old, ""@) =~= after_commas(wd));
    }
}

/// Triggers and decoding hash keys by the same functions: that of one value
/// for a key of one column, that of several in the order of the key for a key
/// of more.  Without a key the hash is zero.
pub proof fn both_ways_hash_keys_alike(
    record: Seq<char>,
    parsed: Seq<(Seq<char>, Seq<char>)>,
    pk: Seq<Seq<char>>,
    i: int,
)
    requires
        0 <= i < pk.len(),
    ensures
        cdc::key_hash(record, Seq::empty()) == "0"@,
        wal::value_hash(parsed, Seq::empty()) == "0"@,
        ({
            let taken = Seq::new(
                pk.len(),
                |k: int| record + ".\""@ + cdc::doubled(pk[k]) + "\"::text"@,
            );
            let given = Seq::new(pk.len(), |k: int| wal::value_text(parsed, pk[k]));
            &&& pk.len() == 1 && text_map::latest(parsed, pk[0]) is Some ==> cdc::key_hash(
                record,
                pk,
            ) == cdc::hash_one_sql(taken[0]) && wal::value_hash(parsed, pk) == cdc::hash_one_sql(
                given[0],
            )
            &&& pk.len() == 1 && text_map::latest(parsed, pk[0]) is None ==> wal::value_hash(
                parsed,
                pk,
            ) == "0"@
            &&& pk.len() > 1 ==> cdc::key_hash(record, pk) == cdc::hash_many_sql(
                text::join(taken, ", "@),
            ) && wal::value_hash(parsed, pk) == cdc::hash_many_sql(text::join(given, ", "@))
        }),
{
    let taken = Seq::new(pk.len(), |k: int| record + ".\""@ + cdc::doubled(pk[k]) + "\"::text"@);
    let given = Seq::new(pk.len(), |k: int| wal::value_text(parsed, pk[k]));
    assert(cdc::each(record + ".\""@, pk, "\"::text"@) =~= taken);
    assert(wal::value_texts(parsed, pk) =~= given);
}

/// A change buffer lacks, for each column of its table, the column for new
/// values unless it has it, and the column for old values unless it has it,
/// and nothing else.
pub proof fn exactly_the_missing_columns_are_added(
    existing: Seq<Seq<char>>,
    table: Seq<char>,
    columns: Seq<(String, String)>,
    name: Seq<char>,
)
    ensures
        lacks(existing, table, columns, name) <==> !existing.contains(name) && exists|i: int|
            0 <= i < columns.len() && (name == "new_"@ + (#[trigger] columns[i]).0@ || name
                == "old_"@ + columns[i].0@),
    decreases columns.len(),
{
    let all = cdc::missing_columns(existing, table, columns);
    if columns.len() > 0 {
        let rest = columns.drop_last();
        let n = rest.len() as int;
        exactly_the_missing_columns_are_added(existing, table, rest, name);
        let before = cdc::missing_columns(existing, table, rest);
        let (c, t) = columns.last();
        let mid = cdc::with_missing(before, existing, table, "new_"@ + c@, t@);
        assert(all == cdc::with_missing(mid, existing, table, "old_"@ + c@, t@));
        assert forall|k: int| 0 <= k < before.len() implies all[k] == #[trigger] before[k] by {
            assert(mid[k] == before[k]);
        }
        if lacks(existing, table, rest, name) {
            let k = choose|k: int| 0 <= k < before.len() && (#[trigger] before[k]).column == name;
            assert(all[k].column == name);
            let i = choose|i: int|
                0 <= i < rest.len() && (name == "new_"@ + (#[trigger] rest[i]).0@ || name == "old_"@
                    + rest[i].0@);
            assert(columns[i] == rest[i]);
        }
        if !existing.contains(name) && name == "new_"@ + c@ {
            assert(mid[before.len() as int].column == name);
            assert(all[before.len() as int].column == name);
            assert(columns[n].0@ == c@);
        }
        if !existing.contains(name) && name == "old_"@ + c@ {
            assert(all[mid.len() as int].column == name);
            assert(columns[n].0@ == c@);
        }
        if !existing.contains(name) && exists|i: int|
            0 <= i < columns.len() && (name == "new_"@ + (#[trigger] columns[i]).0@ || name
                == "old_"@ + columns[i].0@) {
            let i = choose|i: int|
                0 <= i < columns.len() && (name == "new_"@ + (#[trigger] columns[i]).0@ || name
                    == "old_"@ + columns[i].0@);
            if i < n {
                assert(rest[i] == columns[i]);
                assert(lacks(existing, table, rest, name));
            } else {
                assert(columns[i] == columns.last());
            }
        }
        if lacks(existing, table, columns, name) {
            let k = choose|k: int| 0 <= k < all.len() && (#[trigger] all[k]).column == name;
            if k < before.len() {
                assert(before[k].column == name);
                assert(lacks(existing, table, rest, name));
                let i = choose|i: int|
                    0 <= i < rest.len() && (name == "new_"@ + (#[trigger] rest[i]).0@ || name
                        == "old_"@ + rest[i].0@);
                assert(columns[i] == rest[i]);
            } else {
                assert(columns[n] == columns.last());
                if k < mid.len() {
                    assert(all[k] == mid[k]);
                }
            }
        }
    }
}

/// Whether a change buffer lacks a column.
pub open spec fn lacks(
    existing: Seq<Seq<char>>,
    table: Seq<char>,
    columns: Seq<(String, String)>,
    name: Seq<char>,
) -> bool {
    exists|k: int|
        0 <= k < cdc::missing_columns(existing, table, columns).len() && (
        #[trigger] cdc::missing_columns(existing, table, columns)[k]).column == name
}

// ── Scheduling ─────────────────────────────────────────────────────────

/// A source on triggers is only asked whether decoding can start; one in
/// transition is polled and asked whether it has caught up; one on decoding is
/// polled and asked whether it is well.  So changes are taken from every source
/// that has a slot, and from no other.
pub proof fn each_mode_has_its_action(a: CdcMode, b: CdcMode)
    ensures
        wal::action_for(a) == SourceAction::TryStart <==> a == CdcMode::Trigger,
        wal::action_for(a) == SourceAction::PollAndCheck <==> a == CdcMode::Transitioning,
        wal::action_for(a) == SourceAction::PollAndCheckHealth <==> a == CdcMode::Wal,
        wal::action_for(a) == wal::action_for(b) ==> a == b,
{
}

/// What is done for a table is what the mode of the first dependency on it
/// calls for.
pub proof fn plans_follow_the_mode(deps: Seq<DtDependency>, n: nat, a: int)
    requires
        n <= deps.len() <= usize::MAX,
        0 <= a < wal::planned(deps, n).len(),
    ensures
        ({
            let (i, action) = wal::planned(deps, n)[a];
            &&& i < n
            &&& action == wal::action_for(deps[i as int].cdc_mode)
            &&& forall|j: int|
                0 <= j < i && (#[trigger] deps[j]).source_type@ == "TABLE"@
                    ==> deps[j].source_relid != deps[i as int].source_relid
        }),
    decreases n,
{
    let m = (n - 1) as nat;
    let before = wal::planned(deps, m);
    if a < before.len() {
        plans_follow_the_mode(deps, m, a);
        assert(wal::planned(deps, n)[a] == before[a]);
    } else {
        assert forall|j: int|
            0 <= j < m && (#[trigger] deps[j]).source_type@ == "TABLE"@ implies deps[j].source_relid
            != deps[m as int].source_relid by {
            assert(wal::on_table(deps[j]));
        }
    }
}

} // verus!
