//! What holds of the pieces that delta queries are made of: intervals of the
//! log, names of columns, and the hashes that identify rows.

use vstd::prelude::*;

use crate::dvm::diff;
use crate::dvm::diff::{Delta, DiffEnv, DiffState};
use crate::dvm::expr_laws::names_column;
use crate::dvm::operators::scan;
use crate::dvm::parser;
use crate::dvm::parser::Column;
use crate::lexical;
use crate::sql_builder;
use crate::text;

verus! {

// ── Intervals ──────────────────────────────────────────────────────────

/// A source has the position that was recorded for it last; the others keep
/// theirs, and a source without one is at the start of the log.
pub proof fn recorded_positions_are_found(
    positions: Seq<(u32, String)>,
    oid: u32,
    lsn: String,
    other: u32,
)
    ensures
        diff::latest_lsn(positions.push((oid, lsn)), oid) == lsn@,
        other != oid ==> diff::latest_lsn(positions.push((oid, lsn)), other) == diff::latest_lsn(
            positions,
            other,
        ),
        diff::latest_lsn(Seq::empty(), oid) == "0/0"@,
{
    assert(positions.push((oid, lsn)).drop_last() =~= positions);
}

/// The interval of a source goes from its position at the last refresh to its
/// position at this one.  With placeholders it is told by marks of the source,
/// which are different for different sources and for the two ends.
pub proof fn intervals_go_between_the_frontiers(env: DiffEnv, a: u32, b: u32)
    ensures
        !env.use_placeholders ==> env.prev_lsn(a) == env.prev_frontier.lsn(a) && env.new_lsn(a)
            == env.new_frontier.lsn(a),
        env.use_placeholders ==> env.prev_lsn(a) != env.new_lsn(b),
        env.use_placeholders && a != b ==> env.prev_lsn(a) != env.prev_lsn(b) && env.new_lsn(a)
            != env.new_lsn(b),
{
    if env.use_placeholders {
        reveal_strlit("__PGS_PREV_LSN_");
        reveal_strlit("__PGS_NEW_LSN_");
        reveal_strlit("__");
        assert(env.prev_lsn(a)[6] == 'P');
        assert(env.new_lsn(b)[6] == 'N');
        if a != b {
            lemma_marks_differ("__PGS_PREV_LSN_"@, a, b);
            lemma_marks_differ("__PGS_NEW_LSN_"@, a, b);
        }
    }
}

/// Marks of different sources differ.
proof fn lemma_marks_differ(prefix: Seq<char>, a: u32, b: u32)
    requires
        a != b,
    ensures
        prefix + text::decimal(a as nat) + "__"@ != prefix + text::decimal(b as nat) + "__"@,
{
    let da = text::decimal(a as nat);
    let db = text::decimal(b as nat);
    let x = prefix + da + "__"@;
    let y = prefix + db + "__"@;
    if x == y {
        assert(x.len() == prefix.len() + da.len() + "__"@.len());
        assert(y.len() == prefix.len() + db.len() + "__"@.len());
        assert(da.len() == db.len());
        let n = prefix.len() as int;
        assert(x.subrange(n, n + da.len()) =~= da);
        assert(y.subrange(n, n + db.len()) =~= db);
        lexical::decimal_is_injective(a as nat, b as nat);
    }
}

/// A change is of the interval if and only if it is after its start and not
/// after its end.
pub proof fn changes_are_taken_from_the_interval(prev: Seq<char>, new: Seq<char>)
    ensures
        ({
            let t = scan::lsn_filter_sql(prev, new);
            &&& text::begins(t, "c.lsn > '"@ + prev + "'::pg_lsn AND "@)
            &&& text::ends(t, "c.lsn <= '"@ + new + "'::pg_lsn"@)
        }),
{
    reveal_strlit("'::pg_lsn AND c.lsn <= '");
    reveal_strlit("'::pg_lsn AND ");
    reveal_strlit("c.lsn <= '");
    let t = scan::lsn_filter_sql(prev, new);
    let a = "c.lsn > '"@ + prev + "'::pg_lsn AND "@;
    let b = "c.lsn <= '"@ + new + "'::pg_lsn"@;
    assert(t =~= a + b);
    crate::text_laws::parts_of_a_text_occur_in_it(a, b, Seq::empty());
}

/// The buffers of different sources have different names.
pub proof fn change_tables_differ(env: DiffEnv, a: u32, b: u32)
    requires
        env.change_table(a) == env.change_table(b),
    ensures
        a == b,
{
    reveal_strlit(".changes_");
    let x = sql_builder::ident_text(env.change_buffer_schema@) + ".changes_"@;
    assert(x.last() == '_');
    lexical::last_number_is_read(x, x, a as nat, b as nat);
}

// ── The chain ──────────────────────────────────────────────────────────

/// A step adds one expression at the end, under a name that is given out for
/// it, and leaves the rest as it is.
pub proof fn steps_add_one_expression(st: DiffState, prefix: Seq<char>, sql: Seq<char>)
    ensures
        st.step(prefix, sql).ctes.len() == st.ctes.len() + 1,
        st.step(prefix, sql).ctes.drop_last() == st.ctes,
        st.step(prefix, sql).ctes.last().sql == sql,
        st.step(prefix, sql).ctes.last().name == st.fresh(prefix),
        st.step(prefix, sql).deltas == st.deltas,
        st.step(prefix, sql).inside_semijoin == st.inside_semijoin,
        st.counter < u64::MAX ==> st.step(prefix, sql).counter == st.counter + 1,
{
    assert(st.step(prefix, sql).ctes.drop_last() =~= st.ctes);
}

/// A delta that was recorded is found, and the others stay as they were.
pub proof fn recorded_deltas_are_found(
    deltas: Seq<(usize, Delta)>,
    id: usize,
    d: Delta,
    other: usize,
)
    ensures
        diff::recorded(deltas.push((id, d)), id) == Some(d),
        other != id ==> diff::recorded(deltas.push((id, d)), other) == diff::recorded(
            deltas,
            other,
        ),
        diff::recorded(Seq::empty(), id) is None,
{
    assert(deltas.push((id, d)).drop_last() =~= deltas);
}

// ── Columns ────────────────────────────────────────────────────────────

/// A column without the count of aggregates stays, in its place, and the count
/// goes.
pub proof fn only_the_count_is_left_out(a: Seq<Seq<char>>, b: Seq<Seq<char>>, col: Seq<char>)
    ensures
        diff::user_columns(a + b) == diff::user_columns(a) + diff::user_columns(b),
        diff::user_columns(seq![col]) == if col == "__pgt_count"@ {
            Seq::<Seq<char>>::empty()
        } else {
            seq![col]
        },
    decreases b.len(),
{
    let one = seq![col];
    assert(one.drop_last() =~= Seq::empty());
    assert(one.last() == col);
    assert(diff::user_columns(one.drop_last()) =~= Seq::empty());
    assert(diff::user_columns(one) =~= if col == "__pgt_count"@ {
        Seq::<Seq<char>>::empty()
    } else {
        seq![col]
    });
    let left = diff::user_columns(a);
    if b.len() == 0 {
        assert(a + b =~= a);
        assert(left + diff::user_columns(b) =~= left);
    } else {
        assert((a + b).drop_last() =~= a + b.drop_last());
        assert((a + b).last() == b.last());
        only_the_count_is_left_out(a, b.drop_last(), col);
        assert(diff::user_columns(a + b) =~= left + diff::user_columns(b));
    }
}

/// Each column is written for itself, in the order of the columns: quoted
/// where it is read, and under the name that a join gives it where it comes
/// out.  A missing side has a null under each of its names.
pub proof fn each_column_is_written(
    before: Seq<char>,
    cols: Seq<Seq<char>>,
    after: Seq<char>,
    side: Seq<char>,
    i: int,
)
    requires
        0 <= i < cols.len(),
    ensures
        diff::wrapped(before, cols, after).len() == cols.len(),
        diff::renamed(before, cols, side).len() == cols.len(),
        diff::nulls(cols, side).len() == cols.len(),
        diff::side_names(side, cols).len() == cols.len(),
        exists|q: Seq<char>| #[trigger]
            names_column(q, cols[i]) && diff::wrapped(before, cols, after)[i] == before + q + after,
        exists|q: Seq<char>, r: Seq<char>|
            #![trigger names_column(q, cols[i]), names_column(r, diff::side_names(side, cols)[i])]
            names_column(q, cols[i]) && names_column(r, diff::side_names(side, cols)[i])
                && diff::renamed(before, cols, side)[i] == before + q + " AS "@ + r
                && diff::nulls(cols, side)[i] == "NULL AS "@ + r,
        diff::side_names(side, cols)[i] == side + "__"@ + cols[i],
{
    let q = sql_builder::ident_text(cols[i]);
    let r = sql_builder::ident_text(side + "__"@ + cols[i]);
    sql_builder::ident_reads_back(cols[i]);
    sql_builder::ident_reads_back(side + "__"@ + cols[i]);
    assert(names_column(q, cols[i]));
    assert(names_column(r, diff::side_names(side, cols)[i]));
}

/// Rows are compared column by column, each with itself on the other side.
pub proof fn columns_are_compared_with_themselves(
    a: Seq<char>,
    b: Seq<char>,
    cols: Seq<Seq<char>>,
    i: int,
)
    requires
        0 <= i < cols.len(),
    ensures
        diff::equalities(a, b, cols).len() == cols.len(),
        exists|q: Seq<char>| #[trigger]
            names_column(q, cols[i]) && diff::equalities(a, b, cols)[i] == a + q + " = "@ + b + q,
{
    sql_builder::ident_reads_back(cols[i]);
    assert(names_column(sql_builder::ident_text(cols[i]), cols[i]));
}

// ── Row identifiers ────────────────────────────────────────────────────

/// A row is identified by its primary key where the table has one, in the
/// order of the key, and by all of its columns where it has none.
pub proof fn rows_are_identified_by_their_key(pk: Seq<String>, columns: Seq<Column>)
    ensures
        pk.len() > 0 ==> scan::key_columns(pk, columns) == text::texts(pk),
        pk.len() == 0 ==> scan::key_columns(pk, columns) == parser::column_names(columns),
        columns.len() > 0 ==> scan::key_columns(pk, columns).len() > 0,
{
}

/// A hash of one expression is a call of the function on it; a hash of more is
/// a call on an array that has each of them, in order, cast to text as a whole.
pub proof fn hashes_take_every_expression(function: Seq<char>, exprs: Seq<Seq<char>>, i: int)
    requires
        0 <= i < exprs.len(),
    ensures
        text::begins(scan::hash_call(function, exprs), function),
        exprs.len() == 1 ==> scan::hash_call(function, exprs) == function + "("@ + exprs[0] + ")"@,
        exprs.len() > 1 ==> scan::casts(exprs).len() == exprs.len() && scan::casts(exprs)[i]
            == "("@ + exprs[i] + ")::TEXT"@ && scan::hash_call(function, exprs) == function
            + "_multi(ARRAY["@ + text::join(scan::casts(exprs), ", "@) + "])"@,
{
    let t = scan::hash_call(function, exprs);
    assert(t.subrange(0, function.len() as int) =~= function);
}

/// The hash of the key before a change takes the old value of every key
/// column, in the order of the key.
pub proof fn old_hashes_take_old_values(keys: Seq<Seq<char>>)
    requires
        keys.len() > 0,
    ensures
        ({
            let old = Seq::new(
                keys.len(),
                |i: int| "c."@ + sql_builder::ident_text("old_"@ + keys[i]) + "::TEXT"@,
            );
            &&& keys.len() == 1 ==> scan::old_key_hash(keys) == "pgtrickle.pg_trickle_hash("@
                + old[0] + ")"@
            &&& keys.len() > 1 ==> scan::old_key_hash(keys)
                == "pgtrickle.pg_trickle_hash_multi(ARRAY["@ + text::join(old, ", "@) + "])"@
        }),
{
    let old = Seq::new(
        keys.len(),
        |i: int| "c."@ + sql_builder::ident_text("old_"@ + keys[i]) + "::TEXT"@,
    );
    let args = Seq::new(keys.len(), |i: int| scan::buffer_col("old_"@, keys[i]) + "::TEXT"@);
    assert(args =~= old);
}

/// The buffer is read for the new and the old value of every column; the
/// delta has, for an insert, the new and, for a delete, the old value of every
/// column under its own name.
pub proof fn every_value_of_the_buffer_is_read(
    prefix: Seq<char>,
    cols: Seq<Seq<char>>,
    i: int,
)
    requires
        0 <= i < cols.len(),
    ensures
        scan::value_refs(cols).len() == 2 * cols.len(),
        scan::value_refs(cols)[2 * i] == scan::buffer_col("new_"@, cols[i]),
        scan::value_refs(cols)[2 * i + 1] == scan::buffer_col("old_"@, cols[i]),
        scan::value_cols(prefix, cols).len() == cols.len(),
        exists|q: Seq<char>, r: Seq<char>|
            #![trigger names_column(q, prefix + cols[i]), names_column(r, cols[i])]
            names_column(q, prefix + cols[i]) && names_column(r, cols[i]) && scan::value_cols(
                prefix,
                cols,
            )[i] == "c."@ + q + " AS "@ + r,
    decreases cols.len(),
{
    reveal_with_fuel(scan::value_refs, 2);
    let rest = cols.drop_last();
    if i < rest.len() {
        every_value_of_the_buffer_is_read(prefix, rest, i);
        assert(rest[i] == cols[i]);
    } else if rest.len() > 0 {
        every_value_of_the_buffer_is_read(prefix, rest, 0);
    }
    let q = sql_builder::ident_text(prefix + cols[i]);
    let r = sql_builder::ident_text(cols[i]);
    sql_builder::ident_reads_back(prefix + cols[i]);
    sql_builder::ident_reads_back(cols[i]);
    assert(names_column(q, prefix + cols[i]) && names_column(r, cols[i]));
}

/// A list of columns has each of them, quoted, in its place.
pub proof fn column_lists_have_every_column(cols: Seq<Seq<char>>, i: int)
    requires
        0 <= i < cols.len(),
    ensures
        text::occurs(diff::cols_text(cols), sql_builder::ident_text(cols[i])),
        sql_builder::ident_texts(cols).len() == cols.len(),
        sql_builder::ident_texts(cols)[i] == sql_builder::ident_text(cols[i]),
{
    crate::dvm::operator_laws::joined_parts_occur(sql_builder::ident_texts(cols), ", "@, i);
}

} // verus!
