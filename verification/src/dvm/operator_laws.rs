//! What holds of the operators one by one: which keys they filter by, which
//! rows they compare, and under which names their columns come out.

use vstd::prelude::*;

use crate::dvm::chain_laws;
use crate::dvm::diff;
use crate::dvm::diff::{Delta, DiffEnv, DiffState};
use crate::dvm::expr_laws::names_column;
use crate::dvm::operators::cte_scan;
use crate::dvm::operators::join;
use crate::dvm::operators::join_common;
use crate::dvm::operators::join_common::{KeyTexts, StatusPart};
use crate::dvm::operators::scalar_subquery;
use crate::dvm::operators::scan;
use crate::dvm::operators::semi_join;
use crate::dvm::operators::window;
use crate::dvm::parser;
use crate::dvm::parser::{Column, ExprView, OpTree, WindowExpr};
use crate::sql_builder;
use crate::text;
use crate::text_laws;

verus! {

// ── Joins ──────────────────────────────────────────────────────────────

/// A join filters by the keys of its condition where both of its inputs are
/// plain tables, and by none elsewhere.
pub proof fn only_plain_tables_are_filtered_by_keys(
    condition: ExprView,
    left: OpTree,
    right: OpTree,
)
    ensures
        join_common::simple_child(left) && join_common::simple_child(right) ==> join::filter_keys(
            condition,
            left,
            right,
        ) == join::equi_keys(condition),
        !join_common::simple_child(left) || !join_common::simple_child(right) ==> join::filter_keys(
            condition,
            left,
            right,
        ).len() == 0,
{
}

/// A table without keys is read as it is; with keys, through a filter for each
/// of them.
pub proof fn tables_without_keys_are_read_whole(
    base: Seq<char>,
    keys: KeyTexts,
    delta: Seq<char>,
    side: join::JoinSide,
    i: int,
)
    ensures
        keys.len() == 0 ==> join::semijoin_subquery(base, keys, delta, side) == base,
        0 <= i < keys.len() ==> text::occurs(
            join::semijoin_subquery(base, keys, delta, side),
            join::key_filters(keys, delta, side)[i],
        ),
        keys.len() > 0 ==> text::occurs(join::semijoin_subquery(base, keys, delta, side), base),
{
    if keys.len() > 0 {
        let filters = text::join(join::key_filters(keys, delta, side), " AND "@);
        let a = "(SELECT * FROM "@;
        let b = " WHERE "@;
        let t = join::semijoin_subquery(base, keys, delta, side);
        text_laws::parts_of_a_text_occur_in_it(a, base, b + filters + ")"@);
        assert(t =~= a + base + (b + filters + ")"@));
        if 0 <= i < keys.len() {
            joined_parts_occur(join::key_filters(keys, delta, side), " AND "@, i);
            text_laws::parts_of_a_text_occur_in_it(a + base + b, filters, ")"@);
            occurs_within(
                t,
                filters,
                join::key_filters(keys, delta, side)[i],
            );
        }
    }
}

/// What occurs in a part of a text occurs in the text.
pub proof fn occurs_within(t: Seq<char>, part: Seq<char>, f: Seq<char>)
    requires
        text::occurs(t, part),
        text::occurs(part, f),
    ensures
        text::occurs(t, f),
{
    let i = choose|i: int| #[trigger] text::occurs_at(t, part, i);
    let j = choose|j: int| #[trigger] text::occurs_at(part, f, j);
    assert(t.subrange(i + j, i + j + f.len()) =~= t.subrange(i, i + part.len()).subrange(
        j,
        j + f.len(),
    ));
    assert(text::occurs_at(t, f, i + j));
}

/// Each of the parts that are joined occurs in the whole.
pub proof fn joined_parts_occur(parts: Seq<Seq<char>>, sep: Seq<char>, i: int)
    requires
        0 <= i < parts.len(),
    ensures
        text::occurs(text::join(parts, sep), parts[i]),
    decreases parts.len(),
{
    let whole = text::join(parts, sep);
    if parts.len() == 1 {
        assert(whole.subrange(0, whole.len() as int) =~= parts[0]);
        assert(text::occurs_at(whole, parts[0], 0));
    } else {
        let head = text::join(parts.drop_last(), sep);
        if i == parts.len() - 1 {
            text_laws::lemma_occurs_here(head + sep, parts.last());
            assert(text::occurs_at(whole, parts[i], (head + sep).len() as int));
        } else {
            joined_parts_occur(parts.drop_last(), sep, i);
            assert(parts.drop_last()[i] == parts[i]);
            let k = choose|k: int| #[trigger] text::occurs_at(head, parts[i], k);
            text_laws::lemma_occurs_longer(head, parts[i], k, sep);
            text_laws::lemma_occurs_longer(head + sep, parts[i], k, parts.last());
        }
    }
}

/// The left rows of an inner join that meet the right changes are those before
/// the changes, where the left input is a plain table: so a pair that changed
/// on both sides is counted once.
pub proof fn right_changes_meet_the_left_rows_before(
    left: OpTree,
    l: Delta,
    r: Delta,
    keys: KeyTexts,
    i: int,
)
    requires
        join_common::simple_child(left),
    ensures
        ({
            let before = join::before_changes_sql(
                diff::cols_text(l.columns),
                join_common::snapshot_sql(left),
                sql_builder::ident_text(left.spec_alias()),
                l.cte_name,
            );
            &&& text::occurs(join::left_source(left, l, r, keys), before)
            &&& keys.len() == 0 ==> join::left_source(left, l, r, keys) == before
            &&& 0 <= i < keys.len() ==> text::occurs(
                join::left_source(left, l, r, keys),
                join::key_filters(keys, r.cte_name, join::JoinSide::Left)[i],
            )
        }),
{
    let before = join::before_changes_sql(
        diff::cols_text(l.columns),
        join_common::snapshot_sql(left),
        sql_builder::ident_text(left.spec_alias()),
        l.cte_name,
    );
    let t = join::left_source(left, l, r, keys);
    if keys.len() == 0 {
        assert(before.subrange(0, before.len() as int) =~= before);
        assert(text::occurs_at(t, before, 0));
    } else {
        lemma_filtered_before(before, join::key_filters(keys, r.cte_name, join::JoinSide::Left), i);
    }
}

/// Rows before the changes with filters hold both.
proof fn lemma_filtered_before(before: Seq<char>, filters: Seq<Seq<char>>, i: int)
    requires
        filters.len() > 0,
    ensures
        ({
            let t = join::filtered_before_sql(before, text::join(filters, " AND "@));
            &&& text::occurs(t, before)
            &&& 0 <= i < filters.len() ==> text::occurs(t, filters[i])
        }),
{
    let inner = text::join(filters, " AND "@);
    let t = join::filtered_before_sql(before, inner);
    let a = "(SELECT * FROM "@;
    let b = " __l0 WHERE "@;
    text_laws::parts_of_a_text_occur_in_it(a, before, b + inner + ")"@);
    assert(t =~= a + before + (b + inner + ")"@));
    text_laws::parts_of_a_text_occur_in_it(a + before + b, inner, ")"@);
    if 0 <= i < filters.len() {
        joined_parts_occur(filters, " AND "@, i);
        occurs_within(t, inner, filters[i]);
    }
}

/// The columns of a join are those of the left and then those of the right,
/// each named after its side.
pub proof fn joined_columns_are_named_after_their_side(
    left: OpTree,
    right: OpTree,
    l: Delta,
    r: Delta,
    i: int,
)
    ensures
        join::joined_columns(left, right, l, r).len() == l.columns.len() + r.columns.len(),
        0 <= i < l.columns.len() ==> join::joined_columns(left, right, l, r)[i]
            == left.spec_alias() + "__"@ + l.columns[i],
        0 <= i < r.columns.len() ==> join::joined_columns(left, right, l, r)[l.columns.len() + i]
            == right.spec_alias() + "__"@ + r.columns[i],
{
}

/// A row of a table is identified by its columns that cannot be null, in their
/// order, and by all columns where each can be.
pub proof fn rows_are_identified_by_what_cannot_be_null(
    a: Seq<Column>,
    b: Seq<Column>,
    c: Column,
)
    ensures
        join_common::not_null_names(a + b) == join_common::not_null_names(a)
            + join_common::not_null_names(b),
        join_common::not_null_names(seq![c]) == if c.is_nullable {
            Seq::<Seq<char>>::empty()
        } else {
            seq![c.name@]
        },
    decreases b.len(),
{
    let one = seq![c];
    assert(one.drop_last() =~= Seq::empty());
    assert(join_common::not_null_names(one.drop_last()) =~= Seq::empty());
    assert(join_common::not_null_names(one) =~= if c.is_nullable {
        Seq::<Seq<char>>::empty()
    } else {
        seq![c.name@]
    });
    let left = join_common::not_null_names(a);
    if b.len() == 0 {
        assert(a + b =~= a);
        assert(left + join_common::not_null_names(b) =~= left);
    } else {
        assert((a + b).drop_last() =~= a + b.drop_last());
        assert((a + b).last() == b.last());
        rows_are_identified_by_what_cannot_be_null(a, b.drop_last(), c);
        assert(join_common::not_null_names(a + b) =~= left + join_common::not_null_names(b));
    }
}

/// The identifier of a joined row takes each identifying column of a plain
/// table, and the whole row of anything else.
pub proof fn identifiers_take_every_key_column(op: OpTree, alias: Seq<char>, i: int)
    ensures
        !(op is Scan) ==> join_common::base_keys(op, alias) == seq![
            "row_to_json("@ + alias + ")::text"@,
        ],
        op matches OpTree::Scan { columns, .. } ==> {
            let keys = join_common::not_null_names(columns@);
            let names = if keys.len() == 0 {
                parser::column_names(columns@)
            } else {
                keys
            };
            &&& join_common::base_keys(op, alias).len() == names.len()
            &&& 0 <= i < names.len() ==> join_common::base_keys(op, alias)[i] == alias + "."@
                + sql_builder::ident_text(names[i]) + "::TEXT"@
        },
{
}

// ── Current rows ───────────────────────────────────────────────────────

/// The current rows of an operator: a table by its qualified name; a filtered
/// table by its rows that satisfy the filter; projections and subqueries by
/// those of their input; a join by those of both of its inputs, by its
/// condition and of its kind.
pub proof fn current_rows_follow_from_inputs(op: OpTree)
    ensures
        op matches OpTree::Scan { schema, table_name, .. } ==> sql_builder::read_quoted(
            join_common::snapshot_sql(op),
            '"',
        ) == Some((schema@, "."@ + sql_builder::ident_text(table_name@))),
        op matches OpTree::Project { child, .. } ==> join_common::snapshot_sql(op)
            == join_common::snapshot_sql(*child),
        op matches OpTree::Subquery { child, .. } ==> join_common::snapshot_sql(op)
            == join_common::snapshot_sql(*child),
        op matches OpTree::Filter { predicate, child } ==> {
            &&& *child is Scan ==> text::ends(
                join_common::snapshot_sql(op),
                " WHERE "@ + predicate@.sql() + ")"@,
            ) && text::occurs(join_common::snapshot_sql(op), join_common::snapshot_sql(*child))
            &&& !(*child is Scan) ==> join_common::snapshot_sql(op) == join_common::snapshot_sql(
                *child,
            )
        },
        op matches OpTree::InnerJoin { condition, left, right } ==> joins_rows(
            op,
            " JOIN "@,
            condition@,
            *left,
            *right,
        ),
        op matches OpTree::LeftJoin { condition, left, right } ==> joins_rows(
            op,
            " LEFT JOIN "@,
            condition@,
            *left,
            *right,
        ),
        op matches OpTree::FullJoin { condition, left, right } ==> joins_rows(
            op,
            " FULL JOIN "@,
            condition@,
            *left,
            *right,
        ),
{
    match op {
        OpTree::Scan { schema, table_name, .. } => {
            sql_builder::qualified_reads_back(schema@, table_name@);
        },
        OpTree::Filter { predicate, child } => if *child is Scan {
            let inner = join_common::snapshot_sql(*child);
            let a = "(SELECT * FROM "@;
            let alias = sql_builder::ident_text(child.spec_alias());
            let b = " WHERE "@ + predicate@.sql() + ")"@;
            let t = join_common::snapshot_sql(op);
            text_laws::parts_of_a_text_occur_in_it(a, inner, " "@ + alias + b);
            assert(t =~= a + inner + (" "@ + alias + b));
            text_laws::parts_of_a_text_occur_in_it(a + inner + " "@ + alias, b, Seq::empty());
            assert(t =~= a + inner + " "@ + alias + b);
        },
        OpTree::InnerJoin { condition, left, right } => {
            reveal_strlit(" JOIN ");
            reveal_strlit("JOIN");
            reveal_strlit(" ");
            assert(" JOIN "@ =~= " "@ + "JOIN"@ + " "@);
            lemma_joins_rows("JOIN"@, " JOIN "@, condition@, *left, *right);
        },
        OpTree::LeftJoin { condition, left, right } => {
            reveal_strlit(" LEFT JOIN ");
            reveal_strlit("LEFT JOIN");
            reveal_strlit(" ");
            assert(" LEFT JOIN "@ =~= " "@ + "LEFT JOIN"@ + " "@);
            lemma_joins_rows("LEFT JOIN"@, " LEFT JOIN "@, condition@, *left, *right);
        },
        OpTree::FullJoin { condition, left, right } => {
            reveal_strlit(" FULL JOIN ");
            reveal_strlit("FULL JOIN");
            reveal_strlit(" ");
            assert(" FULL JOIN "@ =~= " "@ + "FULL JOIN"@ + " "@);
            lemma_joins_rows("FULL JOIN"@, " FULL JOIN "@, condition@, *left, *right);
        },
        _ => {},
    }
}

/// Whether the current rows of an operator are those of two inputs, joined.
pub open spec fn joins_rows(
    op: OpTree,
    kind: Seq<char>,
    condition: ExprView,
    left: OpTree,
    right: OpTree,
) -> bool {
    text::ends(
        join_common::snapshot_sql(op),
        join_common::snapshot_sql(left) + " "@ + sql_builder::ident_text(left.spec_alias()) + kind
            + join_common::snapshot_sql(right) + " "@ + sql_builder::ident_text(
            right.spec_alias(),
        ) + " ON "@ + join_common::condition_sql(
            condition,
            left,
            left.spec_alias(),
            right,
            right.spec_alias(),
        ) + ")"@,
    )
}

/// The current rows of a join end with its inputs and its condition.
proof fn lemma_joins_rows(
    kind: Seq<char>,
    spaced: Seq<char>,
    condition: ExprView,
    left: OpTree,
    right: OpTree,
)
    requires
        spaced == " "@ + kind + " "@,
    ensures
        ({
            let ls = join_common::snapshot_sql(left);
            let rs = join_common::snapshot_sql(right);
            let la = sql_builder::ident_text(left.spec_alias());
            let ra = sql_builder::ident_text(right.spec_alias());
            let cond = join_common::condition_sql(
                condition,
                left,
                left.spec_alias(),
                right,
                right.spec_alias(),
            );
            text::ends(
                join_common::join_snapshot_of(kind, condition, left, ls, right, rs),
                ls + " "@ + la + spaced + rs + " "@ + ra + " ON "@ + cond + ")"@,
            )
        }),
{
    let ls = join_common::snapshot_sql(left);
    let rs = join_common::snapshot_sql(right);
    let la = sql_builder::ident_text(left.spec_alias());
    let ra = sql_builder::ident_text(right.spec_alias());
    let cond = join_common::condition_sql(
        condition,
        left,
        left.spec_alias(),
        right,
        right.spec_alias(),
    );
    let cols = text::join(join_common::join_columns(left, right), ", "@);
    lemma_snapshot_end(cols, ls, la, kind, spaced, rs, ra, cond);
}

/// The same over texts.
proof fn lemma_snapshot_end(
    cols: Seq<char>,
    ls: Seq<char>,
    la: Seq<char>,
    kind: Seq<char>,
    spaced: Seq<char>,
    rs: Seq<char>,
    ra: Seq<char>,
    cond: Seq<char>,
)
    requires
        spaced == " "@ + kind + " "@,
    ensures
        text::ends(
            join_common::join_snapshot_sql(cols, ls, la, kind, rs, ra, cond),
            ls + " "@ + la + spaced + rs + " "@ + ra + " ON "@ + cond + ")"@,
        ),
{
    let t = join_common::join_snapshot_sql(cols, ls, la, kind, rs, ra, cond);
    let head = "(SELECT "@ + cols + " FROM "@;
    let tail = ls + " "@ + la + spaced + rs + " "@ + ra + " ON "@ + cond + ")"@;
    assert(t =~= head + tail);
    text_laws::parts_of_a_text_occur_in_it(head, tail, Seq::empty());
}

/// The current rows of a join have every column of both inputs, each under the
/// name that the join gives it; those of an operator that has none say so.
pub proof fn current_rows_of_joins_have_the_columns_of_both(
    kind: Seq<char>,
    condition: ExprView,
    left: OpTree,
    right: OpTree,
    ls: Seq<char>,
    rs: Seq<char>,
    i: int,
)
    ensures
        0 <= i < left.spec_columns().len() ==> text::occurs(
            join_common::join_snapshot_of(kind, condition, left, ls, right, rs),
            sql_builder::ident_text(left.spec_alias()) + "."@ + sql_builder::ident_text(
                left.spec_columns()[i],
            ) + " AS "@ + sql_builder::ident_text(
                left.spec_alias() + "__"@ + left.spec_columns()[i],
            ),
        ),
        0 <= i < right.spec_columns().len() ==> text::occurs(
            join_common::join_snapshot_of(kind, condition, left, ls, right, rs),
            sql_builder::ident_text(right.spec_alias()) + "."@ + sql_builder::ident_text(
                right.spec_columns()[i],
            ) + " AS "@ + sql_builder::ident_text(
                right.spec_alias() + "__"@ + right.spec_columns()[i],
            ),
        ),
{
    let t = join_common::join_snapshot_of(kind, condition, left, ls, right, rs);
    let cols = join_common::join_columns(left, right);
    let c = text::join(cols, ", "@);
    let a = "(SELECT "@;
    let tail = t.skip((a + c).len() as int);
    assert(t =~= a + c + tail);
    text_laws::parts_of_a_text_occur_in_it(a, c, tail);
    if 0 <= i < left.spec_columns().len() {
        joined_parts_occur(cols, ", "@, i);
        occurs_within(t, c, cols[i]);
    }
    let n = left.spec_columns().len();
    if 0 <= i < right.spec_columns().len() {
        joined_parts_occur(cols, ", "@, n + i);
        occurs_within(t, c, cols[n + i]);
    }
}

// ── Joins on existence ─────────────────────────────────────────────────

/// The query of the part that changes of the right rows drive says what the
/// part emits: it inserts where the test holds and deletes where it does not,
/// the test is negated where rows without a match are kept, and only rows that
/// match a changed right row and whose match changed come out.
pub proof fn status_query_says_what_it_emits(p: StatusPart)
    ensures
        p.negated ==> text::occurs(
            p.text(),
            "CASE WHEN NOT "@ + p.now + "\n            THEN 'I' ELSE 'D'\n"@,
        ),
        !p.negated ==> text::occurs(
            p.text(),
            "CASE WHEN "@ + p.now + "\n            THEN 'I' ELSE 'D'\n"@,
        ),
        text::ends(
            p.text(),
            "\nFROM "@ + p.left + " l\nWHERE "@ + p.touched + "\n  AND ("@ + p.now + "\n       <> "@
                + p.before + ")"@,
        ),
        text::begins(p.text(), "SELECT "@ + p.hash + " AS "@ + p.row_id + ","@),
{
    lemma_status(
        p.hash,
        p.row_id,
        if p.negated {
            "NOT "@
        } else {
            ""@
        },
        p.negated,
        p.now,
        p.action,
        p.cols,
        p.left,
        p.touched,
        p.before,
    );
}

/// The same over texts.
proof fn lemma_status(
    hash: Seq<char>,
    row_id: Seq<char>,
    neg: Seq<char>,
    negated: bool,
    now: Seq<char>,
    action: Seq<char>,
    cols: Seq<char>,
    left: Seq<char>,
    touched: Seq<char>,
    before: Seq<char>,
)
    requires
        neg == if negated {
            "NOT "@
        } else {
            ""@
        },
    ensures
        ({
            let t = (StatusPart { negated, row_id, action, hash, now, cols, left, touched, before
            }).text();
            &&& negated ==> text::occurs(
                t,
                "CASE WHEN NOT "@ + now + "\n            THEN 'I' ELSE 'D'\n"@,
            )
            &&& !negated ==> text::occurs(
                t,
                "CASE WHEN "@ + now + "\n            THEN 'I' ELSE 'D'\n"@,
            )
            &&& text::ends(
                t,
                "\nFROM "@ + left + " l\nWHERE "@ + touched + "\n  AND ("@ + now + "\n       <> "@
                    + before + ")"@,
            )
            &&& text::begins(t, "SELECT "@ + hash + " AS "@ + row_id + ","@)
        }),
{
    reveal_strlit("");
    reveal_strlit(",");
    reveal_strlit("NOT ");
    reveal_strlit("SELECT ");
    reveal_strlit(" AS ");
    reveal_strlit("CASE WHEN ");
    reveal_strlit("CASE WHEN NOT ");
    reveal_strlit(",\n       CASE WHEN ");
    reveal_strlit("\n            THEN 'I' ELSE 'D'\n");
    reveal_strlit("\n            THEN 'I' ELSE 'D'\n       END AS ");
    let t = (StatusPart { negated, row_id, action, hash, now, cols, left, touched, before }).text();
    let k = 7int + hash.len() + 4 + row_id.len() + 9;
    let f = (if negated {
        "CASE WHEN NOT "@
    } else {
        "CASE WHEN "@
    }) + now + "\n            THEN 'I' ELSE 'D'\n"@;
    assert(t.subrange(k, k + f.len()) =~= f);
    assert(text::occurs_at(t, f, k));
    let b = "SELECT "@ + hash + " AS "@ + row_id + ","@;
    assert(t.subrange(0, b.len() as int) =~= b);
    reveal_strlit(",\n       ");
    let head = "SELECT "@ + hash + " AS "@ + row_id + ",\n       CASE WHEN "@ + neg + now
        + "\n            THEN 'I' ELSE 'D'\n       END AS "@ + action + ",\n       "@ + cols;
    let tail = "\nFROM "@ + left + " l\nWHERE "@ + touched + "\n  AND ("@ + now + "\n       <> "@
        + before + ")"@;
    assert(t =~= head + tail);
    text_laws::parts_of_a_text_occur_in_it(head, tail, Seq::empty());
}

/// The left rows of a semi-join are filtered by each equality whose sides are
/// of the left rows and of the right delta, and by no other.
pub proof fn only_clean_keys_filter_left_rows(a: KeyTexts, b: KeyTexts, key: (
    Seq<char>,
    Seq<char>,
))
    ensures
        semi_join::clean_keys(a + b) == semi_join::clean_keys(a) + semi_join::clean_keys(b),
        text::occurs(key.0, "__pgt_pre"@) && text::begins(key.1, "dr."@)
            ==> semi_join::clean_keys(seq![key]) == seq![key],
        !(text::occurs(key.0, "__pgt_pre"@) && text::begins(key.1, "dr."@))
            ==> semi_join::clean_keys(seq![key]).len() == 0,
    decreases b.len(),
{
    let one = seq![key];
    assert(one.drop_last() =~= Seq::empty());
    assert(one.last() == key);
    assert(semi_join::clean_keys(one.drop_last()) =~= Seq::empty());
    if semi_join::is_clean(key) {
        assert(semi_join::clean_keys(one) =~= seq![key]);
    }
    let left = semi_join::clean_keys(a);
    if b.len() == 0 {
        assert(a + b =~= a);
        assert(left + semi_join::clean_keys(b) =~= left);
    } else {
        assert((a + b).drop_last() =~= a + b.drop_last());
        assert((a + b).last() == b.last());
        only_clean_keys_filter_left_rows(a, b.drop_last(), key);
        assert(semi_join::clean_keys(a + b) =~= left + semi_join::clean_keys(b));
    }
}

/// Without keys all left rows are looked at; with keys, those that satisfy the
/// filter of each.
pub proof fn left_rows_without_keys_are_all(
    snapshot: Seq<char>,
    keys: KeyTexts,
    delta: Seq<char>,
    i: int,
)
    ensures
        keys.len() == 0 ==> semi_join::left_rows(snapshot, keys, delta) == snapshot,
        0 <= i < keys.len() ==> text::occurs(
            semi_join::left_rows(snapshot, keys, delta),
            keys[i].0 + " IN (SELECT DISTINCT "@ + keys[i].1 + " FROM "@ + delta + " dr)"@,
        ),
{
    if 0 <= i < keys.len() {
        let filters = semi_join::delta_keys(keys, delta);
        let inner = text::join(filters, " AND "@);
        let t = semi_join::left_rows(snapshot, keys, delta);
        joined_parts_occur(filters, " AND "@, i);
        let a = "(SELECT * FROM "@ + snapshot + " \"__pgt_pre\" WHERE "@;
        text_laws::parts_of_a_text_occur_in_it(a, inner, ")"@);
        assert(t =~= a + inner + ")"@);
        occurs_within(t, inner, filters[i]);
    }
}

// ── References ─────────────────────────────────────────────────────────

/// A reference puts out the names that it gives, else those of the definition,
/// else those of the body; each column of the body comes out, in its place,
/// under the name for it.
pub proof fn references_rename_every_column(
    own: Seq<Seq<char>>,
    defined: Seq<Seq<char>>,
    body: Seq<Seq<char>>,
    i: int,
)
    ensures
        own.len() > 0 ==> cte_scan::effective_columns(own, defined, body) == own,
        own.len() == 0 && defined.len() > 0 ==> cte_scan::effective_columns(own, defined, body)
            == defined,
        own.len() == 0 && defined.len() == 0 ==> cte_scan::effective_columns(own, defined, body)
            == body,
        0 <= i < body.len() && i < own.len() ==> {
            let t = cte_scan::rename_list(body, own)[i];
            &&& body[i] == own[i] ==> names_column(t, own[i])
            &&& body[i] != own[i] ==> t == sql_builder::ident_text(body[i]) + " AS "@
                + sql_builder::ident_text(own[i])
        },
        body.len() <= own.len() ==> cte_scan::rename_list(body, own).len() == body.len(),
        own.len() <= body.len() ==> cte_scan::rename_list(body, own).len() == own.len(),
{
    if 0 <= i < own.len() {
        sql_builder::ident_reads_back(own[i]);
    }
}

/// A reference that renames nothing is the delta of the body; one that renames
/// adds one expression that reads it.
pub proof fn references_read_the_delta_of_the_body(
    st: DiffState,
    alias: Seq<char>,
    own: Seq<Seq<char>>,
    defined: Seq<Seq<char>>,
    base: Delta,
)
    ensures
        ({
            let columns = cte_scan::effective_columns(own, defined, base.columns);
            let (now, d) = cte_scan::cte_scan_outcome(st, alias, own, defined, base);
            &&& d is Ok
            &&& d->Ok_0.columns == columns
            &&& d->Ok_0.is_deduplicated == base.is_deduplicated
            &&& columns == base.columns ==> now == st && d->Ok_0 == base
            &&& columns != base.columns ==> now.ctes.drop_last() == st.ctes
                && now.ctes.last().name == d->Ok_0.cte_name && text::ends(
                now.ctes.last().sql,
                "\nFROM "@ + base.cte_name,
            )
        }),
{
    let columns = cte_scan::effective_columns(own, defined, base.columns);
    if columns != base.columns {
        let cols = text::join(cte_scan::rename_list(base.columns, columns), ", "@);
        let prefix = "ctescan_"@ + alias;
        chain_laws::steps_add_one_expression(st, prefix, cte_scan::rename_sql(cols, base.cte_name));
        let a = "SELECT __pgs_row_id, __pgs_action, "@ + cols;
        reveal_strlit("\nFROM ");
        assert(cte_scan::rename_sql(cols, base.cte_name) =~= a + ("\nFROM "@ + base.cte_name));
        text_laws::parts_of_a_text_occur_in_it(a, "\nFROM "@ + base.cte_name, Seq::empty());
    }
}

// ── Windows ────────────────────────────────────────────────────────────

/// A row belongs to a changed partition if it agrees with one in every
/// partitioning column; without such columns every row does.
pub proof fn partitions_are_told_by_every_column(
    prefix: Seq<char>,
    partition: Seq<Seq<char>>,
    i: int,
)
    ensures
        partition.len() == 0 ==> window::partition_cond(prefix, partition) == "TRUE"@,
        partition.len() > 0 ==> window::partition_cond(prefix, partition) == text::join(
            diff::equalities(prefix, "cp."@, partition),
            " AND "@,
        ),
        0 <= i < partition.len() ==> text::occurs(
            window::partition_cond(prefix, partition),
            prefix + sql_builder::ident_text(partition[i]) + " = cp."@ + sql_builder::ident_text(
                partition[i],
            ),
        ),
{
    if 0 <= i < partition.len() {
        let parts = diff::equalities(prefix, "cp."@, partition);
        joined_parts_occur(parts, " AND "@, i);
        reveal_strlit(" = cp.");
        reveal_strlit(" = ");
        reveal_strlit("cp.");
        assert(" = cp."@ =~= " = "@ + "cp."@);
        let q = sql_builder::ident_text(partition[i]);
        assert(parts[i] =~= prefix + q + " = cp."@ + q);
    }
}

/// Every window function is evaluated, under its own name, in its place.
pub proof fn every_window_function_is_evaluated(ws: Seq<WindowExpr>, i: int)
    requires
        0 <= i < ws.len(),
    ensures
        window::window_selects(ws).len() == ws.len(),
        exists|q: Seq<char>| #[trigger]
            names_column(q, ws[i].alias@) && window::window_selects(ws)[i] == ws[i].sql() + " AS "@
                + q,
{
    sql_builder::ident_reads_back(ws[i].alias@);
    assert(names_column(sql_builder::ident_text(ws[i].alias@), ws[i].alias@));
}

/// A row is identified by all of the columns that are passed through.
pub proof fn window_rows_are_identified_by_what_is_passed_through(pt: Seq<Seq<char>>)
    requires
        pt.len() > 0,
    ensures
        window::window_row_id(pt) == scan::hash_call(
            "pgtrickle.pg_trickle_hash"@,
            Seq::new(
                pt.len(),
                |i: int| "ci."@ + sql_builder::ident_text(pt[i]) + "::TEXT"@,
            ),
        ),
{
    assert(diff::wrapped("ci."@, pt, "::TEXT"@) =~= Seq::new(
        pt.len(),
        |i: int| "ci."@ + sql_builder::ident_text(pt[i]) + "::TEXT"@,
    ));
}

/// Window functions are recomputed in five steps.  Partitions with changes are
/// found in the delta of the input, or any change where there are none; their
/// stored rows are taken from the storage table; the current rows are made of
/// these and of the delta; the functions are evaluated over the current rows;
/// and the old results are replaced by the new.
pub proof fn windows_are_recomputed_from_storage_and_delta(
    env: DiffEnv,
    st: DiffState,
    ws: Seq<WindowExpr>,
    partition: Seq<Seq<char>>,
    pt: Seq<Seq<char>>,
    c: Delta,
)
    ensures
        ({
            let (now, d) = window::window_outcome(env, st, ws, partition, pt, c);
            let n = st.ctes.len() as int;
            let all = pt + parser::window_names(ws);
            let k = now.ctes;
            &&& k.len() == n + 5
            &&& k.take(n) == st.ctes
            &&& d is Ok && d->Ok_0.columns == all && d->Ok_0.cte_name == k[n + 4].name
            &&& k[n].sql == if partition.len() == 0 {
                window::any_change_sql(c.cte_name)
            } else {
                window::changed_parts_sql(diff::cols_text(partition), c.cte_name)
            }
            &&& k[n + 1].sql == window::old_rows_sql(
                text::join(diff::wrapped("st."@, all, ""@), ", "@),
                env.storage(),
                k[n].name,
                window::partition_cond("st."@, partition),
            )
            &&& k[n + 2].sql == window::current_input_sql(
                text::join(diff::wrapped("o."@, pt, ""@), ", "@),
                k[n + 1].name,
                c.cte_name,
                text::join(diff::wrapped("d."@, pt, ""@), ", "@),
                k[n].name,
                window::partition_cond("d."@, partition),
            )
            &&& k[n + 3].sql == window::recomputed_sql(
                window::window_row_id(pt),
                text::join(diff::wrapped("ci."@, pt, ""@), ", "@),
                text::join(window::window_selects(ws), ",\n       "@),
                k[n + 2].name,
            )
            &&& k[n + 4].sql == window::win_final_sql(
                diff::cols_text(all),
                k[n + 1].name,
                k[n + 3].name,
            )
        }),
{
    let (now, d) = window::window_outcome(env, st, ws, partition, pt, c);
    assert(now.ctes.take(st.ctes.len() as int) =~= st.ctes);
    reveal_strlit(".");
    reveal_strlit("o");
    reveal_strlit("d");
    reveal_strlit("ci");
    reveal_strlit("o.");
    reveal_strlit("d.");
    reveal_strlit("ci.");
    assert("o"@ + "."@ =~= "o."@);
    assert("d"@ + "."@ =~= "d."@);
    assert("ci"@ + "."@ =~= "ci."@);
}

// ── Scalar subqueries ──────────────────────────────────────────────────

/// The value is that of the first column of the subquery, now and before.
pub proof fn the_value_is_the_first_column(subquery: OpTree, s: Delta)
    requires
        s.columns.len() > 0,
    ensures
        names_column(scalar_subquery::value_column(s), s.columns[0]),
        scalar_subquery::old_value(subquery, s) == scalar_subquery::value_before_sql(
            scalar_subquery::value_column(s),
            scalar_subquery::rows_before_sql(
                diff::cols_text(s.columns),
                join_common::snapshot_sql(subquery),
                sql_builder::ident_text(subquery.spec_alias()),
                s.cte_name,
            ),
        ),
{
    sql_builder::ident_reads_back(s.columns[0]);
}

} // verus!
