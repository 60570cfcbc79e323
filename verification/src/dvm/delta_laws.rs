//! What holds of the deltas of operators: every input is differentiated, in
//! order, and a failure of one is that of the operator; the delta of an
//! operator is the last expression that it adds, reads the deltas of the
//! inputs, and has the columns that the operator puts out.

use vstd::prelude::*;

use crate::dvm::diff;
use crate::dvm::diff::{CteKind, CteView, Delta, DiffEnv, DiffState, Outcome};
use crate::dvm::engine;
use crate::dvm::operator_laws::occurs_within;
use crate::dvm::operators::anti_join;
use crate::dvm::operators::cte_scan;
use crate::dvm::operators::distinct;
use crate::dvm::operators::filter;
use crate::dvm::operators::full_join;
use crate::dvm::operators::join;
use crate::dvm::operators::join_common;
use crate::dvm::operators::outer_join;
use crate::dvm::operators::scalar_subquery;
use crate::dvm::operators::scan;
use crate::dvm::operators::semi_join;
use crate::dvm::operators::window;
use crate::dvm::parser;
use crate::dvm::parser::{ExprView, OpTree};
use crate::error::ErrorView;
use crate::sql_builder;
use crate::text;
use crate::text_laws;

verus! {

// ── Inputs ─────────────────────────────────────────────────────────────

/// The deltas of two inputs, the second differentiated from where the first
/// left off; the first failure ends it.
pub open spec fn both(env: DiffEnv, st: DiffState, left: OpTree, right: OpTree) -> (
    DiffState,
    Result<(Delta, Delta), ErrorView>,
) {
    match engine::tree_diff(env, st, left) {
        (st1, Ok(l)) => match engine::tree_diff(env, st1, right) {
            (st2, Ok(r)) => (st2, Ok((l, r))),
            (st2, Err(e)) => (st2, Err(e)),
        },
        (st1, Err(e)) => (st1, Err(e)),
    }
}

/// Whether an outcome adds some expressions behind those of a state, the last
/// of which is the delta, and nothing else.
pub open spec fn adds(s: DiffState, o: Outcome, n: int) -> bool {
    &&& o.1 is Ok
    &&& o.0.ctes.len() == s.ctes.len() + n
    &&& o.0.ctes.take(s.ctes.len() as int) == s.ctes
    &&& o.0.ctes.last().name == o.1->Ok_0.cte_name
    &&& o.0.deltas == s.deltas
    &&& o.0.inside_semijoin == s.inside_semijoin
}

/// Whether columns are those of two inputs, each named after its input.
pub open spec fn named_after_sides(
    columns: Seq<Seq<char>>,
    left: OpTree,
    l: Delta,
    right: OpTree,
    r: Delta,
) -> bool {
    &&& columns.len() == l.columns.len() + r.columns.len()
    &&& forall|i: int|
        0 <= i < l.columns.len() ==> #[trigger] columns[i] == left.spec_alias() + "__"@
            + l.columns[i]
    &&& forall|i: int|
        0 <= i < r.columns.len() ==> columns[l.columns.len() + i] == right.spec_alias() + "__"@
            + #[trigger] r.columns[i]
}

/// The expression that stands somewhere behind those of a state.
pub open spec fn added(s: DiffState, o: Outcome, k: int) -> CteView {
    o.0.ctes[s.ctes.len() + k]
}

// ── Joins ──────────────────────────────────────────────────────────────

/// An inner join has the delta of the changes of both inputs, with the columns
/// of both.
pub proof fn inner_joins_take_both_deltas(env: DiffEnv, st: DiffState, op: OpTree)
    ensures
        op matches OpTree::InnerJoin { condition, left, right } ==> {
            let b = both(env, st, *left, *right);
            let o = engine::tree_diff(env, st, op);
            &&& b.1 matches Err(e) ==> o == (b.0, Err::<Delta, ErrorView>(e))
            &&& b.1 matches Ok((l, r)) ==> {
                &&& adds(b.0, o, 1)
                &&& named_after_sides(o.1->Ok_0.columns, *left, l, *right, r)
                &&& !o.1->Ok_0.is_deduplicated
                &&& added(b.0, o, 0).sql == join::inner_join_text(condition@, *left, *right, l, r)
            }
        },
{
    reveal_with_fuel(engine::tree_diff, 1);
    match op {
        OpTree::InnerJoin { condition, left, right } => {
            let b = both(env, st, *left, *right);
            let o = engine::tree_diff(env, st, op);
            if b.1 is Ok {
                assert(o.0.ctes.take(b.0.ctes.len() as int) =~= b.0.ctes);
            }
        },
        _ => {},
    }
}

/// A left join marks the changes of the right rows, and has the delta of the
/// changes of both inputs, with the columns of both.
pub proof fn left_joins_take_both_deltas(env: DiffEnv, st: DiffState, op: OpTree)
    ensures
        op matches OpTree::LeftJoin { condition, left, right } ==> {
            let b = both(env, st, *left, *right);
            let o = engine::tree_diff(env, st, op);
            &&& b.1 matches Err(e) ==> o == (b.0, Err::<Delta, ErrorView>(e))
            &&& b.1 matches Ok((l, r)) ==> {
                &&& adds(b.0, o, 2)
                &&& named_after_sides(o.1->Ok_0.columns, *left, l, *right, r)
                &&& !o.1->Ok_0.is_deduplicated
                &&& added(b.0, o, 0).sql == outer_join::left_flags_sql(r.cte_name)
                &&& added(b.0, o, 1).sql == outer_join::left_join_text(
                    condition@,
                    *left,
                    *right,
                    l,
                    r,
                    added(b.0, o, 0).name,
                )
            }
        },
{
    reveal_with_fuel(engine::tree_diff, 1);
    match op {
        OpTree::LeftJoin { condition, left, right } => {
            let b = both(env, st, *left, *right);
            let o = engine::tree_diff(env, st, op);
            if b.1 is Ok {
                assert(o.0.ctes.take(b.0.ctes.len() as int) =~= b.0.ctes);
            }
        },
        _ => {},
    }
}

/// A full join marks the changes of both inputs, and has the delta of both,
/// with the columns of both.
pub proof fn full_joins_take_both_deltas(env: DiffEnv, st: DiffState, op: OpTree)
    ensures
        op matches OpTree::FullJoin { condition, left, right } ==> {
            let b = both(env, st, *left, *right);
            let o = engine::tree_diff(env, st, op);
            &&& b.1 matches Err(e) ==> o == (b.0, Err::<Delta, ErrorView>(e))
            &&& b.1 matches Ok((l, r)) ==> {
                &&& adds(b.0, o, 3)
                &&& named_after_sides(o.1->Ok_0.columns, *left, l, *right, r)
                &&& !o.1->Ok_0.is_deduplicated
                &&& added(b.0, o, 0).sql == full_join::full_flags_sql(l.cte_name)
                &&& added(b.0, o, 1).sql == full_join::full_flags_sql(r.cte_name)
                &&& added(b.0, o, 2).sql == full_join::full_join_text(
                    condition@,
                    *left,
                    *right,
                    l,
                    r,
                    added(b.0, o, 0).name,
                    added(b.0, o, 1).name,
                )
            }
        },
{
    reveal_with_fuel(engine::tree_diff, 1);
    match op {
        OpTree::FullJoin { condition, left, right } => {
            let b = both(env, st, *left, *right);
            let o = engine::tree_diff(env, st, op);
            if b.1 is Ok {
                assert(o.0.ctes.take(b.0.ctes.len() as int) =~= b.0.ctes);
            }
        },
        _ => {},
    }
}

/// An anti-join has the delta of left rows without a match, with the columns of
/// the left input.
pub proof fn anti_joins_put_out_left_rows(env: DiffEnv, st: DiffState, op: OpTree)
    ensures
        op matches OpTree::AntiJoin { condition, left, right } ==> {
            let b = both(env, st, *left, *right);
            let o = engine::tree_diff(env, st, op);
            &&& b.1 matches Err(e) ==> o == (b.0, Err::<Delta, ErrorView>(e))
            &&& b.1 matches Ok((l, r)) ==> {
                &&& adds(b.0, o, 1)
                &&& o.1->Ok_0.columns == l.columns
                &&& !o.1->Ok_0.is_deduplicated
                &&& added(b.0, o, 0).sql == anti_join::anti_join_text(
                    condition@,
                    *left,
                    *right,
                    l,
                    r,
                )
            }
        },
{
    reveal_with_fuel(engine::tree_diff, 1);
    match op {
        OpTree::AntiJoin { condition, left, right } => {
            let b = both(env, st, *left, *right);
            let o = engine::tree_diff(env, st, op);
            if b.1 is Ok {
                assert(o.0.ctes.take(b.0.ctes.len() as int) =~= b.0.ctes);
            }
        },
        _ => {},
    }
}

/// A semi-join marks its left input as one inside a semi-join and nothing
/// else, keeps the right rows before the changes, and has the delta of left
/// rows with a match, with the columns of the left input.
pub proof fn semi_joins_put_out_left_rows(env: DiffEnv, st: DiffState, op: OpTree)
    ensures
        op matches OpTree::SemiJoin { condition, left, right } ==> {
            let b = both(env, DiffState { inside_semijoin: true, ..st }, *left, *right);
            let s = DiffState { inside_semijoin: st.inside_semijoin, ..b.0 };
            let o = engine::tree_diff(env, st, op);
            &&& b.1 matches Err(e) ==> o == (b.0, Err::<Delta, ErrorView>(e))
            &&& b.1 matches Ok((l, r)) ==> {
                &&& adds(s, o, 2)
                &&& o.1->Ok_0.columns == l.columns
                &&& !o.1->Ok_0.is_deduplicated
                &&& added(s, o, 0).kind == CteKind::Materialized
                &&& added(s, o, 0).sql == semi_join::right_old_sql(
                    diff::cols_text(diff::user_columns(r.columns)),
                    join_common::snapshot_sql(*right),
                    sql_builder::ident_text(right.spec_alias()),
                    r.cte_name,
                )
                &&& added(s, o, 1).sql == semi_join::semi_join_text(
                    condition@,
                    *left,
                    *right,
                    l,
                    r,
                    added(s, o, 0).name,
                )
            }
        },
{
    reveal_with_fuel(engine::tree_diff, 1);
    match op {
        OpTree::SemiJoin { condition, left, right } => {
            let b = both(env, DiffState { inside_semijoin: true, ..st }, *left, *right);
            let o = engine::tree_diff(env, st, op);
            if b.1 is Ok {
                assert(o.0.ctes.take(b.0.ctes.len() as int) =~= b.0.ctes);
            }
        },
        _ => {},
    }
}

/// A test of existence says where to look, and by which condition.
pub proof fn tests_of_existence_look_in_their_table(
    table: Seq<char>,
    alias: Seq<char>,
    cond: Seq<char>,
)
    ensures
        join_common::exists_sql(table, alias, cond) == "EXISTS (SELECT 1 FROM "@ + table + " "@
            + alias + " WHERE "@ + cond + ")"@,
{
}

/// The query of an anti-join keeps changed left rows without a current match;
/// and of the current left rows those that match a changed right row, whether
/// they are without a match now, and were before.
pub proof fn anti_joins_keep_rows_without_a_match(
    condition: ExprView,
    left: OpTree,
    right: OpTree,
    l: Delta,
    r: Delta,
)
    ensures
        ({
            let t = anti_join::anti_join_text(condition, left, right, l, r);
            let p = anti_join::anti_status(condition, left, right, l, r);
            let now = join_common::snapshot_sql(right);
            let r_old = anti_join::right_old_sql(
                diff::cols_text(r.columns),
                now,
                sql_builder::ident_text(right.spec_alias()),
                r.cte_name,
            );
            &&& text::occurs(t, p.text())
            &&& text::occurs(
                t,
                " dl\nWHERE NOT "@ + join_common::exists_sql(
                    now,
                    "r"@,
                    join_common::condition_sql(condition, left, "dl"@, right, "r"@),
                ),
            )
            &&& text::occurs(t, "FROM "@ + l.cte_name + " dl\n"@)
            &&& p.negated
            &&& p.left == join_common::snapshot_sql(left)
            &&& p.now == join_common::exists_sql(
                now,
                "r"@,
                join_common::condition_sql(condition, left, "l"@, right, "r"@),
            )
            &&& p.touched == join_common::exists_sql(
                r.cte_name,
                "dr"@,
                join_common::condition_sql(condition, left, "l"@, right, "dr"@),
            )
            &&& p.before == join_common::exists_sql(
                r_old,
                "r_old"@,
                join_common::condition_sql(condition, left, "l"@, right, "r_old"@),
            )
            &&& p.cols == text::join(diff::wrapped("l."@, l.columns, ""@), ", "@)
            &&& p.hash == "pgstream.pg_stream_hash_multi(ARRAY["@ + text::join(
                diff::wrapped("l."@, l.columns, "::TEXT"@),
                ", "@,
            ) + "])"@
        }),
{
    reveal(anti_join::anti_join_text);
    let cols = text::join(diff::wrapped("dl."@, l.columns, ""@), ", "@);
    let now = join_common::snapshot_sql(right);
    let cond = join_common::condition_sql(condition, left, "dl"@, right, "r"@);
    let a = anti_join::anti_left_sql(cols, l.cte_name, now, cond);
    let p = anti_join::anti_status(condition, left, right, l, r).text();
    let t = anti_join::anti_join_sql(a, p);
    lemma_anti_left(cols, l.cte_name, now, cond);
    lemma_anti_join(a, p);
    occurs_within(t, a, " dl\nWHERE NOT "@ + join_common::exists_sql(now, "r"@, cond));
    occurs_within(t, a, "FROM "@ + l.cte_name + " dl\n"@);
}

/// Both parts of an anti-join occur in it.
proof fn lemma_anti_join(a: Seq<char>, p: Seq<char>)
    ensures
        text::occurs(anti_join::anti_join_sql(a, p), a),
        text::occurs(anti_join::anti_join_sql(a, p), p),
{
    let e = Seq::<char>::empty();
    let t = anti_join::anti_join_sql(a, p);
    let mid = t.subrange(a.len() as int, t.len() - p.len());
    assert(t =~= e + a + (mid + p));
    text_laws::parts_of_a_text_occur_in_it(e, a, mid + p);
    assert(t =~= (a + mid) + p + e);
    text_laws::parts_of_a_text_occur_in_it(a + mid, p, e);
}

/// The part of an anti-join that its left changes drive.
proof fn lemma_anti_left(cols: Seq<char>, delta: Seq<char>, table: Seq<char>, cond: Seq<char>)
    ensures
        ({
            let t = anti_join::anti_left_sql(cols, delta, table, cond);
            &&& text::occurs(t, " dl\nWHERE NOT "@ + join_common::exists_sql(table, "r"@, cond))
            &&& text::occurs(t, "FROM "@ + delta + " dl\n"@)
        }),
{
    reveal_strlit("\nFROM ");
    reveal_strlit("FROM ");
    reveal_strlit(" dl\n");
    reveal_strlit(" dl\nWHERE NOT ");
    let t = anti_join::anti_left_sql(cols, delta, table, cond);
    let x = join_common::exists_sql(table, "r"@, cond);
    let f = " dl\nWHERE NOT "@ + x;
    let k = t.len() - f.len();
    assert(t.subrange(k, k + f.len()) =~= f);
    assert(text::occurs_at(t, f, k));
    let g = "FROM "@ + delta + " dl\n"@;
    let m = k - delta.len() - 5;
    assert(t.subrange(m, m + g.len()) =~= g);
    assert(text::occurs_at(t, g, m));
}

/// The query of a semi-join keeps inserted left rows with a current match and
/// deleted ones with a match before; and of the left rows that a right change
/// can concern those that match a changed right row, whether they match now,
/// and did before.
pub proof fn semi_joins_keep_rows_with_a_match(
    condition: ExprView,
    left: OpTree,
    right: OpTree,
    l: Delta,
    r: Delta,
    r_old: Seq<char>,
)
    ensures
        ({
            let t = semi_join::semi_join_text(condition, left, right, l, r, r_old);
            let p = semi_join::semi_status(condition, left, right, l, r, r_old);
            let now = join_common::snapshot_sql(right);
            &&& text::occurs(t, p.text())
            &&& text::occurs(
                t,
                semi_join::semi_left_sql(
                    text::join(diff::wrapped("dl."@, l.columns, ""@), ", "@),
                    l.cte_name,
                    join_common::exists_sql(
                        r_old,
                        "r_old"@,
                        join_common::condition_sql(condition, left, "dl"@, right, "r_old"@),
                    ),
                    join_common::exists_sql(
                        now,
                        "r"@,
                        join_common::condition_sql(condition, left, "dl"@, right, "r"@),
                    ),
                ),
            )
            &&& !p.negated
            &&& p.now == join_common::exists_sql(
                now,
                "r"@,
                join_common::condition_sql(condition, left, "l"@, right, "r"@),
            )
            &&& p.touched == join_common::exists_sql(
                r.cte_name,
                "dr"@,
                join_common::condition_sql(condition, left, "l"@, right, "dr"@),
            )
            &&& p.before == join_common::exists_sql(
                r_old,
                "r_old"@,
                join_common::condition_sql(condition, left, "l"@, right, "r_old"@),
            )
            &&& p.cols == text::join(diff::wrapped("l."@, l.columns, ""@), ", "@)
            &&& p.hash == "pgtrickle.pg_trickle_hash_multi(ARRAY["@ + text::join(
                diff::wrapped("l."@, l.columns, "::TEXT"@),
                ", "@,
            ) + "])"@
            &&& text::occurs(p.left, join_common::snapshot_sql(left))
        }),
{
    reveal(semi_join::semi_join_text);
    let e = Seq::<char>::empty();
    let a = semi_join::semi_left(condition, left, right, l, r_old);
    let status = semi_join::semi_status(condition, left, right, l, r, r_old);
    let p = status.text();
    let t = semi_join::semi_join_sql(a, p);
    let mid = t.subrange(a.len() as int, t.len() - p.len());
    assert(t =~= e + a + (mid + p));
    text_laws::parts_of_a_text_occur_in_it(e, a, mid + p);
    assert(t =~= (a + mid) + p + e);
    text_laws::parts_of_a_text_occur_in_it(a + mid, p, e);
    let keys = semi_join::clean_keys(
        join_common::aliased_keys(
            condition,
            join_common::Sides { left, new_left: "__pgt_pre"@, right, new_right: "dr"@ },
        ),
    );
    let ls = join_common::snapshot_sql(left);
    if keys.len() == 0 {
        assert(ls.subrange(0, ls.len() as int) =~= ls);
        assert(text::occurs_at(status.left, ls, 0));
    } else {
        let filters = text::join(semi_join::delta_keys(keys, r.cte_name), " AND "@);
        let h = "(SELECT * FROM "@;
        let rest = " \"__pgt_pre\" WHERE "@ + filters + ")"@;
        text_laws::parts_of_a_text_occur_in_it(h, ls, rest);
        assert(status.left =~= h + ls + rest);
    }
}

// ── Operators with one input ───────────────────────────────────────────

/// A filter reads the delta of its input and keeps its columns and whether it
/// is deduplicated.
pub proof fn filters_keep_columns(env: DiffEnv, st: DiffState, op: OpTree)
    ensures
        op matches OpTree::Filter { predicate, child } ==> {
            let c = engine::tree_diff(env, st, *child);
            let o = engine::tree_diff(env, st, op);
            &&& c.1 is Err ==> o == c
            &&& c.1 matches Ok(d) ==> {
                &&& adds(c.0, o, 1)
                &&& o.1->Ok_0.columns == d.columns
                &&& o.1->Ok_0.is_deduplicated == d.is_deduplicated
                &&& added(c.0, o, 0).sql == filter::filter_sql(
                    diff::cols_text(d.columns),
                    d.cte_name,
                    filter::resolved(predicate@, d.columns),
                )
            }
        },
{
    reveal_with_fuel(engine::tree_diff, 1);
    match op {
        OpTree::Filter { predicate, child } => {
            let c = engine::tree_diff(env, st, *child);
            let o = engine::tree_diff(env, st, op);
            if c.1 is Ok {
                assert(o.0.ctes.take(c.0.ctes.len() as int) =~= c.0.ctes);
            }
        },
        _ => {},
    }
}

/// The counts of `DISTINCT` are those of the delta of its input, then merged
/// with the stored ones; what comes out has the columns of the input and the
/// count.
pub proof fn distinct_counts_the_rows_of_its_input(env: DiffEnv, st: DiffState, op: OpTree)
    ensures
        op matches OpTree::Distinct { child } ==> {
            let c = engine::tree_diff(env, st, *child);
            let o = engine::tree_diff(env, st, op);
            &&& c.1 is Err ==> o == c
            &&& c.1 matches Ok(d) ==> {
                &&& adds(c.0, o, 3)
                &&& o.1->Ok_0.columns == d.columns.push("__pgs_count"@)
                &&& !o.1->Ok_0.is_deduplicated
                &&& added(c.0, o, 0).sql == distinct::dist_delta_sql(
                    scan::hash_call(
                        "pgstream.pg_stream_hash"@,
                        diff::wrapped(""@, d.columns, "::TEXT"@),
                    ),
                    diff::cols_text(d.columns),
                    d.cte_name,
                )
                &&& added(c.0, o, 1).sql == distinct::dist_merge_sql(
                    text::join(diff::wrapped("d."@, d.columns, ""@), ", "@),
                    added(c.0, o, 0).name,
                    env.storage(),
                )
                &&& added(c.0, o, 2).sql == distinct::dist_final_sql(
                    diff::cols_text(d.columns),
                    added(c.0, o, 1).name,
                )
            }
        },
{
    reveal_with_fuel(engine::tree_diff, 1);
    match op {
        OpTree::Distinct { child } => {
            let c = engine::tree_diff(env, st, *child);
            let o = engine::tree_diff(env, st, op);
            if c.1 is Ok {
                assert(o.0.ctes.take(c.0.ctes.len() as int) =~= c.0.ctes);
            }
        },
        _ => {},
    }
}

/// The statement for counts that do not cross zero stands behind the same
/// counts as the delta, and writes them to the storage table.
pub proof fn counts_are_stored_from_the_same_chain(env: DiffEnv, st: DiffState, op: OpTree)
    ensures
        op matches OpTree::Distinct { child } ==> {
            let c = engine::tree_diff(env, st, *child);
            let s = distinct::distinct_counts(env, st, op);
            let o = engine::tree_diff(env, st, op);
            &&& c.1 is Ok ==> s.1 is Ok
            &&& c.1 is Ok ==> o.0.ctes.drop_last() == s.0.ctes
            &&& c.1 is Ok ==> text::ends(
                s.1->Ok_0,
                distinct::count_update_sql(env.storage(), s.0.ctes.last().name),
            )
            &&& c.1 matches Err(e) ==> s.1 == Err::<Seq<char>, ErrorView>(e)
        },
{
    reveal_with_fuel(engine::tree_diff, 1);
    match op {
        OpTree::Distinct { child } => {
            let c = engine::tree_diff(env, st, *child);
            let s = distinct::distinct_counts(env, st, op);
            let o = engine::tree_diff(env, st, op);
            if c.1 is Ok {
                assert(o.0.ctes.drop_last() =~= s.0.ctes);
                let u = distinct::count_update_sql(env.storage(), s.0.ctes.last().name);
                let t = s.1->Ok_0;
                assert(t.subrange(t.len() - u.len(), t.len() as int) =~= u);
            }
        },
        _ => {},
    }
}

/// A scalar subquery has the delta of its input and of the subquery, with the
/// columns of the input and then the value.
pub proof fn scalar_subqueries_add_the_value(env: DiffEnv, st: DiffState, op: OpTree)
    ensures
        op matches OpTree::ScalarSubquery { subquery, alias, child, .. } ==> {
            let b = both(env, st, *child, *subquery);
            let o = engine::tree_diff(env, st, op);
            &&& b.1 matches Err(e) ==> o == (b.0, Err::<Delta, ErrorView>(e))
            &&& b.1 matches Ok((c, s)) ==> {
                &&& adds(b.0, o, 1)
                &&& o.1->Ok_0.columns == c.columns.push(alias@)
                &&& !o.1->Ok_0.is_deduplicated
                &&& added(b.0, o, 0).sql == scalar_subquery::scalar_subquery_text(
                    *subquery,
                    alias@,
                    *child,
                    c,
                    s,
                )
            }
        },
{
    reveal_with_fuel(engine::tree_diff, 1);
    match op {
        OpTree::ScalarSubquery { subquery, alias, child, .. } => {
            let b = both(env, st, *child, *subquery);
            let o = engine::tree_diff(env, st, op);
            if b.1 is Ok {
                assert(o.0.ctes.take(b.0.ctes.len() as int) =~= b.0.ctes);
            }
        },
        _ => {},
    }
}

/// Window functions pass their partitions, what is passed through and the
/// functions on to the expressions for them, over the delta of their input.
pub proof fn windows_take_the_delta_of_their_input(env: DiffEnv, st: DiffState, op: OpTree)
    ensures
        op matches OpTree::Window { window_exprs, partition_by, pass_through, child } ==> {
            let c = engine::tree_diff(env, st, *child);
            let o = engine::tree_diff(env, st, op);
            let pt = parser::pass_through_names(pass_through@);
            &&& c.1 is Err ==> o == c
            &&& c.1 matches Ok(d) ==> {
                &&& adds(c.0, o, 5)
                &&& o.1->Ok_0.columns == pt + parser::window_names(window_exprs@)
                &&& !o.1->Ok_0.is_deduplicated
                &&& partition_by@.len() == 0 ==> added(c.0, o, 0).sql == window::any_change_sql(
                    d.cte_name,
                )
                &&& partition_by@.len() > 0 ==> added(c.0, o, 0).sql
                    == window::changed_parts_sql(
                    diff::cols_text(parser::sql_all(parser::expr_views(partition_by@))),
                    d.cte_name,
                )
            }
        },
{
    reveal_with_fuel(engine::tree_diff, 1);
    match op {
        OpTree::Window { window_exprs, partition_by, pass_through, child } => {
            let c = engine::tree_diff(env, st, *child);
            let o = engine::tree_diff(env, st, op);
            if c.1 is Ok {
                assert(o.0.ctes.take(c.0.ctes.len() as int) =~= c.0.ctes);
            }
        },
        _ => {},
    }
}

// ── Scans ──────────────────────────────────────────────────────────────

/// A scan reads the changes of its own table within the interval, with one
/// change or several for a key; its net effect, deduplicated or not as asked
/// for, has the columns of the table.
pub proof fn scans_read_the_changes_of_their_table(env: DiffEnv, st: DiffState, op: OpTree)
    ensures
        op matches OpTree::Scan { table_oid, columns, pk_columns, .. } ==> {
            let o = engine::tree_diff(env, st, op);
            let cols = parser::column_names(columns@);
            let table = env.change_table(table_oid);
            let interval = scan::lsn_filter_sql(env.prev_lsn(table_oid), env.new_lsn(table_oid));
            let hash = scan::old_key_hash(scan::key_columns(pk_columns@, columns@));
            let values = text::join(scan::value_refs(cols), ",\n       "@);
            let old_cols = text::join(scan::value_cols("old_"@, cols), ",\n       "@);
            let new_cols = text::join(scan::value_cols("new_"@, cols), ",\n       "@);
            &&& adds(st, o, 5)
            &&& o.1->Ok_0.columns == cols
            &&& o.1->Ok_0.is_deduplicated == env.merge_safe_dedup
            &&& added(st, o, 0).sql == scan::pk_stats_sql(table, interval)
            &&& added(st, o, 1).sql == scan::single_sql(
                hash,
                values,
                table,
                added(st, o, 0).name,
                interval,
            )
            &&& added(st, o, 2).sql == scan::multi_sql(
                hash,
                values,
                table,
                added(st, o, 0).name,
                interval,
            )
            &&& added(st, o, 3).sql == scan::raw_sql(added(st, o, 1).name, added(st, o, 2).name)
            &&& env.merge_safe_dedup ==> added(st, o, 4).sql == scan::dedup_sql(
                old_cols,
                added(st, o, 3).name,
                new_cols,
            )
            &&& !env.merge_safe_dedup ==> added(st, o, 4).sql == scan::pairs_sql(
                old_cols,
                added(st, o, 3).name,
                new_cols,
            )
        },
{
    reveal_with_fuel(engine::tree_diff, 1);
    if op is Scan {
        let o = engine::tree_diff(env, st, op);
        assert(o.0.ctes.take(st.ctes.len() as int) =~= st.ctes);
    }
}

// ── References ─────────────────────────────────────────────────────────

/// A reference has the delta that is recorded for what it refers to; where
/// none is, that of the body, which is recorded; and fails where nothing is
/// registered.
pub proof fn references_have_the_delta_of_what_they_refer_to(
    env: DiffEnv,
    st: DiffState,
    op: OpTree,
)
    requires
        env.cte_registry.acyclic(),
    ensures
        op matches OpTree::CteScan { cte_id, alias, cte_def_aliases, column_aliases, .. } ==> {
            let o = engine::tree_diff(env, st, op);
            let own = text::texts(column_aliases@);
            let defined = text::texts(cte_def_aliases@);
            let known = diff::recorded(st.deltas, cte_id);
            let body = env.cte_registry.entries@[cte_id as int].1;
            let b = engine::tree_diff(env, st, body);
            &&& known matches Some(d) ==> o == cte_scan::cte_scan_outcome(
                st,
                alias@,
                own,
                defined,
                d,
            )
            &&& known is None && cte_id >= env.cte_registry.entries@.len() ==> o.0 == st
                && o.1 is Err && o.1->Err_0 is InternalError
            &&& known is None && cte_id < env.cte_registry.entries@.len() && b.1 is Err ==> o == b
            &&& known is None && cte_id < env.cte_registry.entries@.len() ==> (b.1 matches Ok(d)
                ==> o == cte_scan::cte_scan_outcome(
                DiffState { deltas: b.0.deltas.push((cte_id, d)), ..b.0 },
                alias@,
                own,
                defined,
                d,
            ))
        },
{
    reveal_with_fuel(engine::tree_diff, 1);
}

/// Operators that have no delta are refused, by their kind, and change
/// nothing.
pub proof fn other_operators_are_refused(env: DiffEnv, st: DiffState, op: OpTree)
    requires
        op is Project || op is Aggregate || op is Subquery || op is RecursiveSelfRef,
    ensures
        engine::tree_diff(env, st, op) == (
            st,
            Err::<Delta, ErrorView>(ErrorView::UnsupportedOperator(op.spec_kind())),
        ),
{
    reveal_with_fuel(engine::tree_diff, 1);
}

// ── Chains as queries ──────────────────────────────────────────────────

/// A query defines every expression of its chain before it reads the last, and
/// is recursive where one of them is; without a chain it only reads.
pub proof fn queries_define_their_chain(ctes: Seq<CteView>, name: Seq<char>, i: int)
    ensures
        text::ends(diff::with_query(ctes, name), "SELECT * FROM "@ + name),
        ctes.len() == 0 ==> diff::with_query(ctes, name) == "SELECT * FROM "@ + name,
        0 <= i < ctes.len() ==> text::occurs(diff::with_query(ctes, name), ctes[i].definition()),
        0 <= i < ctes.len() && ctes[i].kind == CteKind::Recursive ==> text::begins(
            diff::with_query(ctes, name),
            "WITH RECURSIVE "@,
        ),
        ctes.len() > 0 && (forall|k: int|
            0 <= k < ctes.len() ==> (#[trigger] ctes[k]).kind != CteKind::Recursive)
            ==> text::begins(
            diff::with_query(ctes, name),
            "WITH "@ + text::join(diff::definitions(ctes), ",\n"@),
        ),
{
    let s = "SELECT * FROM "@ + name;
    let t = diff::with_query(ctes, name);
    assert(t.subrange(t.len() - s.len(), t.len() as int) =~= s);
    if ctes.len() > 0 {
        let d = text::join(diff::definitions(ctes), ",\n"@);
        let w = if diff::any_recursive(ctes) {
            "WITH RECURSIVE "@
        } else {
            "WITH "@
        };
        assert(t =~= w + d + ("\n"@ + s));
        text_laws::parts_of_a_text_occur_in_it(w, d, "\n"@ + s);
        assert(t.subrange(0, w.len() as int) =~= w);
        assert(t.subrange(0, (w + d).len() as int) =~= w + d);
        if 0 <= i < ctes.len() {
            crate::dvm::operator_laws::joined_parts_occur(diff::definitions(ctes), ",\n"@, i);
            occurs_within(t, d, ctes[i].definition());
        }
    }
}

/// A definition has the name and the query of its expression, and is
/// materialized where it is marked so.
pub proof fn definitions_have_name_and_query(c: CteView)
    ensures
        text::begins(c.definition(), c.name + " AS "@),
        text::ends(c.definition(), "(\n"@ + c.sql + "\n)"@),
        c.kind == CteKind::Materialized ==> text::begins(
            c.definition(),
            c.name + " AS MATERIALIZED "@,
        ),
        c.kind != CteKind::Materialized ==> text::begins(c.definition(), c.name + " AS (\n"@),
{
    reveal_strlit(" AS ");
    reveal_strlit("(\n");
    reveal_strlit(" AS (\n");
    reveal_strlit(" AS MATERIALIZED ");
    reveal_strlit(" AS MATERIALIZED (\n");
    let t = c.definition();
    let a = c.name + " AS "@;
    assert(t.subrange(0, a.len() as int) =~= a);
    let b = "(\n"@ + c.sql + "\n)"@;
    assert(t.subrange(t.len() - b.len(), t.len() as int) =~= b);
    if c.kind == CteKind::Materialized {
        let m = c.name + " AS MATERIALIZED "@;
        assert(t.subrange(0, m.len() as int) =~= m);
    } else {
        let m = c.name + " AS (\n"@;
        assert(t.subrange(0, m.len() as int) =~= m);
    }
}

} // verus!
