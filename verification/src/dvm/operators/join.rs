//! Inner joins.
//!
//! `Δ(L ⋈ R) = (ΔL ⋈ R₁) + (L₀ ⋈ ΔR)`, where `R₁` is the current right input
//! and `L₀` the left input before the changes: the current one without the
//! rows inserted and with the rows deleted.  Taking `L₀` keeps rows that
//! changed on both sides from being counted twice.
//!
//! Where the condition has equalities between plain tables, the side that is
//! read in full is restricted to rows whose keys occur in the delta of the
//! other side.  For a left input that is a join itself the current rows stand
//! in for `L₀`, which would cost a set difference over the whole join.

use vstd::prelude::*;
use vstd::string::*;

use crate::dvm::diff;
use crate::dvm::diff::{col_list, names_on_side, quote_ident, rename_cols};
use crate::dvm::diff::{Delta, DiffContext, DiffEnv, DiffResult, DiffState, Outcome};
use crate::dvm::engine;
use crate::dvm::operators::join_common;
use crate::dvm::operators::join_common::{build_base_table_key_exprs, build_snapshot_sql};
use crate::dvm::operators::join_common::{is_simple_child, rewrite_join_condition};
use crate::dvm::parser::{both, Expr, ExprView, OpTree};
use crate::error::{ErrorView, PgTrickleError};
use crate::sql_builder;
use crate::text;
use crate::text::{eq_ignore_case, join_texts, text_eq};

verus! {

// ── Equality keys ──────────────────────────────────────────────────────

/// Which side of the join is filtered.
#[derive(Debug, Clone, Copy, PartialEq, Eq, Structural)]
pub enum JoinSide {
    /// The left table, by keys of the right delta.
    Left,
    /// The right table, by keys of the left delta.
    Right,
}

/// An equality of a condition: the text of its left and of its right side.
pub type EquiKeyPair = (String, String);

/// The equalities of a condition, through its conjunctions, without table
/// aliases.
pub open spec fn equi_keys(e: ExprView) -> join_common::KeyTexts
    decreases e,
{
    match e {
        ExprView::BinaryOp { op, left, right } => {
            if op == "="@ {
                seq![(left.stripped().sql(), right.stripped().sql())]
            } else if join_common::is_and(op) {
                equi_keys(*left) + equi_keys(*right)
            } else {
                Seq::empty()
            }
        },
        _ => Seq::empty(),
    }
}

/// The equalities of a join condition.
///
/// Walks through conjunctions.  Anything else has no keys, and is then joined
/// without a filter.
pub fn extract_equijoin_keys(condition: &Expr) -> (r: Vec<EquiKeyPair>)
    ensures
        join_common::key_texts(r@) == equi_keys(condition@),
{
    let mut keys: Vec<EquiKeyPair> = Vec::new();
    assert(join_common::key_texts(keys@) =~= Seq::empty());
    collect_equijoin_keys(condition, &mut keys);
    assert(Seq::<(Seq<char>, Seq<char>)>::empty() + equi_keys(condition@) =~= equi_keys(
        condition@,
    ));
    keys
}

/// Adds the equalities of an expression to a list.
///
/// Table aliases are taken off: the keys stand in subqueries in which these
/// are not in scope.
fn collect_equijoin_keys(expr: &Expr, keys: &mut Vec<EquiKeyPair>)
    ensures
        join_common::key_texts(final(keys)@) == join_common::key_texts(old(keys)@) + equi_keys(
            expr@,
        ),
    decreases expr,
{
    let ghost before = keys@;
    match expr {
        Expr::BinaryOp { op, left, right } => {
            if text_eq(op.as_str(), "=") {
                keys.push((left.strip_qualifier().to_sql(), right.strip_qualifier().to_sql()));
                assert(join_common::key_texts(keys@) =~= join_common::key_texts(before)
                    + equi_keys(expr@));
            } else if eq_ignore_case(op.as_str(), "AND") {
                collect_equijoin_keys(left, keys);
                collect_equijoin_keys(right, keys);
                assert(join_common::key_texts(keys@) =~= join_common::key_texts(before)
                    + equi_keys(expr@));
            } else {
                assert(join_common::key_texts(keys@) =~= join_common::key_texts(before)
                    + equi_keys(expr@));
            }
        },
        _ => {
            assert(join_common::key_texts(keys@) =~= join_common::key_texts(before) + equi_keys(
                expr@,
            ));
        },
    }
}

/// Keys of one side among those of a delta, for each equality.
pub open spec fn key_filters(
    keys: join_common::KeyTexts,
    delta: Seq<char>,
    side: JoinSide,
) -> Seq<Seq<char>> {
    Seq::new(
        keys.len(),
        |i: int|
            match side {
                JoinSide::Left => key_filter_sql(keys[i].0, keys[i].1, delta),
                JoinSide::Right => key_filter_sql(keys[i].1, keys[i].0, delta),
            },
    )
}

/// A table restricted to rows whose keys occur in a delta; the table itself
/// where there are no keys.
pub open spec fn semijoin_subquery(
    base: Seq<char>,
    keys: join_common::KeyTexts,
    delta: Seq<char>,
    side: JoinSide,
) -> Seq<char> {
    if keys.len() == 0 {
        base
    } else {
        filtered_sql(base, text::join(key_filters(keys, delta, side), " AND "@))
    }
}

/// A key among the keys of a delta.
pub open spec fn key_filter_sql(key: Seq<char>, other: Seq<char>, delta: Seq<char>) -> Seq<char> {
    key + " IN (SELECT DISTINCT "@ + other + " FROM "@ + delta + ")"@
}

/// A key among the keys of a delta.
fn key_filter_query(key: &str, other: &str, delta: &str) -> (r: String)
    ensures
        r@ == key_filter_sql(key@, other@, delta@),
{
    let mut r = key.to_string();
    r.append(" IN (SELECT DISTINCT ");
    r.append(other);
    r.append(" FROM ");
    r.append(delta);
    r.append(")");
    r
}

/// A table restricted by filters.
pub open spec fn filtered_sql(base: Seq<char>, filters: Seq<char>) -> Seq<char> {
    "(SELECT * FROM "@ + base + " WHERE "@ + filters + ")"@
}

/// A table restricted by filters.
fn filtered_query(base: &str, filters: &str) -> (r: String)
    ensures
        r@ == filtered_sql(base@, filters@),
{
    let mut r = "(SELECT * FROM ".to_string();
    r.append(base);
    r.append(" WHERE ");
    r.append(filters);
    r.append(")");
    r
}

/// Keys of one side among those of a delta, for each equality.
fn build_key_filters(keys: &[EquiKeyPair], delta: &str, side: JoinSide) -> (r: Vec<String>)
    ensures
        text::texts(r@) == key_filters(join_common::key_texts(keys@), delta@, side),
{
    let mut r: Vec<String> = Vec::new();
    let mut i: usize = 0;
    while i < keys.len()
        invariant
            i <= keys@.len(),
            r@.len() == i,
            forall|k: int|
                0 <= k < i ==> (#[trigger] r@[k])@ == (match side {
                    JoinSide::Left => key_filter_sql(keys@[k].0@, keys@[k].1@, delta@),
                    JoinSide::Right => key_filter_sql(keys@[k].1@, keys@[k].0@, delta@),
                }),
        decreases keys@.len() - i,
    {
        let part = match side {
            JoinSide::Left => key_filter_query(keys[i].0.as_str(), keys[i].1.as_str(), delta),
            JoinSide::Right => key_filter_query(keys[i].1.as_str(), keys[i].0.as_str(), delta),
        };
        r.push(part);
        i += 1;
    }
    assert(text::texts(r@) =~= key_filters(join_common::key_texts(keys@), delta@, side));
    r
}

/// Restricts a table to rows whose keys occur in a delta.
pub fn build_semijoin_subquery(
    base_table: &str,
    equi_keys: &[EquiKeyPair],
    delta_cte: &str,
    side: JoinSide,
) -> (r: String)
    ensures
        r@ == semijoin_subquery(
            base_table@,
            join_common::key_texts(equi_keys@),
            delta_cte@,
            side,
        ),
{
    if equi_keys.len() == 0 {
        base_table.to_string()
    } else {
        let filters = build_key_filters(equi_keys, delta_cte, side);
        filtered_query(base_table, join_texts(&filters, " AND ").as_str())
    }
}

// ── Queries ────────────────────────────────────────────────────────────

/// The rows of a table before the changes of a delta.
pub open spec fn before_changes_sql(
    cols: Seq<char>,
    table: Seq<char>,
    alias: Seq<char>,
    delta: Seq<char>,
) -> Seq<char> {
    "(SELECT "@ + cols + " FROM "@ + table + " "@ + alias + " EXCEPT ALL SELECT "@ + cols
        + " FROM "@ + delta + " WHERE __pgs_action = 'I' UNION ALL SELECT "@ + cols + " FROM "@
        + delta + " WHERE __pgs_action = 'D')"@
}

/// The rows of a table before the changes of a delta.
fn before_changes_query(cols: &str, table: &str, alias: &str, delta: &str) -> (r: String)
    ensures
        r@ == before_changes_sql(cols@, table@, alias@, delta@),
{
    let mut r = "(SELECT ".to_string();
    r.append(cols);
    r.append(" FROM ");
    r.append(table);
    r.append(" ");
    r.append(alias);
    r.append(" EXCEPT ALL SELECT ");
    r.append(cols);
    r.append(" FROM ");
    r.append(delta);
    r.append(" WHERE __pgs_action = 'I' UNION ALL SELECT ");
    r.append(cols);
    r.append(" FROM ");
    r.append(delta);
    r.append(" WHERE __pgs_action = 'D')");
    r
}

/// Rows before the changes, restricted by filters.
pub open spec fn filtered_before_sql(base: Seq<char>, filters: Seq<char>) -> Seq<char> {
    "(SELECT * FROM "@ + base + " __l0 WHERE "@ + filters + ")"@
}

/// Rows before the changes, restricted by filters.
fn filtered_before_query(base: &str, filters: &str) -> (r: String)
    ensures
        r@ == filtered_before_sql(base@, filters@),
{
    let mut r = "(SELECT * FROM ".to_string();
    r.append(base);
    r.append(" __l0 WHERE ");
    r.append(filters);
    r.append(")");
    r
}

/// The identifier of a joined row.
pub open spec fn row_hash_sql(args: Seq<char>) -> Seq<char> {
    "pgstream.pg_stream_hash_multi(ARRAY["@ + args + "])"@
}

/// The identifier of a joined row.
fn row_hash_query(args: &str) -> (r: String)
    ensures
        r@ == row_hash_sql(args@),
{
    let mut r = "pgstream.pg_stream_hash_multi(ARRAY[".to_string();
    r.append(args);
    r.append("])");
    r
}

/// The delta of an inner join.
pub open spec fn inner_join_sql(
    hash1: Seq<char>,
    cols1: Seq<char>,
    delta_left: Seq<char>,
    right_source: Seq<char>,
    cond1: Seq<char>,
    hash2: Seq<char>,
    cols2: Seq<char>,
    left_source: Seq<char>,
    delta_right: Seq<char>,
    cond2: Seq<char>,
) -> Seq<char> {
    "-- Part 1: delta_left JOIN current_right (semi-join filtered)\n\
        SELECT "@ + hash1 + " AS __pgs_row_id,\n       \
        dl.__pgs_action,\n       "@ + cols1 + "\n\
        FROM "@ + delta_left + " dl\n\
        JOIN "@ + right_source + " r ON "@ + cond1 + "\n\n\
        UNION ALL\n\n\
        -- Part 2: pre-change_left JOIN delta_right\n\
        -- For Scan children: L₀ = L_current EXCEPT ALL Δ_inserts UNION ALL Δ_deletes\n\
        -- For nested joins: L₁ = current snapshot (semi-join filtered)\n\
        SELECT "@ + hash2 + " AS __pgs_row_id,\n       \
        dr.__pgs_action,\n       "@ + cols2 + "\n\
        FROM "@ + left_source + " l\n\
        JOIN "@ + delta_right + " dr ON "@ + cond2
}

/// The delta of an inner join.
fn inner_join_query(
    hash1: &str,
    cols1: &str,
    delta_left: &str,
    right_source: &str,
    cond1: &str,
    hash2: &str,
    cols2: &str,
    left_source: &str,
    delta_right: &str,
    cond2: &str,
) -> (r: String)
    ensures
        r@ == inner_join_sql(
            hash1@,
            cols1@,
            delta_left@,
            right_source@,
            cond1@,
            hash2@,
            cols2@,
            left_source@,
            delta_right@,
            cond2@,
        ),
{
    let mut r = "-- Part 1: delta_left JOIN current_right (semi-join filtered)\n\
        SELECT ".to_string();
    r.append(hash1);
    r.append(" AS __pgs_row_id,\n       \
        dl.__pgs_action,\n       ");
    r.append(cols1);
    r.append("\n\
        FROM ");
    r.append(delta_left);
    r.append(" dl\n\
        JOIN ");
    r.append(right_source);
    r.append(" r ON ");
    r.append(cond1);
    r.append("\n\n\
        UNION ALL\n\n\
        -- Part 2: pre-change_left JOIN delta_right\n\
        -- For Scan children: L₀ = L_current EXCEPT ALL Δ_inserts UNION ALL Δ_deletes\n\
        -- For nested joins: L₁ = current snapshot (semi-join filtered)\n\
        SELECT ");
    r.append(hash2);
    r.append(" AS __pgs_row_id,\n       \
        dr.__pgs_action,\n       ");
    r.append(cols2);
    r.append("\n\
        FROM ");
    r.append(left_source);
    r.append(" l\n\
        JOIN ");
    r.append(delta_right);
    r.append(" dr ON ");
    r.append(cond2);
    r
}

// ── Differentiation ────────────────────────────────────────────────────

/// The equalities by which a join filters: those of its condition where both
/// inputs are plain tables.
pub open spec fn filter_keys(
    condition: ExprView,
    left: OpTree,
    right: OpTree,
) -> join_common::KeyTexts {
    if join_common::simple_child(left) && join_common::simple_child(right) {
        equi_keys(condition)
    } else {
        Seq::empty()
    }
}

/// The left rows that are joined with the right delta.
pub open spec fn left_source(
    left: OpTree,
    l: Delta,
    r: Delta,
    keys: join_common::KeyTexts,
) -> Seq<char> {
    if join_common::simple_child(left) {
        let before = before_changes_sql(
            diff::cols_text(l.columns),
            join_common::snapshot_sql(left),
            sql_builder::ident_text(left.spec_alias()),
            l.cte_name,
        );
        if keys.len() == 0 {
            before
        } else {
            filtered_before_sql(
                before,
                text::join(key_filters(keys, r.cte_name, JoinSide::Left), " AND "@),
            )
        }
    } else {
        semijoin_subquery(join_common::snapshot_sql(left), keys, r.cte_name, JoinSide::Left)
    }
}

/// The query of an inner join over the deltas of its inputs.
#[verifier::opaque]
pub open spec fn inner_join_text(
    condition: ExprView,
    left: OpTree,
    right: OpTree,
    l: Delta,
    r: Delta,
) -> Seq<char> {
    let keys = filter_keys(condition, left, right);
    inner_join_sql(
        row_hash_sql(
            text::join(
                seq!["dl.__pgs_row_id::TEXT"@] + join_common::base_keys(right, "r"@),
                ", "@,
            ),
        ),
        text::join(
            diff::renamed("dl."@, l.columns, left.spec_alias()) + diff::renamed(
                "r."@,
                r.columns,
                right.spec_alias(),
            ),
            ", "@,
        ),
        l.cte_name,
        semijoin_subquery(
            join_common::snapshot_sql(right),
            keys,
            l.cte_name,
            JoinSide::Right,
        ),
        join_common::condition_sql(condition, left, "dl"@, right, "r"@),
        row_hash_sql(
            text::join(
                join_common::base_keys(left, "l"@).push("dr.__pgs_row_id::TEXT"@),
                ", "@,
            ),
        ),
        text::join(
            diff::renamed("l."@, l.columns, left.spec_alias()) + diff::renamed(
                "dr."@,
                r.columns,
                right.spec_alias(),
            ),
            ", "@,
        ),
        left_source(left, l, r, keys),
        r.cte_name,
        join_common::condition_sql(condition, left, "l"@, right, "dr"@),
    )
}

/// The columns of a join: those of the left input, then those of the right,
/// each under the name that the join gives it.
pub open spec fn joined_columns(left: OpTree, right: OpTree, l: Delta, r: Delta) -> Seq<
    Seq<char>,
> {
    diff::side_names(left.spec_alias(), l.columns) + diff::side_names(
        right.spec_alias(),
        r.columns,
    )
}

/// The outcome of an inner join over the deltas of its inputs.
pub open spec fn inner_join_outcome(
    st: DiffState,
    condition: ExprView,
    left: OpTree,
    right: OpTree,
    l: Delta,
    r: Delta,
) -> Outcome {
    (
        st.step("join"@, inner_join_text(condition, left, right, l, r)),
        Ok(
            Delta {
                cte_name: st.fresh("join"@),
                columns: joined_columns(left, right, l, r),
                is_deduplicated: false,
            },
        ),
    )
}

/// The outcome of differentiating an operator as an inner join.
pub open spec fn inner_join_diff(env: DiffEnv, st: DiffState, op: OpTree) -> Outcome
    decreases env.cte_registry.depth(op), op, 0nat,
{
    match op {
        OpTree::InnerJoin { condition, left, right } => match engine::tree_diff(env, st, *left) {
            (st1, Ok(l)) => match engine::tree_diff(env, st1, *right) {
                (st2, Ok(r)) => inner_join_outcome(st2, condition@, *left, *right, l, r),
                (st2, Err(e)) => (st2, Err(e)),
            },
            (st1, Err(e)) => (st1, Err(e)),
        },
        _ => (st, Err(ErrorView::InternalError("diff_inner_join called on non-InnerJoin node"@))),
    }
}

/// The left rows that are joined with the right delta.
fn build_left_source(
    left: &OpTree,
    l: &DiffResult,
    r: &DiffResult,
    keys: &Vec<EquiKeyPair>,
) -> (s: String)
    ensures
        s@ == left_source(*left, l@, r@, join_common::key_texts(keys@)),
{
    let left_table = build_snapshot_sql(left);
    if is_simple_child(left) {
        let before = before_changes_query(
            col_list(l.columns.as_slice()).as_str(),
            left_table.as_str(),
            quote_ident(left.alias()).as_str(),
            l.cte_name.as_str(),
        );
        if keys.len() == 0 {
            before
        } else {
            let filters = build_key_filters(
                keys.as_slice(),
                r.cte_name.as_str(),
                JoinSide::Left,
            );
            filtered_before_query(before.as_str(), join_texts(&filters, " AND ").as_str())
        }
    } else {
        build_semijoin_subquery(
            left_table.as_str(),
            keys.as_slice(),
            r.cte_name.as_str(),
            JoinSide::Left,
        )
    }
}

/// The query of an inner join over the deltas of its inputs.
fn build_inner_join(
    condition: &Expr,
    left: &OpTree,
    right: &OpTree,
    l: &DiffResult,
    r: &DiffResult,
) -> (s: String)
    ensures
        s@ == inner_join_text(condition@, *left, *right, l@, r@),
{
    proof {
        reveal(inner_join_text);
    }
    let left_prefix = left.alias();
    let right_prefix = right.alias();
    let cols1 = both(
        rename_cols("dl.", &l.columns, left_prefix),
        rename_cols("r.", &r.columns, right_prefix),
    );
    let cols2 = both(
        rename_cols("l.", &l.columns, left_prefix),
        rename_cols("dr.", &r.columns, right_prefix),
    );

    let mut own1: Vec<String> = Vec::new();
    own1.push("dl.__pgs_row_id::TEXT".to_string());
    assert(text::texts(own1@) =~= seq!["dl.__pgs_row_id::TEXT"@]);
    let args1 = both(own1, build_base_table_key_exprs(right, "r"));
    let mut args2 = build_base_table_key_exprs(left, "l");
    let ghost own2 = args2@;
    args2.push("dr.__pgs_row_id::TEXT".to_string());
    assert(text::texts(args2@) =~= text::texts(own2).push("dr.__pgs_row_id::TEXT"@));

    let keys = if is_simple_child(left) && is_simple_child(right) {
        extract_equijoin_keys(condition)
    } else {
        let none: Vec<EquiKeyPair> = Vec::new();
        assert(join_common::key_texts(none@) =~= Seq::empty());
        none
    };
    let right_source = build_semijoin_subquery(
        build_snapshot_sql(right).as_str(),
        keys.as_slice(),
        l.cte_name.as_str(),
        JoinSide::Right,
    );
    inner_join_query(
        row_hash_query(join_texts(&args1, ", ").as_str()).as_str(),
        join_texts(&cols1, ", ").as_str(),
        l.cte_name.as_str(),
        right_source.as_str(),
        rewrite_join_condition(condition, left, "dl", right, "r").as_str(),
        row_hash_query(join_texts(&args2, ", ").as_str()).as_str(),
        join_texts(&cols2, ", ").as_str(),
        build_left_source(left, l, r, &keys).as_str(),
        r.cte_name.as_str(),
        rewrite_join_condition(condition, left, "l", right, "dr").as_str(),
    )
}

/// Adds an inner join over the deltas of its inputs to the chain.
fn add_inner_join(
    ctx: &mut DiffContext,
    condition: &Expr,
    left: &OpTree,
    right: &OpTree,
    l: DiffResult,
    r: DiffResult,
) -> (d: DiffResult)
    ensures
        final(ctx).env() == old(ctx).env(),
        diff::yields(*final(ctx), Ok(d), inner_join_outcome(
            old(ctx).state(),
            condition@,
            *left,
            *right,
            l@,
            r@,
        )),
{
    let sql = build_inner_join(condition, left, right, &l, &r);
    let columns = both(
        names_on_side(left.alias(), &l.columns),
        names_on_side(right.alias(), &r.columns),
    );
    let cte_name = ctx.next_cte_name("join");
    ctx.add_cte(cte_name.clone(), sql);
    DiffResult { cte_name, columns, is_deduplicated: false }
}

/// Differentiates an inner join.
///
/// Columns come out under the alias of the side they come from, so that the
/// two sides may have columns of the same name.
pub fn diff_inner_join(ctx: &mut DiffContext, op: &OpTree) -> (r: Result<
    DiffResult,
    PgTrickleError,
>)
    requires
        old(ctx).env().cte_registry.acyclic(),
    ensures
        final(ctx).env() == old(ctx).env(),
        diff::yields(
            *final(ctx),
            r,
            inner_join_diff(old(ctx).env(), old(ctx).state(), *op),
        ),
    decreases old(ctx).env().cte_registry.depth(*op), op, 0nat,
{
    match op {
        OpTree::InnerJoin { condition, left, right } => {
            let l = match ctx.diff_node(left) {
                Ok(d) => d,
                Err(e) => {
                    return Err(e);
                },
            };
            let r = match ctx.diff_node(right) {
                Ok(d) => d,
                Err(e) => {
                    return Err(e);
                },
            };
            Ok(add_inner_join(ctx, condition, left, right, l, r))
        },
        _ => Err(
            PgTrickleError::InternalError(
                "diff_inner_join called on non-InnerJoin node".to_string(),
            ),
        ),
    }
}

// ── What the queries say ───────────────────────────────────────────────

/// The rows before the changes are the current ones without those inserted and
/// with those deleted.
pub proof fn rows_before_are_current_ones_without_the_changes(
    cols: Seq<char>,
    table: Seq<char>,
    alias: Seq<char>,
    delta: Seq<char>,
)
    ensures
        ({
            let t = before_changes_sql(cols, table, alias, delta);
            &&& text::occurs(
                t,
                "FROM "@ + table + " "@ + alias + " EXCEPT ALL SELECT "@ + cols + " FROM "@ + delta
                    + " WHERE __pgs_action = 'I' UNION ALL SELECT "@ + cols + " FROM "@ + delta
                    + " WHERE __pgs_action = 'D'"@,
            )
        }),
{
    reveal_strlit(" ");
    reveal_strlit("FROM ");
    reveal_strlit(" FROM ");
    reveal_strlit("(SELECT ");
    reveal_strlit(" EXCEPT ALL SELECT ");
    reveal_strlit(" WHERE __pgs_action = 'D'");
    reveal_strlit(" WHERE __pgs_action = 'D')");
    reveal_strlit(" WHERE __pgs_action = 'I' UNION ALL SELECT ");
    let t = before_changes_sql(cols, table, alias, delta);
    let f0 = "FROM "@ + table + " "@ + alias + " EXCEPT ALL SELECT "@ + cols + " FROM "@ + delta
        + " WHERE __pgs_action = 'I' UNION ALL SELECT "@ + cols + " FROM "@ + delta
        + " WHERE __pgs_action = 'D'"@;
    let k0 = 9int + cols.len();
    assert(t.subrange(k0, k0 + f0.len()) =~= f0);
    assert(text::occurs_at(t, f0, k0));
}

/// A table is restricted by the filters.
pub proof fn rows_are_restricted_by_filters(
    base: Seq<char>,
    filters: Seq<char>,
)
    ensures
        ({
            let t = filtered_sql(base, filters);
            &&& text::occurs(
                t,
                "(SELECT * FROM "@ + base + " WHERE "@ + filters + ")"@,
            )
        }),
{
    reveal_strlit(")");
    reveal_strlit(" WHERE ");
    reveal_strlit("(SELECT * FROM ");
    let t = filtered_sql(base, filters);
    let f0 = "(SELECT * FROM "@ + base + " WHERE "@ + filters + ")"@;
    let k0 = 0int;
    assert(t.subrange(k0, k0 + f0.len()) =~= f0);
    assert(text::occurs_at(t, f0, k0));
}

/// The rows before the changes are restricted by the filters.
pub proof fn rows_before_are_restricted_by_filters(
    base: Seq<char>,
    filters: Seq<char>,
)
    ensures
        ({
            let t = filtered_before_sql(base, filters);
            &&& text::occurs(
                t,
                "FROM "@ + base + " __l0 WHERE "@ + filters + ")"@,
            )
        }),
{
    reveal_strlit(")");
    reveal_strlit("FROM ");
    reveal_strlit(" __l0 WHERE ");
    reveal_strlit("(SELECT * FROM ");
    let t = filtered_before_sql(base, filters);
    let f0 = "FROM "@ + base + " __l0 WHERE "@ + filters + ")"@;
    let k0 = 10int;
    assert(t.subrange(k0, k0 + f0.len()) =~= f0);
    assert(text::occurs_at(t, f0, k0));
}

/// A joined row has the action of the changed row that it is made of.
pub proof fn joined_changes_have_the_action_of_the_change(
    hash1: Seq<char>,
    cols1: Seq<char>,
    delta_left: Seq<char>,
    right_source: Seq<char>,
    cond1: Seq<char>,
    hash2: Seq<char>,
    cols2: Seq<char>,
    left_source: Seq<char>,
    delta_right: Seq<char>,
    cond2: Seq<char>,
)
    ensures
        ({
            let t = inner_join_sql(
                hash1,
                cols1,
                delta_left,
                right_source,
                cond1,
                hash2,
                cols2,
                left_source,
                delta_right,
                cond2,
            );
            &&& text::occurs(
                t,
                "SELECT "@ + hash1 + " AS __pgs_row_id,\n       dl.__pgs_action,\n       "@ + cols1
                    + "\nFROM "@ + delta_left + " dl\n"@,
            )
            &&& text::occurs(
                t,
                "SELECT "@ + hash2 + " AS __pgs_row_id,\n       dr.__pgs_action,\n       "@ + cols2
                    + "\nFROM "@ + left_source + " l\n"@,
            )
        }),
{
    reveal_strlit(" l\n");
    reveal_strlit(" dl\n");
    reveal_strlit("\nFROM ");
    reveal_strlit(" r ON ");
    reveal_strlit(" dr ON ");
    reveal_strlit("SELECT ");
    reveal_strlit(" l\nJOIN ");
    reveal_strlit(" dl\nJOIN ");
    reveal_strlit(" AS __pgs_row_id,\n       dl.__pgs_action,\n       ");
    reveal_strlit(" AS __pgs_row_id,\n       dr.__pgs_action,\n       ");
    reveal_strlit("-- Part 1: delta_left JOIN current_right (semi-join filtered)\nSELECT ");
    reveal_strlit("\n\nUNION ALL\n\n-- Part 2: pre-change_left JOIN delta_right\n-- For Scan children: L₀ = L_current EXCEPT ALL Δ_inserts UNION ALL Δ_deletes\n-- For nested joins: L₁ = current snapshot (semi-join filtered)\nSELECT ");
    let t = inner_join_sql(
        hash1,
        cols1,
        delta_left,
        right_source,
        cond1,
        hash2,
        cols2,
        left_source,
        delta_right,
        cond2,
    );
    let f0 = "SELECT "@ + hash1 + " AS __pgs_row_id,\n       dl.__pgs_action,\n       "@ + cols1
        + "\nFROM "@ + delta_left + " dl\n"@;
    let k0 = 62int;
    assert(t.subrange(k0, k0 + f0.len()) =~= f0);
    assert(text::occurs_at(t, f0, k0));
    let f1 = "SELECT "@ + hash2 + " AS __pgs_row_id,\n       dr.__pgs_action,\n       "@ + cols2
        + "\nFROM "@ + left_source + " l\n"@;
    let k1 = 338int + hash1.len() + cols1.len() + delta_left.len() + right_source.len()
        + cond1.len();
    assert(t.subrange(k1, k1 + f1.len()) =~= f1);
    assert(text::occurs_at(t, f1, k1));
}

/// The changes of the left are joined with the right rows, restricted to their
/// keys, and the changes of the right with the left rows, each by the condition
/// of the join for the rows that are joined.
pub proof fn changes_of_each_side_are_joined_with_the_other(
    condition: ExprView,
    left: OpTree,
    right: OpTree,
    l: Delta,
    r: Delta,
)
    ensures
        ({
            let delta_left = l.cte_name;
            let right_source = semijoin_subquery(
                join_common::snapshot_sql(right),
                filter_keys(condition, left, right),
                l.cte_name,
                JoinSide::Right,
            );
            let cond1 = join_common::condition_sql(condition, left, "dl"@, right, "r"@);
            let left_source = left_source(left, l, r, filter_keys(condition, left, right));
            let delta_right = r.cte_name;
            let cond2 = join_common::condition_sql(condition, left, "l"@, right, "dr"@);
            let t = inner_join_text(condition, left, right, l, r);
            &&& text::occurs(
                t,
                "FROM "@ + delta_left + " dl\nJOIN "@ + right_source + " r ON "@ + cond1
                    + "\n\nUNION ALL"@,
            )
            &&& text::occurs(
                t,
                "FROM "@ + left_source + " l\nJOIN "@ + delta_right + " dr ON "@ + cond2,
            )
        }),
{
    reveal(inner_join_text);
    reveal_strlit("FROM ");
    reveal_strlit("\nFROM ");
    reveal_strlit(" r ON ");
    reveal_strlit(" dr ON ");
    reveal_strlit(" l\nJOIN ");
    reveal_strlit(" dl\nJOIN ");
    reveal_strlit("\n\nUNION ALL");
    reveal_strlit(" AS __pgs_row_id,\n       dl.__pgs_action,\n       ");
    reveal_strlit(" AS __pgs_row_id,\n       dr.__pgs_action,\n       ");
    reveal_strlit("-- Part 1: delta_left JOIN current_right (semi-join filtered)\nSELECT ");
    reveal_strlit("\n\nUNION ALL\n\n-- Part 2: pre-change_left JOIN delta_right\n-- For Scan children: L₀ = L_current EXCEPT ALL Δ_inserts UNION ALL Δ_deletes\n-- For nested joins: L₁ = current snapshot (semi-join filtered)\nSELECT ");
    let hash1 = row_hash_sql(
        text::join(seq!["dl.__pgs_row_id::TEXT"@] + join_common::base_keys(right, "r"@), ", "@),
    );
    let cols1 = text::join(
        diff::renamed("dl."@, l.columns, left.spec_alias())
            + diff::renamed("r."@, r.columns, right.spec_alias()),
        ", "@,
    );
    let delta_left = l.cte_name;
    let right_source = semijoin_subquery(
        join_common::snapshot_sql(right),
        filter_keys(condition, left, right),
        l.cte_name,
        JoinSide::Right,
    );
    let cond1 = join_common::condition_sql(condition, left, "dl"@, right, "r"@);
    let hash2 = row_hash_sql(
        text::join(join_common::base_keys(left, "l"@).push("dr.__pgs_row_id::TEXT"@), ", "@),
    );
    let cols2 = text::join(
        diff::renamed("l."@, l.columns, left.spec_alias())
            + diff::renamed("dr."@, r.columns, right.spec_alias()),
        ", "@,
    );
    let left_source = left_source(left, l, r, filter_keys(condition, left, right));
    let delta_right = r.cte_name;
    let cond2 = join_common::condition_sql(condition, left, "l"@, right, "dr"@);
    let t = inner_join_text(condition, left, right, l, r);
    assert(
        t == inner_join_sql(
            hash1,
            cols1,
            delta_left,
            right_source,
            cond1,
            hash2,
            cols2,
            left_source,
            delta_right,
            cond2,
        )
    );
    let f0 = "FROM "@ + delta_left + " dl\nJOIN "@ + right_source + " r ON "@ + cond1
        + "\n\nUNION ALL"@;
    let k0 = 119int + hash1.len() + cols1.len();
    assert(t.subrange(k0, k0 + f0.len()) =~= f0);
    assert(text::occurs_at(t, f0, k0));
    let f1 = "FROM "@ + left_source + " l\nJOIN "@ + delta_right + " dr ON "@ + cond2;
    let k1 = 395int + hash1.len() + cols1.len() + delta_left.len() + right_source.len()
        + cond1.len() + hash2.len() + cols2.len();
    assert(t.subrange(k1, k1 + f1.len()) =~= f1);
    assert(text::occurs_at(t, f1, k1));
}

// ── What the rows are ──────────────────────────────────────────────────

/// The identifier of a joined row is the hash of a list.
pub proof fn a_row_hash_takes_a_list(
    args: Seq<char>,
)
    ensures
        ({
            let t = row_hash_sql(args);
            &&& text::occurs(
                t,
                "pg_stream_hash_multi(ARRAY["@ + args + "])"@,
            )
        }),
{
    reveal_strlit("])");
    reveal_strlit("pg_stream_hash_multi(ARRAY[");
    reveal_strlit("pgstream.pg_stream_hash_multi(ARRAY[");
    let t = row_hash_sql(args);
    let f0 = "pg_stream_hash_multi(ARRAY["@ + args + "])"@;
    let k0 = 9int;
    assert(t.subrange(k0, k0 + f0.len()) =~= f0);
    assert(text::occurs_at(t, f0, k0));
}

/// A key is one of those that the delta has.
pub proof fn a_key_is_one_of_those_of_the_delta(
    key: Seq<char>,
    other: Seq<char>,
    delta: Seq<char>,
)
    ensures
        ({
            let t = key_filter_sql(key, other, delta);
            &&& text::occurs(
                t,
                key + " IN (SELECT DISTINCT "@ + other + " FROM "@ + delta + ")"@,
            )
        }),
{
    reveal_strlit(")");
    reveal_strlit(" FROM ");
    reveal_strlit(" IN (SELECT DISTINCT ");
    let t = key_filter_sql(key, other, delta);
    let f0 = key + " IN (SELECT DISTINCT "@ + other + " FROM "@ + delta + ")"@;
    let k0 = 0int;
    assert(t.subrange(k0, k0 + f0.len()) =~= f0);
    assert(text::occurs_at(t, f0, k0));
}

} // verus!
