//! Scalar subqueries.
//!
//! The subquery gives one value that is put beside every row of the outer
//! input.  A change of the outer input concerns the changed rows only; a change
//! of the value concerns every row, which is deleted with the old value and
//! inserted with the new one.

use vstd::prelude::*;
use vstd::string::*;

use crate::dvm::diff;
use crate::dvm::diff::{col_list, quote_ident, wrap_cols};
use crate::dvm::diff::{Delta, DiffContext, DiffEnv, DiffResult, DiffState, Outcome};
use crate::dvm::engine;
use crate::dvm::operators::join_common;
use crate::dvm::operators::join_common::build_snapshot_sql;
use crate::dvm::parser::OpTree;
use crate::error::{ErrorView, PgTrickleError};
use crate::sql_builder;
use crate::text;
use crate::text::join_texts;

verus! {

// ── Queries ────────────────────────────────────────────────────────────

/// The current value of the subquery.
pub open spec fn value_now_sql(alias: Seq<char>, col: Seq<char>, snapshot: Seq<char>) -> Seq<char> {
    "(SELECT "@ + alias + "."@ + col + " FROM "@ + snapshot + " "@ + alias + " LIMIT 1)"@
}

/// The current value of the subquery.
fn value_now_query(alias: &str, col: &str, snapshot: &str) -> (r: String)
    ensures
        r@ == value_now_sql(alias@, col@, snapshot@),
{
    let mut r = "(SELECT ".to_string();
    r.append(alias);
    r.append(".");
    r.append(col);
    r.append(" FROM ");
    r.append(snapshot);
    r.append(" ");
    r.append(alias);
    r.append(" LIMIT 1)");
    r
}

/// The rows of the subquery before the changes.
pub open spec fn rows_before_sql(
    cols: Seq<char>,
    snapshot: Seq<char>,
    alias: Seq<char>,
    delta: Seq<char>,
) -> Seq<char> {
    "(SELECT "@ + cols + " FROM "@ + snapshot + " "@ + alias + " EXCEPT ALL SELECT "@ + cols
        + " FROM "@ + delta + " WHERE __pgt_action = 'I' UNION ALL SELECT "@ + cols + " FROM "@
        + delta + " WHERE __pgt_action = 'D')"@
}

/// The rows of the subquery before the changes.
fn rows_before_query(cols: &str, snapshot: &str, alias: &str, delta: &str) -> (r: String)
    ensures
        r@ == rows_before_sql(cols@, snapshot@, alias@, delta@),
{
    let mut r = "(SELECT ".to_string();
    r.append(cols);
    r.append(" FROM ");
    r.append(snapshot);
    r.append(" ");
    r.append(alias);
    r.append(" EXCEPT ALL SELECT ");
    r.append(cols);
    r.append(" FROM ");
    r.append(delta);
    r.append(" WHERE __pgt_action = 'I' UNION ALL SELECT ");
    r.append(cols);
    r.append(" FROM ");
    r.append(delta);
    r.append(" WHERE __pgt_action = 'D')");
    r
}

/// The value of the subquery before the changes.
pub open spec fn value_before_sql(col: Seq<char>, rows: Seq<char>) -> Seq<char> {
    "(SELECT "@ + col + " FROM "@ + rows + " sq_old LIMIT 1)"@
}

/// The value of the subquery before the changes.
fn value_before_query(col: &str, rows: &str) -> (r: String)
    ensures
        r@ == value_before_sql(col@, rows@),
{
    let mut r = "(SELECT ".to_string();
    r.append(col);
    r.append(" FROM ");
    r.append(rows);
    r.append(" sq_old LIMIT 1)");
    r
}

/// The identifier of an outer row.
pub open spec fn row_hash_sql(args: Seq<char>) -> Seq<char> {
    "pgtrickle.pg_trickle_hash_multi(ARRAY["@ + args + "])"@
}

/// The identifier of an outer row.
fn row_hash_query(args: &str) -> (r: String)
    ensures
        r@ == row_hash_sql(args@),
{
    let mut r = "pgtrickle.pg_trickle_hash_multi(ARRAY[".to_string();
    r.append(args);
    r.append("])");
    r
}

/// Changed rows of the input with the current value.
pub open spec fn changed_rows_sql(
    dc_cols: Seq<char>,
    now: Seq<char>,
    alias: Seq<char>,
    delta_child: Seq<char>,
) -> Seq<char> {
    "-- Part 1: outer child delta rows with current scalar value\n\
        SELECT dc.__pgt_row_id,\n       \
        dc.__pgt_action,\n       "@ + dc_cols + ",\n       "@ + now + " AS "@ + alias + "\n\
        FROM "@ + delta_child + " dc"@
}

/// Changed rows of the input with the current value.
fn changed_rows_query(
    dc_cols: &str,
    now: &str,
    alias: &str,
    delta_child: &str,
) -> (r: String)
    ensures
        r@ == changed_rows_sql(dc_cols@, now@, alias@, delta_child@),
{
    let mut r = "-- Part 1: outer child delta rows with current scalar value\n\
        SELECT dc.__pgt_row_id,\n       \
        dc.__pgt_action,\n       ".to_string();
    r.append(dc_cols);
    r.append(",\n       ");
    r.append(now);
    r.append(" AS ");
    r.append(alias);
    r.append("\n\
        FROM ");
    r.append(delta_child);
    r.append(" dc");
    r
}

/// All rows with the old value, where it changed.
pub open spec fn old_values_sql(
    hash: Seq<char>,
    cs_cols: Seq<char>,
    before: Seq<char>,
    alias: Seq<char>,
    child: Seq<char>,
    delta_subquery: Seq<char>,
    now: Seq<char>,
) -> Seq<char> {
    "-- Part 2: all outer rows re-emitted when scalar subquery value changes (DELETE old)\n\
        SELECT "@ + hash + " AS __pgt_row_id,\n       \
        'D' AS __pgt_action,\n       "@ + cs_cols + ",\n       "@ + before + " AS "@ + alias + "\n\
        FROM "@ + child + " cs\n\
        WHERE EXISTS (SELECT 1 FROM "@ + delta_subquery + " WHERE 1=1)\n  \
        AND "@ + now + " IS DISTINCT FROM "@ + before
}

/// All rows with the old value, where it changed.
fn old_values_query(
    hash: &str,
    cs_cols: &str,
    before: &str,
    alias: &str,
    child: &str,
    delta_subquery: &str,
    now: &str,
) -> (r: String)
    ensures
        r@ == old_values_sql(hash@, cs_cols@, before@, alias@, child@, delta_subquery@, now@),
{
    let mut r = "-- Part 2: all outer rows re-emitted when scalar subquery value changes (DELETE old)\n\
        SELECT ".to_string();
    r.append(hash);
    r.append(" AS __pgt_row_id,\n       \
        'D' AS __pgt_action,\n       ");
    r.append(cs_cols);
    r.append(",\n       ");
    r.append(before);
    r.append(" AS ");
    r.append(alias);
    r.append("\n\
        FROM ");
    r.append(child);
    r.append(" cs\n\
        WHERE EXISTS (SELECT 1 FROM ");
    r.append(delta_subquery);
    r.append(" WHERE 1=1)\n  \
        AND ");
    r.append(now);
    r.append(" IS DISTINCT FROM ");
    r.append(before);
    r
}

/// All rows with the current value, where it changed.
pub open spec fn new_values_sql(
    hash: Seq<char>,
    cs_cols: Seq<char>,
    now: Seq<char>,
    alias: Seq<char>,
    child: Seq<char>,
    delta_subquery: Seq<char>,
    before: Seq<char>,
) -> Seq<char> {
    "-- Part 2b: all outer rows re-emitted when scalar subquery value changes (INSERT new)\n\
        SELECT "@ + hash + " AS __pgt_row_id,\n       \
        'I' AS __pgt_action,\n       "@ + cs_cols + ",\n       "@ + now + " AS "@ + alias + "\n\
        FROM "@ + child + " cs\n\
        WHERE EXISTS (SELECT 1 FROM "@ + delta_subquery + " WHERE 1=1)\n  \
        AND "@ + now + " IS DISTINCT FROM "@ + before
}

/// All rows with the current value, where it changed.
fn new_values_query(
    hash: &str,
    cs_cols: &str,
    now: &str,
    alias: &str,
    child: &str,
    delta_subquery: &str,
    before: &str,
) -> (r: String)
    ensures
        r@ == new_values_sql(hash@, cs_cols@, now@, alias@, child@, delta_subquery@, before@),
{
    let mut r = "-- Part 2b: all outer rows re-emitted when scalar subquery value changes (INSERT new)\n\
        SELECT ".to_string();
    r.append(hash);
    r.append(" AS __pgt_row_id,\n       \
        'I' AS __pgt_action,\n       ");
    r.append(cs_cols);
    r.append(",\n       ");
    r.append(now);
    r.append(" AS ");
    r.append(alias);
    r.append("\n\
        FROM ");
    r.append(child);
    r.append(" cs\n\
        WHERE EXISTS (SELECT 1 FROM ");
    r.append(delta_subquery);
    r.append(" WHERE 1=1)\n  \
        AND ");
    r.append(now);
    r.append(" IS DISTINCT FROM ");
    r.append(before);
    r
}

/// The delta of a scalar subquery.
pub open spec fn scalar_subquery_sql(
    dc_cols: Seq<char>,
    now: Seq<char>,
    alias: Seq<char>,
    delta_child: Seq<char>,
    hash: Seq<char>,
    cs_cols: Seq<char>,
    before: Seq<char>,
    child: Seq<char>,
    delta_subquery: Seq<char>,
) -> Seq<char> {
    changed_rows_sql(dc_cols, now, alias, delta_child) + "\n\nUNION ALL\n\n"@
        + old_values_sql(hash, cs_cols, before, alias, child, delta_subquery, now)
        + "\n\nUNION ALL\n\n"@
        + new_values_sql(hash, cs_cols, now, alias, child, delta_subquery, before)
}

/// The delta of a scalar subquery.
fn scalar_subquery_query(
    dc_cols: &str,
    now: &str,
    alias: &str,
    delta_child: &str,
    hash: &str,
    cs_cols: &str,
    before: &str,
    child: &str,
    delta_subquery: &str,
) -> (r: String)
    ensures
        r@ == scalar_subquery_sql(
            dc_cols@,
            now@,
            alias@,
            delta_child@,
            hash@,
            cs_cols@,
            before@,
            child@,
            delta_subquery@,
        ),
{
    let mut r = changed_rows_query(dc_cols, now, alias, delta_child);
    r.append("\n\nUNION ALL\n\n");
    r.append(old_values_query(hash, cs_cols, before, alias, child, delta_subquery, now).as_str());
    r.append("\n\nUNION ALL\n\n");
    r.append(new_values_query(hash, cs_cols, now, alias, child, delta_subquery, before).as_str());
    r
}

// ── Differentiation ────────────────────────────────────────────────────

/// The column that holds the value: the first of the subquery.
pub open spec fn value_column(s: Delta) -> Seq<char> {
    sql_builder::ident_text(
        if s.columns.len() == 0 {
            "NULL"@
        } else {
            s.columns[0]
        },
    )
}

/// The value before the changes; null for a subquery without columns.
pub open spec fn old_value(subquery: OpTree, s: Delta) -> Seq<char> {
    if s.columns.len() == 0 {
        "NULL"@
    } else {
        value_before_sql(
            value_column(s),
            rows_before_sql(
                diff::cols_text(s.columns),
                join_common::snapshot_sql(subquery),
                sql_builder::ident_text(subquery.spec_alias()),
                s.cte_name,
            ),
        )
    }
}

/// The query of a scalar subquery over the deltas of its inputs.
#[verifier::opaque]
pub open spec fn scalar_subquery_text(
    subquery: OpTree,
    alias: Seq<char>,
    child: OpTree,
    c: Delta,
    s: Delta,
) -> Seq<char> {
    scalar_subquery_sql(
        text::join(diff::wrapped("dc."@, c.columns, ""@), ", "@),
        value_now_sql(
            sql_builder::ident_text(subquery.spec_alias()),
            value_column(s),
            join_common::snapshot_sql(subquery),
        ),
        sql_builder::ident_text(alias),
        c.cte_name,
        row_hash_sql(text::join(diff::wrapped("cs."@, c.columns, "::TEXT"@), ", "@)),
        text::join(diff::wrapped("cs."@, c.columns, ""@), ", "@),
        old_value(subquery, s),
        join_common::snapshot_sql(child),
        s.cte_name,
    )
}

/// The outcome of a scalar subquery over the deltas of its inputs.
pub open spec fn scalar_subquery_outcome(
    st: DiffState,
    subquery: OpTree,
    alias: Seq<char>,
    child: OpTree,
    c: Delta,
    s: Delta,
) -> Outcome {
    (
        st.step("scalar_sub"@, scalar_subquery_text(subquery, alias, child, c, s)),
        Ok(
            Delta {
                cte_name: st.fresh("scalar_sub"@),
                columns: c.columns.push(alias),
                is_deduplicated: false,
            },
        ),
    )
}

/// The outcome of differentiating an operator as a scalar subquery.
pub open spec fn scalar_subquery_diff(env: DiffEnv, st: DiffState, op: OpTree) -> Outcome
    decreases env.cte_registry.depth(op), op, 0nat,
{
    match op {
        OpTree::ScalarSubquery { subquery, alias, child, .. } => match engine::tree_diff(
            env,
            st,
            *child,
        ) {
            (st1, Ok(c)) => match engine::tree_diff(env, st1, *subquery) {
                (st2, Ok(s)) => scalar_subquery_outcome(st2, *subquery, alias@, *child, c, s),
                (st2, Err(e)) => (st2, Err(e)),
            },
            (st1, Err(e)) => (st1, Err(e)),
        },
        _ => (
            st,
            Err(
                ErrorView::InternalError(
                    "diff_scalar_subquery called on non-ScalarSubquery node"@,
                ),
            ),
        ),
    }
}

/// The query of a scalar subquery over the deltas of its inputs.
fn build_scalar_subquery(
    subquery: &OpTree,
    alias: &str,
    child: &OpTree,
    c: &DiffResult,
    s: &DiffResult,
) -> (r: String)
    ensures
        r@ == scalar_subquery_text(*subquery, alias@, *child, c@, s@),
{
    proof {
        reveal(scalar_subquery_text);
    }
    let snapshot = build_snapshot_sql(subquery);
    let sq_alias = quote_ident(subquery.alias());
    let col = if s.columns.len() == 0 {
        quote_ident("NULL")
    } else {
        quote_ident(s.columns[0].as_str())
    };
    let now = value_now_query(sq_alias.as_str(), col.as_str(), snapshot.as_str());
    let before = if s.columns.len() == 0 {
        "NULL".to_string()
    } else {
        let rows = rows_before_query(
            col_list(s.columns.as_slice()).as_str(),
            snapshot.as_str(),
            sq_alias.as_str(),
            s.cte_name.as_str(),
        );
        value_before_query(col.as_str(), rows.as_str())
    };
    let hash = row_hash_query(join_texts(&wrap_cols("cs.", &c.columns, "::TEXT"), ", ").as_str());
    scalar_subquery_query(
        join_texts(&wrap_cols("dc.", &c.columns, ""), ", ").as_str(),
        now.as_str(),
        quote_ident(alias).as_str(),
        c.cte_name.as_str(),
        hash.as_str(),
        join_texts(&wrap_cols("cs.", &c.columns, ""), ", ").as_str(),
        before.as_str(),
        build_snapshot_sql(child).as_str(),
        s.cte_name.as_str(),
    )
}

/// Adds a scalar subquery over the deltas of its inputs to the chain.
fn add_scalar_subquery(
    ctx: &mut DiffContext,
    subquery: &OpTree,
    alias: &String,
    child: &OpTree,
    c: DiffResult,
    s: DiffResult,
) -> (d: DiffResult)
    ensures
        final(ctx).env() == old(ctx).env(),
        diff::yields(*final(ctx), Ok(d), scalar_subquery_outcome(
            old(ctx).state(),
            *subquery,
            alias@,
            *child,
            c@,
            s@,
        )),
{
    let sql = build_scalar_subquery(subquery, alias.as_str(), child, &c, &s);
    let cte_name = ctx.next_cte_name("scalar_sub");
    ctx.add_cte(cte_name.clone(), sql);
    let mut columns = c.columns;
    let ghost before = columns@;
    columns.push(alias.clone());
    assert(text::texts(columns@) =~= text::texts(before).push(alias@));
    DiffResult { cte_name, columns, is_deduplicated: false }
}

/// Differentiates a scalar subquery.
///
/// The delta has the columns of the outer input and the value.
pub fn diff_scalar_subquery(ctx: &mut DiffContext, op: &OpTree) -> (r: Result<
    DiffResult,
    PgTrickleError,
>)
    requires
        old(ctx).env().cte_registry.acyclic(),
    ensures
        final(ctx).env() == old(ctx).env(),
        diff::yields(
            *final(ctx),
            r,
            scalar_subquery_diff(old(ctx).env(), old(ctx).state(), *op),
        ),
    decreases old(ctx).env().cte_registry.depth(*op), op, 0nat,
{
    match op {
        OpTree::ScalarSubquery { subquery, alias, child, .. } => {
            let c = match ctx.diff_node(child) {
                Ok(d) => d,
                Err(e) => {
                    return Err(e);
                },
            };
            let s = match ctx.diff_node(subquery) {
                Ok(d) => d,
                Err(e) => {
                    return Err(e);
                },
            };
            Ok(add_scalar_subquery(ctx, subquery, alias, child, c, s))
        },
        _ => Err(
            PgTrickleError::InternalError(
                "diff_scalar_subquery called on non-ScalarSubquery node".to_string(),
            ),
        ),
    }
}

// ── What the queries say ───────────────────────────────────────────────

/// The current value is read from the current rows of the subquery.
pub proof fn the_current_value_is_that_of_the_current_rows(
    alias: Seq<char>,
    col: Seq<char>,
    snapshot: Seq<char>,
)
    ensures
        ({
            let t = value_now_sql(alias, col, snapshot);
            &&& text::occurs(
                t,
                "(SELECT "@ + alias + "."@ + col + " FROM "@ + snapshot + " "@ + alias
                    + " LIMIT 1)"@,
            )
        }),
{
    reveal_strlit(" ");
    reveal_strlit(".");
    reveal_strlit(" FROM ");
    reveal_strlit("(SELECT ");
    reveal_strlit(" LIMIT 1)");
    let t = value_now_sql(alias, col, snapshot);
    let f0 = "(SELECT "@ + alias + "."@ + col + " FROM "@ + snapshot + " "@ + alias + " LIMIT 1)"@;
    let k0 = 0int;
    assert(t.subrange(k0, k0 + f0.len()) =~= f0);
    assert(text::occurs_at(t, f0, k0));
}

/// The rows before the changes are the current ones without those inserted and
/// with those deleted.
pub proof fn rows_before_are_current_ones_without_the_changes(
    cols: Seq<char>,
    snapshot: Seq<char>,
    alias: Seq<char>,
    delta: Seq<char>,
)
    ensures
        ({
            let t = rows_before_sql(cols, snapshot, alias, delta);
            &&& text::occurs(
                t,
                "FROM "@ + snapshot + " "@ + alias + " EXCEPT ALL SELECT "@ + cols + " FROM "@
                    + delta + " WHERE __pgt_action = 'I' UNION ALL SELECT "@ + cols + " FROM "@
                    + delta + " WHERE __pgt_action = 'D'"@,
            )
        }),
{
    reveal_strlit(" ");
    reveal_strlit("FROM ");
    reveal_strlit(" FROM ");
    reveal_strlit("(SELECT ");
    reveal_strlit(" EXCEPT ALL SELECT ");
    reveal_strlit(" WHERE __pgt_action = 'D'");
    reveal_strlit(" WHERE __pgt_action = 'D')");
    reveal_strlit(" WHERE __pgt_action = 'I' UNION ALL SELECT ");
    let t = rows_before_sql(cols, snapshot, alias, delta);
    let f0 = "FROM "@ + snapshot + " "@ + alias + " EXCEPT ALL SELECT "@ + cols + " FROM "@ + delta
        + " WHERE __pgt_action = 'I' UNION ALL SELECT "@ + cols + " FROM "@ + delta
        + " WHERE __pgt_action = 'D'"@;
    let k0 = 9int + cols.len();
    assert(t.subrange(k0, k0 + f0.len()) =~= f0);
    assert(text::occurs_at(t, f0, k0));
}

/// The old value is read from the rows before the changes.
pub proof fn the_old_value_is_that_of_the_old_rows(
    col: Seq<char>,
    rows: Seq<char>,
)
    ensures
        ({
            let t = value_before_sql(col, rows);
            &&& text::occurs(
                t,
                "(SELECT "@ + col + " FROM "@ + rows + " "@,
            )
        }),
{
    reveal_strlit(" ");
    reveal_strlit(" FROM ");
    reveal_strlit("(SELECT ");
    reveal_strlit(" sq_old LIMIT 1)");
    let t = value_before_sql(col, rows);
    let f0 = "(SELECT "@ + col + " FROM "@ + rows + " "@;
    let k0 = 0int;
    assert(t.subrange(k0, k0 + f0.len()) =~= f0);
    assert(text::occurs_at(t, f0, k0));
}

/// A changed row of the input comes out with its action and the current value.
pub proof fn changed_rows_have_the_current_value(
    dc_cols: Seq<char>,
    now: Seq<char>,
    alias: Seq<char>,
    delta_child: Seq<char>,
)
    ensures
        ({
            let t = changed_rows_sql(dc_cols, now, alias, delta_child);
            &&& text::occurs(
                t,
                "dc.__pgt_action,\n       "@ + dc_cols + ",\n       "@ + now + " AS "@ + alias
                    + "\nFROM "@ + delta_child + " dc"@,
            )
        }),
{
    reveal_strlit(" dc");
    reveal_strlit(" AS ");
    reveal_strlit("\nFROM ");
    reveal_strlit(",\n       ");
    reveal_strlit("dc.__pgt_action,\n       ");
    reveal_strlit("-- Part 1: outer child delta rows with current scalar value\nSELECT dc.__pgt_row_id,\n       dc.__pgt_action,\n       ");
    let t = changed_rows_sql(dc_cols, now, alias, delta_child);
    let f0 = "dc.__pgt_action,\n       "@ + dc_cols + ",\n       "@ + now + " AS "@ + alias
        + "\nFROM "@ + delta_child + " dc"@;
    let k0 = 91int;
    assert(t.subrange(k0, k0 + f0.len()) =~= f0);
    assert(text::occurs_at(t, f0, k0));
}

/// Where the subquery changed and its value with it, every row is deleted with
/// the old value.
pub proof fn rows_with_the_old_value_go(
    hash: Seq<char>,
    cs_cols: Seq<char>,
    before: Seq<char>,
    alias: Seq<char>,
    child: Seq<char>,
    delta_subquery: Seq<char>,
    now: Seq<char>,
)
    ensures
        ({
            let t = old_values_sql(hash, cs_cols, before, alias, child, delta_subquery, now);
            &&& text::occurs(
                t,
                "'D' AS __pgt_action,\n       "@ + cs_cols + ",\n       "@ + before + " AS "@
                    + alias + "\nFROM "@ + child + " cs\nWHERE EXISTS (SELECT 1 FROM "@
                    + delta_subquery + " WHERE 1=1)\n  AND "@ + now + " IS DISTINCT FROM "@
                    + before,
            )
        }),
{
    reveal_strlit(" AS ");
    reveal_strlit("\nFROM ");
    reveal_strlit(",\n       ");
    reveal_strlit(" IS DISTINCT FROM ");
    reveal_strlit(" WHERE 1=1)\n  AND ");
    reveal_strlit("'D' AS __pgt_action,\n       ");
    reveal_strlit(" cs\nWHERE EXISTS (SELECT 1 FROM ");
    reveal_strlit(" AS __pgt_row_id,\n       'D' AS __pgt_action,\n       ");
    reveal_strlit("-- Part 2: all outer rows re-emitted when scalar subquery value changes (DELETE old)\nSELECT ");
    let t = old_values_sql(hash, cs_cols, before, alias, child, delta_subquery, now);
    let f0 = "'D' AS __pgt_action,\n       "@ + cs_cols + ",\n       "@ + before + " AS "@ + alias
        + "\nFROM "@ + child + " cs\nWHERE EXISTS (SELECT 1 FROM "@ + delta_subquery
        + " WHERE 1=1)\n  AND "@ + now + " IS DISTINCT FROM "@ + before;
    let k0 = 117int + hash.len();
    assert(t.subrange(k0, k0 + f0.len()) =~= f0);
    assert(text::occurs_at(t, f0, k0));
}

/// Where the subquery changed and its value with it, every row is inserted with
/// the current value.
pub proof fn rows_with_the_current_value_come(
    hash: Seq<char>,
    cs_cols: Seq<char>,
    now: Seq<char>,
    alias: Seq<char>,
    child: Seq<char>,
    delta_subquery: Seq<char>,
    before: Seq<char>,
)
    ensures
        ({
            let t = new_values_sql(hash, cs_cols, now, alias, child, delta_subquery, before);
            &&& text::occurs(
                t,
                "'I' AS __pgt_action,\n       "@ + cs_cols + ",\n       "@ + now + " AS "@ + alias
                    + "\nFROM "@ + child + " cs\nWHERE EXISTS (SELECT 1 FROM "@ + delta_subquery
                    + " WHERE 1=1)\n  AND "@ + now + " IS DISTINCT FROM "@ + before,
            )
        }),
{
    reveal_strlit(" AS ");
    reveal_strlit("\nFROM ");
    reveal_strlit(",\n       ");
    reveal_strlit(" IS DISTINCT FROM ");
    reveal_strlit(" WHERE 1=1)\n  AND ");
    reveal_strlit("'I' AS __pgt_action,\n       ");
    reveal_strlit(" cs\nWHERE EXISTS (SELECT 1 FROM ");
    reveal_strlit(" AS __pgt_row_id,\n       'I' AS __pgt_action,\n       ");
    reveal_strlit("-- Part 2b: all outer rows re-emitted when scalar subquery value changes (INSERT new)\nSELECT ");
    let t = new_values_sql(hash, cs_cols, now, alias, child, delta_subquery, before);
    let f0 = "'I' AS __pgt_action,\n       "@ + cs_cols + ",\n       "@ + now + " AS "@ + alias
        + "\nFROM "@ + child + " cs\nWHERE EXISTS (SELECT 1 FROM "@ + delta_subquery
        + " WHERE 1=1)\n  AND "@ + now + " IS DISTINCT FROM "@ + before;
    let k0 = 118int + hash.len();
    assert(t.subrange(k0, k0 + f0.len()) =~= f0);
    assert(text::occurs_at(t, f0, k0));
}

/// The delta of a scalar subquery has all three parts, each over the deltas and
/// the current rows of the inputs that it is for.
pub proof fn a_scalar_subquery_has_all_of_its_parts(
    subquery: OpTree,
    alias: Seq<char>,
    child: OpTree,
    c: Delta,
    s: Delta,
)
    ensures
        ({
            let t = scalar_subquery_text(subquery, alias, child, c, s);
            let dc_cols = text::join(diff::wrapped("dc."@, c.columns, ""@), ", "@);
            let now = value_now_sql(
                sql_builder::ident_text(subquery.spec_alias()),
                value_column(s),
                join_common::snapshot_sql(subquery),
            );
            let alias = sql_builder::ident_text(alias);
            let delta_child = c.cte_name;
            let hash = row_hash_sql(text::join(diff::wrapped("cs."@, c.columns, "::TEXT"@), ", "@));
            let cs_cols = text::join(diff::wrapped("cs."@, c.columns, ""@), ", "@);
            let before = old_value(subquery, s);
            let child = join_common::snapshot_sql(child);
            let delta_subquery = s.cte_name;
            &&& text::occurs(t, changed_rows_sql(dc_cols, now, alias, delta_child))
            &&& text::occurs(
                t,
                old_values_sql(hash, cs_cols, before, alias, child, delta_subquery, now),
            )
            &&& text::occurs(
                t,
                new_values_sql(hash, cs_cols, now, alias, child, delta_subquery, before),
            )
        }),
{
    reveal(scalar_subquery_text);
    let dc_cols = text::join(diff::wrapped("dc."@, c.columns, ""@), ", "@);
    let now = value_now_sql(
        sql_builder::ident_text(subquery.spec_alias()),
        value_column(s),
        join_common::snapshot_sql(subquery),
    );
    let alias = sql_builder::ident_text(alias);
    let delta_child = c.cte_name;
    let hash = row_hash_sql(text::join(diff::wrapped("cs."@, c.columns, "::TEXT"@), ", "@));
    let cs_cols = text::join(diff::wrapped("cs."@, c.columns, ""@), ", "@);
    let before = old_value(subquery, s);
    let child = join_common::snapshot_sql(child);
    let delta_subquery = s.cte_name;
    crate::text_laws::lemma_three_parts(
        changed_rows_sql(dc_cols, now, alias, delta_child),
        old_values_sql(hash, cs_cols, before, alias, child, delta_subquery, now),
        new_values_sql(hash, cs_cols, now, alias, child, delta_subquery, before),
        "\n\nUNION ALL\n\n"@,
    );
}

// ── What the rows are ──────────────────────────────────────────────────

/// A changed row keeps its identifier.
pub proof fn changed_rows_keep_their_identifier(
    dc_cols: Seq<char>,
    now: Seq<char>,
    alias: Seq<char>,
    delta_child: Seq<char>,
)
    ensures
        ({
            let t = changed_rows_sql(dc_cols, now, alias, delta_child);
            &&& text::occurs(
                t,
                "SELECT dc.__pgt_row_id,"@,
            )
        }),
{
    reveal_strlit(" dc");
    reveal_strlit(" AS ");
    reveal_strlit("\nFROM ");
    reveal_strlit(",\n       ");
    reveal_strlit("SELECT dc.__pgt_row_id,");
    reveal_strlit("-- Part 1: outer child delta rows with current scalar value\nSELECT dc.__pgt_row_id,\n       dc.__pgt_action,\n       ");
    let t = changed_rows_sql(dc_cols, now, alias, delta_child);
    let f0 = "SELECT dc.__pgt_row_id,"@;
    let k0 = 60int;
    assert(t.subrange(k0, k0 + f0.len()) =~= f0);
    assert(text::occurs_at(t, f0, k0));
}

/// A row with the old value is identified by the hash.
pub proof fn rows_with_the_old_value_are_identified_by_the_row(
    hash: Seq<char>,
    cs_cols: Seq<char>,
    before: Seq<char>,
    alias: Seq<char>,
    child: Seq<char>,
    delta_subquery: Seq<char>,
    now: Seq<char>,
)
    ensures
        ({
            let t = old_values_sql(hash, cs_cols, before, alias, child, delta_subquery, now);
            &&& text::occurs(
                t,
                "SELECT "@ + hash + " AS __pgt_row_id,"@,
            )
        }),
{
    reveal_strlit(" AS ");
    reveal_strlit("\nFROM ");
    reveal_strlit("SELECT ");
    reveal_strlit(",\n       ");
    reveal_strlit(" AS __pgt_row_id,");
    reveal_strlit(" IS DISTINCT FROM ");
    reveal_strlit(" WHERE 1=1)\n  AND ");
    reveal_strlit(" cs\nWHERE EXISTS (SELECT 1 FROM ");
    reveal_strlit(" AS __pgt_row_id,\n       'D' AS __pgt_action,\n       ");
    reveal_strlit("-- Part 2: all outer rows re-emitted when scalar subquery value changes (DELETE old)\nSELECT ");
    let t = old_values_sql(hash, cs_cols, before, alias, child, delta_subquery, now);
    let f0 = "SELECT "@ + hash + " AS __pgt_row_id,"@;
    let k0 = 85int;
    assert(t.subrange(k0, k0 + f0.len()) =~= f0);
    assert(text::occurs_at(t, f0, k0));
}

/// A row with the new value is identified by the hash.
pub proof fn rows_with_the_new_value_are_identified_by_the_row(
    hash: Seq<char>,
    cs_cols: Seq<char>,
    now: Seq<char>,
    alias: Seq<char>,
    child: Seq<char>,
    delta_subquery: Seq<char>,
    before: Seq<char>,
)
    ensures
        ({
            let t = new_values_sql(hash, cs_cols, now, alias, child, delta_subquery, before);
            &&& text::occurs(
                t,
                "SELECT "@ + hash + " AS __pgt_row_id,"@,
            )
        }),
{
    reveal_strlit(" AS ");
    reveal_strlit("\nFROM ");
    reveal_strlit("SELECT ");
    reveal_strlit(",\n       ");
    reveal_strlit(" AS __pgt_row_id,");
    reveal_strlit(" IS DISTINCT FROM ");
    reveal_strlit(" WHERE 1=1)\n  AND ");
    reveal_strlit(" cs\nWHERE EXISTS (SELECT 1 FROM ");
    reveal_strlit(" AS __pgt_row_id,\n       'I' AS __pgt_action,\n       ");
    reveal_strlit("-- Part 2b: all outer rows re-emitted when scalar subquery value changes (INSERT new)\nSELECT ");
    let t = new_values_sql(hash, cs_cols, now, alias, child, delta_subquery, before);
    let f0 = "SELECT "@ + hash + " AS __pgt_row_id,"@;
    let k0 = 86int;
    assert(t.subrange(k0, k0 + f0.len()) =~= f0);
    assert(text::occurs_at(t, f0, k0));
}

/// The old value is that of one of the old rows.
pub proof fn the_old_value_is_one_of_the_old_rows(
    col: Seq<char>,
    rows: Seq<char>,
)
    ensures
        ({
            let t = value_before_sql(col, rows);
            &&& text::occurs(
                t,
                "SELECT "@ + col + " FROM "@ + rows + " sq_old LIMIT 1)"@,
            )
        }),
{
    reveal_strlit(" FROM ");
    reveal_strlit("SELECT ");
    reveal_strlit("(SELECT ");
    reveal_strlit(" sq_old LIMIT 1)");
    let t = value_before_sql(col, rows);
    let f0 = "SELECT "@ + col + " FROM "@ + rows + " sq_old LIMIT 1)"@;
    let k0 = 1int;
    assert(t.subrange(k0, k0 + f0.len()) =~= f0);
    assert(text::occurs_at(t, f0, k0));
}

} // verus!
