//! `DISTINCT`.
//!
//! Rows are counted.  A row appears when its count rises above zero and
//! vanishes when it falls to zero.  Other changes of the count are no part of
//! the delta; a statement of their own stores them.

use vstd::prelude::*;
use vstd::string::*;

use crate::dvm::diff;
use crate::dvm::diff::{col_list, wrap_cols};
use crate::dvm::diff::{Delta, DiffContext, DiffEnv, DiffResult, DiffState, Outcome};
use crate::dvm::engine;
use crate::dvm::operators::recursive_sql::sql_view;
use crate::dvm::operators::scan;
use crate::dvm::operators::scan::build_hash_call;
use crate::dvm::parser::OpTree;
use crate::error::{ErrorView, PgTrickleError};
use crate::text;
use crate::text::join_texts;

verus! {

// ── Queries ────────────────────────────────────────────────────────────

/// The net change of the count of each row.
pub open spec fn dist_delta_sql(row_id: Seq<char>, cols: Seq<char>, child: Seq<char>) -> Seq<char> {
    "SELECT "@ + row_id + " AS __pgs_row_id,\n"@ + cols + ",\n\
        SUM(CASE WHEN __pgs_action = 'I' THEN 1 ELSE -1 END) AS __net_count\n\
        FROM "@ + child + "\n\
        GROUP BY "@ + cols
}

/// The net change of the count of each row.
fn dist_delta_query(row_id: &str, cols: &str, child: &str) -> (r: String)
    ensures
        r@ == dist_delta_sql(row_id@, cols@, child@),
{
    let mut r = "SELECT ".to_string();
    r.append(row_id);
    r.append(" AS __pgs_row_id,\n");
    r.append(cols);
    r.append(",\n\
        SUM(CASE WHEN __pgs_action = 'I' THEN 1 ELSE -1 END) AS __net_count\n\
        FROM ");
    r.append(child);
    r.append("\n\
        GROUP BY ");
    r.append(cols);
    r
}

/// The count of each row before and after.
pub open spec fn dist_merge_sql(cols: Seq<char>, delta: Seq<char>, storage: Seq<char>) -> Seq<char> {
    "SELECT d.__pgs_row_id,\n"@ + cols + ",\n\
        d.__net_count,\n\
        COALESCE(st.__pgs_count, 0) AS old_count,\n\
        COALESCE(st.__pgs_count, 0) + d.__net_count AS new_count\n\
        FROM "@ + delta + " d\n\
        LEFT JOIN "@ + storage + " st ON st.__pgs_row_id = d.__pgs_row_id"@
}

/// The count of each row before and after.
fn dist_merge_query(cols: &str, delta: &str, storage: &str) -> (r: String)
    ensures
        r@ == dist_merge_sql(cols@, delta@, storage@),
{
    let mut r = "SELECT d.__pgs_row_id,\n".to_string();
    r.append(cols);
    r.append(",\n\
        d.__net_count,\n\
        COALESCE(st.__pgs_count, 0) AS old_count,\n\
        COALESCE(st.__pgs_count, 0) + d.__net_count AS new_count\n\
        FROM ");
    r.append(delta);
    r.append(" d\n\
        LEFT JOIN ");
    r.append(storage);
    r.append(" st ON st.__pgs_row_id = d.__pgs_row_id");
    r
}

/// Rows whose count crossed zero.
pub open spec fn dist_final_sql(cols: Seq<char>, merge: Seq<char>) -> Seq<char> {
    "-- Row appears: was absent, now present\n\
        SELECT __pgs_row_id, 'I' AS __pgs_action,\n       "@ + cols
        + ", new_count AS __pgs_count\n\
        FROM "@ + merge + "\n\
        WHERE old_count <= 0 AND new_count > 0\n\n\
        UNION ALL\n\n\
        -- Row vanishes: was present, now absent\n\
        SELECT __pgs_row_id, 'D' AS __pgs_action,\n       "@ + cols + ", 0 AS __pgs_count\n\
        FROM "@ + merge + "\n\
        WHERE old_count > 0 AND new_count <= 0"@
}

/// Rows whose count crossed zero.
fn dist_final_query(cols: &str, merge: &str) -> (r: String)
    ensures
        r@ == dist_final_sql(cols@, merge@),
{
    let mut r = "-- Row appears: was absent, now present\n\
        SELECT __pgs_row_id, 'I' AS __pgs_action,\n       ".to_string();
    r.append(cols);
    r.append(", new_count AS __pgs_count\n\
        FROM ");
    r.append(merge);
    r.append("\n\
        WHERE old_count <= 0 AND new_count > 0\n\n\
        UNION ALL\n\n\
        -- Row vanishes: was present, now absent\n\
        SELECT __pgs_row_id, 'D' AS __pgs_action,\n       ");
    r.append(cols);
    r.append(", 0 AS __pgs_count\n\
        FROM ");
    r.append(merge);
    r.append("\n\
        WHERE old_count > 0 AND new_count <= 0");
    r
}

/// Stores the counts that changed and did not cross zero.
pub open spec fn count_update_sql(storage: Seq<char>, merge: Seq<char>) -> Seq<char> {
    "UPDATE "@ + storage + " st\n\
        SET __pgs_count = m.new_count\n\
        FROM "@ + merge + " m\n\
        WHERE st.__pgs_row_id = m.__pgs_row_id\n  \
        AND m.old_count > 0 AND m.new_count > 0 AND m.new_count != m.old_count"@
}

/// Stores the counts that changed and did not cross zero.
fn count_update_query(storage: &str, merge: &str) -> (r: String)
    ensures
        r@ == count_update_sql(storage@, merge@),
{
    let mut r = "UPDATE ".to_string();
    r.append(storage);
    r.append(" st\n\
        SET __pgs_count = m.new_count\n\
        FROM ");
    r.append(merge);
    r.append(" m\n\
        WHERE st.__pgs_row_id = m.__pgs_row_id\n  \
        AND m.old_count > 0 AND m.new_count > 0 AND m.new_count != m.old_count");
    r
}

// ── Differentiation ────────────────────────────────────────────────────

/// The chain with the counts of the rows of a delta, before and after, and the
/// name of the CTE that has them.
pub open spec fn counted(env: DiffEnv, st: DiffState, c: Delta) -> (DiffState, Seq<char>) {
    let cols = diff::cols_text(c.columns);
    let row_id = scan::hash_call(
        "pgstream.pg_stream_hash"@,
        diff::wrapped(""@, c.columns, "::TEXT"@),
    );
    let delta = st.fresh("dist_delta"@);
    let st1 = st.step("dist_delta"@, dist_delta_sql(row_id, cols, c.cte_name));
    let st2 = st1.step(
        "dist_merge"@,
        dist_merge_sql(
            text::join(diff::wrapped("d."@, c.columns, ""@), ", "@),
            delta,
            env.storage(),
        ),
    );
    (st2, st1.fresh("dist_merge"@))
}

/// The outcome of `DISTINCT` over the delta of its input.
pub open spec fn distinct_outcome(env: DiffEnv, st: DiffState, c: Delta) -> Outcome {
    let (st2, merge) = counted(env, st, c);
    (
        st2.step("dist_final"@, dist_final_sql(diff::cols_text(c.columns), merge)),
        Ok(
            Delta {
                cte_name: st2.fresh("dist_final"@),
                columns: c.columns.push("__pgs_count"@),
                is_deduplicated: false,
            },
        ),
    )
}

/// The chain with the counts of the rows of `DISTINCT`, and the statement that
/// stores those that changed and did not cross zero.
pub open spec fn distinct_counts(env: DiffEnv, st: DiffState, op: OpTree) -> (
    DiffState,
    Result<Seq<char>, ErrorView>,
) {
    match op {
        OpTree::Distinct { child } => match engine::tree_diff(env, st, *child) {
            (st1, Ok(c)) => {
                let (st2, merge) = counted(env, st1, c);
                (
                    st2,
                    Ok(diff::with_statement(st2.ctes, count_update_sql(env.storage(), merge))),
                )
            },
            (st1, Err(e)) => (st1, Err(e)),
        },
        _ => (st, Err(ErrorView::InternalError("diff_distinct called on non-Distinct node"@))),
    }
}

/// The outcome of differentiating an operator as `DISTINCT`.
pub open spec fn distinct_diff(env: DiffEnv, st: DiffState, op: OpTree) -> Outcome
    decreases env.cte_registry.depth(op), op, 0nat,
{
    match op {
        OpTree::Distinct { child } => match engine::tree_diff(env, st, *child) {
            (st1, Ok(c)) => distinct_outcome(env, st1, c),
            (st1, Err(e)) => (st1, Err(e)),
        },
        _ => (st, Err(ErrorView::InternalError("diff_distinct called on non-Distinct node"@))),
    }
}

/// Adds the counts of the rows of a delta to the chain.
fn add_counts(ctx: &mut DiffContext, c: &DiffResult) -> (merge: String)
    ensures
        final(ctx).env() == old(ctx).env(),
        (final(ctx).state(), merge@) == counted(old(ctx).env(), old(ctx).state(), c@),
{
    let cols = col_list(c.columns.as_slice());
    let row_id = build_hash_call(
        "pgstream.pg_stream_hash",
        wrap_cols("", &c.columns, "::TEXT").as_slice(),
    );
    let storage = ctx.storage();

    let delta = ctx.next_cte_name("dist_delta");
    ctx.add_cte(
        delta.clone(),
        dist_delta_query(row_id.as_str(), cols.as_str(), c.cte_name.as_str()),
    );

    let merge = ctx.next_cte_name("dist_merge");
    let d_cols = join_texts(&wrap_cols("d.", &c.columns, ""), ", ");
    ctx.add_cte(
        merge.clone(),
        dist_merge_query(d_cols.as_str(), delta.as_str(), storage.as_str()),
    );
    merge
}

/// Adds `DISTINCT` over the delta of its input to the chain.
fn add_distinct(
    ctx: &mut DiffContext,
    c: DiffResult,
) -> (d: DiffResult)
    ensures
        final(ctx).env() == old(ctx).env(),
        diff::yields(*final(ctx), Ok(d), distinct_outcome(old(ctx).env(), old(ctx).state(), c@)),
{
    let merge = add_counts(ctx, &c);
    let cols = col_list(c.columns.as_slice());
    let cte_name = ctx.next_cte_name("dist_final");
    ctx.add_cte(cte_name.clone(), dist_final_query(cols.as_str(), merge.as_str()));
    let mut columns = c.columns;
    let ghost before = columns@;
    columns.push("__pgs_count".to_string());
    assert(text::texts(columns@) =~= text::texts(before).push("__pgs_count"@));
    DiffResult { cte_name, columns, is_deduplicated: false }
}

/// Differentiates `DISTINCT`.
///
/// The delta has the columns of the input and the count of the row.  A row is
/// in it if and only if its count crossed zero.
pub fn diff_distinct(ctx: &mut DiffContext, op: &OpTree) -> (r: Result<
    DiffResult,
    PgTrickleError,
>)
    requires
        old(ctx).env().cte_registry.acyclic(),
    ensures
        final(ctx).env() == old(ctx).env(),
        diff::yields(
            *final(ctx),
            r,
            distinct_diff(old(ctx).env(), old(ctx).state(), *op),
        ),
    decreases old(ctx).env().cte_registry.depth(*op), op, 0nat,
{
    match op {
        OpTree::Distinct { child } => {
            let c = match ctx.diff_node(child) {
                Ok(d) => d,
                Err(e) => {
                    return Err(e);
                },
            };
            Ok(add_distinct(ctx, c))
        },
        _ => Err(
            PgTrickleError::InternalError("diff_distinct called on non-Distinct node".to_string()),
        ),
    }
}

/// The statement that stores the counts of the rows of `DISTINCT` that changed
/// and did not cross zero.
///
/// It reads the counts as they were before, as the delta does: the rows of the
/// delta are taken first, and applied after it.
pub fn diff_distinct_counts(ctx: &mut DiffContext, op: &OpTree) -> (r: Result<
    String,
    PgTrickleError,
>)
    requires
        old(ctx).env().cte_registry.acyclic(),
    ensures
        final(ctx).env() == old(ctx).env(),
        (final(ctx).state(), sql_view(r)) == distinct_counts(
            old(ctx).env(),
            old(ctx).state(),
            *op,
        ),
{
    match op {
        OpTree::Distinct { child } => {
            let c = match ctx.diff_node(child) {
                Ok(d) => d,
                Err(e) => {
                    return Err(e);
                },
            };
            let merge = add_counts(ctx, &c);
            let storage = ctx.storage();
            let update = count_update_query(storage.as_str(), merge.as_str());
            Ok(ctx.build_with(update.as_str()))
        },
        _ => Err(
            PgTrickleError::InternalError("diff_distinct called on non-Distinct node".to_string()),
        ),
    }
}

// ── What the queries say ───────────────────────────────────────────────

/// The net change of a row is how often it was inserted less how often it was
/// deleted, over the delta of the input, for each set of values.
pub proof fn net_counts_add_inserts_and_take_deletes(
    row_id: Seq<char>,
    cols: Seq<char>,
    child: Seq<char>,
)
    ensures
        ({
            let t = dist_delta_sql(row_id, cols, child);
            &&& text::occurs(
                t,
                "SUM(CASE WHEN __pgs_action = 'I' THEN 1 ELSE -1 END) AS __net_count\nFROM "@
                    + child + "\nGROUP BY "@ + cols,
            )
        }),
{
    reveal_strlit("SELECT ");
    reveal_strlit("\nGROUP BY ");
    reveal_strlit(" AS __pgs_row_id,\n");
    reveal_strlit("SUM(CASE WHEN __pgs_action = 'I' THEN 1 ELSE -1 END) AS __net_count\nFROM ");
    reveal_strlit(",\nSUM(CASE WHEN __pgs_action = 'I' THEN 1 ELSE -1 END) AS __net_count\nFROM ");
    let t = dist_delta_sql(row_id, cols, child);
    let f0 = "SUM(CASE WHEN __pgs_action = 'I' THEN 1 ELSE -1 END) AS __net_count\nFROM "@ + child
        + "\nGROUP BY "@ + cols;
    let k0 = 27int + row_id.len() + cols.len();
    assert(t.subrange(k0, k0 + f0.len()) =~= f0);
    assert(text::occurs_at(t, f0, k0));
}

/// The count after the changes is the stored one, or zero where none is stored,
/// and the net change; rows are found in the storage table by their identifier.
pub proof fn counts_after_are_counts_before_and_the_change(
    cols: Seq<char>,
    delta: Seq<char>,
    storage: Seq<char>,
)
    ensures
        ({
            let t = dist_merge_sql(cols, delta, storage);
            &&& text::occurs(
                t,
                "COALESCE(st.__pgs_count, 0) AS old_count,\nCOALESCE(st.__pgs_count, 0) + d.__net_count AS new_count\nFROM "@
                    + delta + " d\nLEFT JOIN "@ + storage
                    + " st ON st.__pgs_row_id = d.__pgs_row_id"@,
            )
        }),
{
    reveal_strlit(" d\nLEFT JOIN ");
    reveal_strlit("SELECT d.__pgs_row_id,\n");
    reveal_strlit(" st ON st.__pgs_row_id = d.__pgs_row_id");
    reveal_strlit("COALESCE(st.__pgs_count, 0) AS old_count,\nCOALESCE(st.__pgs_count, 0) + d.__net_count AS new_count\nFROM ");
    reveal_strlit(",\nd.__net_count,\nCOALESCE(st.__pgs_count, 0) AS old_count,\nCOALESCE(st.__pgs_count, 0) + d.__net_count AS new_count\nFROM ");
    let t = dist_merge_sql(cols, delta, storage);
    let f0 = "COALESCE(st.__pgs_count, 0) AS old_count,\nCOALESCE(st.__pgs_count, 0) + d.__net_count AS new_count\nFROM "@
        + delta + " d\nLEFT JOIN "@ + storage + " st ON st.__pgs_row_id = d.__pgs_row_id"@;
    let k0 = 40int + cols.len();
    assert(t.subrange(k0, k0 + f0.len()) =~= f0);
    assert(text::occurs_at(t, f0, k0));
}

/// A row is inserted, with its new count, if its count rose above zero, and
/// deleted if it fell to zero.
pub proof fn only_crossings_of_zero_are_in_the_delta(
    cols: Seq<char>,
    merge: Seq<char>,
)
    ensures
        ({
            let t = dist_final_sql(cols, merge);
            &&& text::occurs(
                t,
                "'I' AS __pgs_action,\n       "@ + cols + ", new_count AS __pgs_count\nFROM "@
                    + merge + "\nWHERE old_count <= 0 AND new_count > 0\n\nUNION ALL"@,
            )
            &&& text::occurs(
                t,
                "'D' AS __pgs_action,\n       "@ + cols + ", 0 AS __pgs_count\nFROM "@ + merge
                    + "\nWHERE old_count > 0 AND new_count <= 0"@,
            )
        }),
{
    reveal_strlit(", 0 AS __pgs_count\nFROM ");
    reveal_strlit("'D' AS __pgs_action,\n       ");
    reveal_strlit("'I' AS __pgs_action,\n       ");
    reveal_strlit(", new_count AS __pgs_count\nFROM ");
    reveal_strlit("\nWHERE old_count > 0 AND new_count <= 0");
    reveal_strlit("\nWHERE old_count <= 0 AND new_count > 0\n\nUNION ALL");
    reveal_strlit("-- Row appears: was absent, now present\nSELECT __pgs_row_id, 'I' AS __pgs_action,\n       ");
    reveal_strlit("\nWHERE old_count <= 0 AND new_count > 0\n\nUNION ALL\n\n-- Row vanishes: was present, now absent\nSELECT __pgs_row_id, 'D' AS __pgs_action,\n       ");
    let t = dist_final_sql(cols, merge);
    let f0 = "'I' AS __pgs_action,\n       "@ + cols + ", new_count AS __pgs_count\nFROM "@ + merge
        + "\nWHERE old_count <= 0 AND new_count > 0\n\nUNION ALL"@;
    let k0 = 61int;
    assert(t.subrange(k0, k0 + f0.len()) =~= f0);
    assert(text::occurs_at(t, f0, k0));
    let f1 = "'D' AS __pgs_action,\n       "@ + cols + ", 0 AS __pgs_count\nFROM "@ + merge
        + "\nWHERE old_count > 0 AND new_count <= 0"@;
    let k1 = 235int + cols.len() + merge.len();
    assert(t.subrange(k1, k1 + f1.len()) =~= f1);
    assert(text::occurs_at(t, f1, k1));
}

/// The counts that changed and did not cross zero are stored for the rows that
/// have them.
pub proof fn other_counts_are_stored(
    storage: Seq<char>,
    merge: Seq<char>,
)
    ensures
        ({
            let t = count_update_sql(storage, merge);
            &&& text::occurs(
                t,
                "UPDATE "@ + storage + " st\nSET __pgs_count = m.new_count\nFROM "@ + merge
                    + " m\nWHERE st.__pgs_row_id = m.__pgs_row_id"@,
            )
            &&& text::occurs(
                t,
                "m.old_count > 0 AND m.new_count > 0 AND m.new_count != m.old_count"@,
            )
        }),
{
    reveal_strlit("UPDATE ");
    reveal_strlit(" st\nSET __pgs_count = m.new_count\nFROM ");
    reveal_strlit(" m\nWHERE st.__pgs_row_id = m.__pgs_row_id");
    reveal_strlit("m.old_count > 0 AND m.new_count > 0 AND m.new_count != m.old_count");
    reveal_strlit(" m\nWHERE st.__pgs_row_id = m.__pgs_row_id\n  AND m.old_count > 0 AND m.new_count > 0 AND m.new_count != m.old_count");
    let t = count_update_sql(storage, merge);
    let f0 = "UPDATE "@ + storage + " st\nSET __pgs_count = m.new_count\nFROM "@ + merge
        + " m\nWHERE st.__pgs_row_id = m.__pgs_row_id"@;
    let k0 = 0int;
    assert(t.subrange(k0, k0 + f0.len()) =~= f0);
    assert(text::occurs_at(t, f0, k0));
    let f1 = "m.old_count > 0 AND m.new_count > 0 AND m.new_count != m.old_count"@;
    let k1 = 94int + storage.len() + merge.len();
    assert(t.subrange(k1, k1 + f1.len()) =~= f1);
    assert(text::occurs_at(t, f1, k1));
}

// ── What the rows are ──────────────────────────────────────────────────

/// Counts are kept by the identifier of the row, with its columns.
pub proof fn counts_are_kept_by_identifier(
    row_id: Seq<char>,
    cols: Seq<char>,
    child: Seq<char>,
)
    ensures
        ({
            let t = dist_delta_sql(row_id, cols, child);
            &&& text::occurs(
                t,
                "SELECT "@ + row_id + " AS __pgs_row_id,\n"@ + cols + ","@,
            )
        }),
{
    reveal_strlit(",");
    reveal_strlit("SELECT ");
    reveal_strlit("\nGROUP BY ");
    reveal_strlit(" AS __pgs_row_id,\n");
    reveal_strlit(",\nSUM(CASE WHEN __pgs_action = 'I' THEN 1 ELSE -1 END) AS __net_count\nFROM ");
    let t = dist_delta_sql(row_id, cols, child);
    let f0 = "SELECT "@ + row_id + " AS __pgs_row_id,\n"@ + cols + ","@;
    let k0 = 0int;
    assert(t.subrange(k0, k0 + f0.len()) =~= f0);
    assert(text::occurs_at(t, f0, k0));
}

/// Merged counts keep the identifier and the columns of the row.
pub proof fn merged_counts_keep_identifier_and_columns(
    cols: Seq<char>,
    delta: Seq<char>,
    storage: Seq<char>,
)
    ensures
        ({
            let t = dist_merge_sql(cols, delta, storage);
            &&& text::occurs(
                t,
                "SELECT d.__pgs_row_id,\n"@ + cols + ",\nd.__net_count,"@,
            )
        }),
{
    reveal_strlit(" d\nLEFT JOIN ");
    reveal_strlit(",\nd.__net_count,");
    reveal_strlit("SELECT d.__pgs_row_id,\n");
    reveal_strlit(" st ON st.__pgs_row_id = d.__pgs_row_id");
    reveal_strlit(",\nd.__net_count,\nCOALESCE(st.__pgs_count, 0) AS old_count,\nCOALESCE(st.__pgs_count, 0) + d.__net_count AS new_count\nFROM ");
    let t = dist_merge_sql(cols, delta, storage);
    let f0 = "SELECT d.__pgs_row_id,\n"@ + cols + ",\nd.__net_count,"@;
    let k0 = 0int;
    assert(t.subrange(k0, k0 + f0.len()) =~= f0);
    assert(text::occurs_at(t, f0, k0));
}

} // verus!
