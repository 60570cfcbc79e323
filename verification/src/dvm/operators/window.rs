//! Window functions.
//!
//! Every partition with a changed row is computed anew: its stored rows are
//! deleted, its input is put together from the stored rows that survive and
//! the rows inserted, and the window functions are evaluated on that.

use vstd::prelude::*;
use vstd::string::*;

use crate::dvm::diff;
use crate::dvm::diff::{col_list, equate_cols, prefixed_col_list, quote_ident, wrap_cols};
use crate::dvm::diff::{Delta, DiffContext, DiffEnv, DiffResult, DiffState, Outcome};
use crate::dvm::engine;
use crate::dvm::operators::scan;
use crate::dvm::operators::scan::build_hash_expr;
use crate::dvm::parser;
use crate::dvm::parser::{aliases_of_windows, aliases_passed_through, exprs_sql};
use crate::dvm::parser::{Expr, OpTree, WindowExpr};
use crate::error::{ErrorView, PgTrickleError};
use crate::sql_builder;
use crate::text;
use crate::text::{copy_texts, join_texts};

verus! {

// ── Queries ────────────────────────────────────────────────────────────

/// One row where anything changed.
pub open spec fn any_change_sql(child: Seq<char>) -> Seq<char> {
    "SELECT 1 AS __pgs_dummy\n\
        FROM "@ + child + " LIMIT 1"@
}

/// One row where anything changed.
fn any_change_query(child: &str) -> (r: String)
    ensures
        r@ == any_change_sql(child@),
{
    let mut r = "SELECT 1 AS __pgs_dummy\n\
        FROM ".to_string();
    r.append(child);
    r.append(" LIMIT 1");
    r
}

/// The partitions with a changed row.
pub open spec fn changed_parts_sql(cols: Seq<char>, child: Seq<char>) -> Seq<char> {
    "SELECT DISTINCT "@ + cols + "\n\
        FROM "@ + child
}

/// The partitions with a changed row.
fn changed_parts_query(cols: &str, child: &str) -> (r: String)
    ensures
        r@ == changed_parts_sql(cols@, child@),
{
    let mut r = "SELECT DISTINCT ".to_string();
    r.append(cols);
    r.append("\n\
        FROM ");
    r.append(child);
    r
}

/// The stored rows of changed partitions.
pub open spec fn old_rows_sql(
    cols: Seq<char>,
    storage: Seq<char>,
    parts: Seq<char>,
    cond: Seq<char>,
) -> Seq<char> {
    "SELECT st.\"__pgs_row_id\", "@ + cols + "\n\
        FROM "@ + storage + " st\n\
        WHERE EXISTS (\n\
        SELECT 1 FROM "@ + parts + " cp WHERE "@ + cond + "\n\
        )"@
}

/// The stored rows of changed partitions.
fn old_rows_query(cols: &str, storage: &str, parts: &str, cond: &str) -> (r: String)
    ensures
        r@ == old_rows_sql(cols@, storage@, parts@, cond@),
{
    let mut r = "SELECT st.\"__pgs_row_id\", ".to_string();
    r.append(cols);
    r.append("\n\
        FROM ");
    r.append(storage);
    r.append(" st\n\
        WHERE EXISTS (\n\
        SELECT 1 FROM ");
    r.append(parts);
    r.append(" cp WHERE ");
    r.append(cond);
    r.append("\n\
        )");
    r
}

/// The current input of changed partitions.
pub open spec fn current_input_sql(
    old_cols: Seq<char>,
    old_rows: Seq<char>,
    child: Seq<char>,
    new_cols: Seq<char>,
    parts: Seq<char>,
    cond: Seq<char>,
) -> Seq<char> {
    "-- Surviving old rows (pass-through only, window cols stripped)\n\
        SELECT o.\"__pgs_row_id\", "@ + old_cols + "\n\
        FROM "@ + old_rows + " o\n\
        WHERE o.\"__pgs_row_id\" NOT IN (\n\
        SELECT \"__pgs_row_id\" FROM "@ + child + " WHERE \"__pgs_action\" = 'D'\n\
        )\n\
        UNION ALL\n\
        -- Newly inserted rows\n\
        SELECT d.\"__pgs_row_id\", "@ + new_cols + "\n\
        FROM "@ + child + " d\n\
        WHERE d.\"__pgs_action\" = 'I'\n\
        AND EXISTS (\n\
        SELECT 1 FROM "@ + parts + " cp WHERE "@ + cond + "\n\
        )"@
}

/// The current input of changed partitions.
fn current_input_query(
    old_cols: &str,
    old_rows: &str,
    child: &str,
    new_cols: &str,
    parts: &str,
    cond: &str,
) -> (r: String)
    ensures
        r@ == current_input_sql(old_cols@, old_rows@, child@, new_cols@, parts@, cond@),
{
    let mut r = "-- Surviving old rows (pass-through only, window cols stripped)\n\
        SELECT o.\"__pgs_row_id\", ".to_string();
    r.append(old_cols);
    r.append("\n\
        FROM ");
    r.append(old_rows);
    r.append(" o\n\
        WHERE o.\"__pgs_row_id\" NOT IN (\n\
        SELECT \"__pgs_row_id\" FROM ");
    r.append(child);
    r.append(" WHERE \"__pgs_action\" = 'D'\n\
        )\n\
        UNION ALL\n\
        -- Newly inserted rows\n\
        SELECT d.\"__pgs_row_id\", ");
    r.append(new_cols);
    r.append("\n\
        FROM ");
    r.append(child);
    r.append(" d\n\
        WHERE d.\"__pgs_action\" = 'I'\n\
        AND EXISTS (\n\
        SELECT 1 FROM ");
    r.append(parts);
    r.append(" cp WHERE ");
    r.append(cond);
    r.append("\n\
        )");
    r
}

/// The window functions on the current input.
pub open spec fn recomputed_sql(
    row_id: Seq<char>,
    cols: Seq<char>,
    windows: Seq<char>,
    input: Seq<char>,
) -> Seq<char> {
    "SELECT "@ + row_id + " AS \"__pgs_row_id\",\n"@ + cols + ",\n"@ + windows + "\n\
        FROM "@ + input + " ci"@
}

/// The window functions on the current input.
fn recomputed_query(row_id: &str, cols: &str, windows: &str, input: &str) -> (r: String)
    ensures
        r@ == recomputed_sql(row_id@, cols@, windows@, input@),
{
    let mut r = "SELECT ".to_string();
    r.append(row_id);
    r.append(" AS \"__pgs_row_id\",\n");
    r.append(cols);
    r.append(",\n");
    r.append(windows);
    r.append("\n\
        FROM ");
    r.append(input);
    r.append(" ci");
    r
}

/// The stored rows deleted, the computed rows inserted.
pub open spec fn win_final_sql(
    cols: Seq<char>,
    old_rows: Seq<char>,
    recomputed: Seq<char>,
) -> Seq<char> {
    "-- Delete old window results for changed partitions\n\
        SELECT \"__pgs_row_id\", 'D' AS \"__pgs_action\", "@ + cols + "\n\
        FROM "@ + old_rows + "\n\
        UNION ALL\n\
        -- Insert recomputed window results\n\
        SELECT \"__pgs_row_id\", 'I' AS \"__pgs_action\", "@ + cols + "\n\
        FROM "@ + recomputed
}

/// The stored rows deleted, the computed rows inserted.
fn win_final_query(cols: &str, old_rows: &str, recomputed: &str) -> (r: String)
    ensures
        r@ == win_final_sql(cols@, old_rows@, recomputed@),
{
    let mut r = "-- Delete old window results for changed partitions\n\
        SELECT \"__pgs_row_id\", 'D' AS \"__pgs_action\", ".to_string();
    r.append(cols);
    r.append("\n\
        FROM ");
    r.append(old_rows);
    r.append("\n\
        UNION ALL\n\
        -- Insert recomputed window results\n\
        SELECT \"__pgs_row_id\", 'I' AS \"__pgs_action\", ");
    r.append(cols);
    r.append("\n\
        FROM ");
    r.append(recomputed);
    r
}

// ── Differentiation ────────────────────────────────────────────────────

/// The window function calls, under their names.
pub open spec fn window_selects(ws: Seq<WindowExpr>) -> Seq<Seq<char>> {
    Seq::new(ws.len(), |i: int| ws[i].sql() + " AS "@ + sql_builder::ident_text(ws[i].alias@))
}

/// Whether a row belongs to a changed partition.
pub open spec fn partition_cond(prefix: Seq<char>, partition: Seq<Seq<char>>) -> Seq<char> {
    if partition.len() == 0 {
        "TRUE"@
    } else {
        text::join(diff::equalities(prefix, "cp."@, partition), " AND "@)
    }
}

/// The identifier of a row: the hash of the columns that are passed through.
pub open spec fn window_row_id(pt: Seq<Seq<char>>) -> Seq<char> {
    if pt.len() == 0 {
        "pgstream.pg_stream_hash('__window_singleton')"@
    } else {
        scan::hash_call("pgtrickle.pg_trickle_hash"@, diff::wrapped("ci."@, pt, "::TEXT"@))
    }
}

/// The outcome of window functions over the delta of their input.
pub open spec fn window_outcome(
    env: DiffEnv,
    st: DiffState,
    ws: Seq<WindowExpr>,
    partition: Seq<Seq<char>>,
    pt: Seq<Seq<char>>,
    c: Delta,
) -> Outcome {
    let all = pt + parser::window_names(ws);
    let parts = st.fresh("win_parts"@);
    let st1 = st.step(
        "win_parts"@,
        if partition.len() == 0 {
            any_change_sql(c.cte_name)
        } else {
            changed_parts_sql(diff::cols_text(partition), c.cte_name)
        },
    );
    let old = st1.fresh("win_old"@);
    let st2 = st1.step(
        "win_old"@,
        old_rows_sql(
            text::join(diff::wrapped("st."@, all, ""@), ", "@),
            env.storage(),
            parts,
            partition_cond("st."@, partition),
        ),
    );
    let input = st2.fresh("win_input"@);
    let st3 = st2.step(
        "win_input"@,
        current_input_sql(
            text::join(diff::wrapped("o"@ + "."@, pt, ""@), ", "@),
            old,
            c.cte_name,
            text::join(diff::wrapped("d"@ + "."@, pt, ""@), ", "@),
            parts,
            partition_cond("d."@, partition),
        ),
    );
    let recomputed = st3.fresh("win_recomp"@);
    let st4 = st3.step(
        "win_recomp"@,
        recomputed_sql(
            window_row_id(pt),
            text::join(diff::wrapped("ci"@ + "."@, pt, ""@), ", "@),
            text::join(window_selects(ws), ",\n       "@),
            input,
        ),
    );
    (
        st4.step("win_final"@, win_final_sql(diff::cols_text(all), old, recomputed)),
        Ok(
            Delta { cte_name: st4.fresh("win_final"@), columns: all, is_deduplicated: false },
        ),
    )
}

/// The outcome of differentiating an operator as window functions.
pub open spec fn window_diff(env: DiffEnv, st: DiffState, op: OpTree) -> Outcome
    decreases env.cte_registry.depth(op), op, 0nat,
{
    match op {
        OpTree::Window { window_exprs, partition_by, pass_through, child } => match engine::tree_diff(
            env,
            st,
            *child,
        ) {
            (st1, Ok(c)) => window_outcome(
                env,
                st1,
                window_exprs@,
                parser::sql_all(parser::expr_views(partition_by@)),
                parser::pass_through_names(pass_through@),
                c,
            ),
            (st1, Err(e)) => (st1, Err(e)),
        },
        _ => (st, Err(ErrorView::InternalError("diff_window called on non-Window node"@))),
    }
}

/// The window function calls, under their names.
fn build_window_selects(ws: &Vec<WindowExpr>) -> (r: Vec<String>)
    ensures
        text::texts(r@) == window_selects(ws@),
{
    let mut r: Vec<String> = Vec::new();
    let mut i: usize = 0;
    while i < ws.len()
        invariant
            i <= ws.len(),
            r@.len() == i,
            forall|k: int|
                0 <= k < i ==> (#[trigger] r@[k])@ == ws@[k].sql() + " AS "@
                    + sql_builder::ident_text(ws@[k].alias@),
        decreases ws.len() - i,
    {
        let mut part = ws[i].to_sql();
        part.append(" AS ");
        part.append(quote_ident(ws[i].alias.as_str()).as_str());
        r.push(part);
        i += 1;
    }
    assert(text::texts(r@) =~= window_selects(ws@));
    r
}

/// Whether a row belongs to a changed partition.
fn build_partition_cond(prefix: &str, partition: &Vec<String>) -> (r: String)
    ensures
        r@ == partition_cond(prefix@, text::texts(partition@)),
{
    if partition.len() == 0 {
        "TRUE".to_string()
    } else {
        join_texts(&equate_cols(prefix, "cp.", partition), " AND ")
    }
}

/// The identifier of a row.
fn build_row_id(pt: &Vec<String>) -> (r: String)
    ensures
        r@ == window_row_id(text::texts(pt@)),
{
    if pt.len() == 0 {
        "pgstream.pg_stream_hash('__window_singleton')".to_string()
    } else {
        build_hash_expr(wrap_cols("ci.", pt, "::TEXT").as_slice())
    }
}

/// Adds window functions over the delta of their input to the chain.
fn add_window(
    ctx: &mut DiffContext,
    window_exprs: &Vec<WindowExpr>,
    partition_by: &Vec<Expr>,
    pass_through: &Vec<(Expr, String)>,
    c: DiffResult,
) -> (d: DiffResult)
    ensures
        final(ctx).env() == old(ctx).env(),
        diff::yields(*final(ctx), Ok(d), window_outcome(
            old(ctx).env(),
            old(ctx).state(),
            window_exprs@,
            parser::sql_all(parser::expr_views(partition_by@)),
            parser::pass_through_names(pass_through@),
            c@,
        )),
{
    let storage = ctx.storage();
    let pt = aliases_passed_through(pass_through);
    let all = parser::both(copy_texts(&pt), aliases_of_windows(window_exprs));
    let partition = exprs_sql(partition_by);
    let child_cte = c.cte_name.as_str();

    let parts = ctx.next_cte_name("win_parts");
    let parts_sql = if partition.len() == 0 {
        any_change_query(child_cte)
    } else {
        changed_parts_query(col_list(partition.as_slice()).as_str(), child_cte)
    };
    ctx.add_cte(parts.clone(), parts_sql);

    let old_rows = ctx.next_cte_name("win_old");
    let old_sql = old_rows_query(
        join_texts(&wrap_cols("st.", &all, ""), ", ").as_str(),
        storage.as_str(),
        parts.as_str(),
        build_partition_cond("st.", &partition).as_str(),
    );
    ctx.add_cte(old_rows.clone(), old_sql);

    let input = ctx.next_cte_name("win_input");
    let input_sql = current_input_query(
        prefixed_col_list("o", &pt).as_str(),
        old_rows.as_str(),
        child_cte,
        prefixed_col_list("d", &pt).as_str(),
        parts.as_str(),
        build_partition_cond("d.", &partition).as_str(),
    );
    ctx.add_cte(input.clone(), input_sql);

    let recomputed = ctx.next_cte_name("win_recomp");
    let recomputed_sql = recomputed_query(
        build_row_id(&pt).as_str(),
        prefixed_col_list("ci", &pt).as_str(),
        join_texts(&build_window_selects(window_exprs), ",\n       ").as_str(),
        input.as_str(),
    );
    ctx.add_cte(recomputed.clone(), recomputed_sql);

    let cte_name = ctx.next_cte_name("win_final");
    let final_sql = win_final_query(
        col_list(all.as_slice()).as_str(),
        old_rows.as_str(),
        recomputed.as_str(),
    );
    ctx.add_cte(cte_name.clone(), final_sql);
    DiffResult { cte_name, columns: all, is_deduplicated: false }
}

/// Differentiates window functions.
///
/// The delta has the columns that are passed through and the results of the
/// functions.
pub fn diff_window(ctx: &mut DiffContext, op: &OpTree) -> (r: Result<DiffResult, PgTrickleError>)
    requires
        old(ctx).env().cte_registry.acyclic(),
    ensures
        final(ctx).env() == old(ctx).env(),
        diff::yields(
            *final(ctx),
            r,
            window_diff(old(ctx).env(), old(ctx).state(), *op),
        ),
    decreases old(ctx).env().cte_registry.depth(*op), op, 0nat,
{
    match op {
        OpTree::Window { window_exprs, partition_by, pass_through, child } => {
            let c = match ctx.diff_node(child) {
                Ok(d) => d,
                Err(e) => {
                    return Err(e);
                },
            };
            Ok(add_window(ctx, window_exprs, partition_by, pass_through, c))
        },
        _ => Err(
            PgTrickleError::InternalError("diff_window called on non-Window node".to_string()),
        ),
    }
}

// ── What the queries say ───────────────────────────────────────────────

/// Without partitions any change concerns all rows.
pub proof fn any_change_concerns_the_whole(
    child: Seq<char>,
)
    ensures
        ({
            let t = any_change_sql(child);
            &&& text::occurs(
                t,
                "FROM "@ + child + " LIMIT 1"@,
            )
        }),
{
    reveal_strlit("FROM ");
    reveal_strlit(" LIMIT 1");
    reveal_strlit("SELECT 1 AS __pgs_dummy\nFROM ");
    let t = any_change_sql(child);
    let f0 = "FROM "@ + child + " LIMIT 1"@;
    let k0 = 24int;
    assert(t.subrange(k0, k0 + f0.len()) =~= f0);
    assert(text::occurs_at(t, f0, k0));
}

/// A partition is recomputed if a row of it changed.
pub proof fn partitions_with_changes_are_recomputed(
    cols: Seq<char>,
    child: Seq<char>,
)
    ensures
        ({
            let t = changed_parts_sql(cols, child);
            &&& text::occurs(
                t,
                "SELECT DISTINCT "@ + cols + "\nFROM "@ + child,
            )
        }),
{
    reveal_strlit("\nFROM ");
    reveal_strlit("SELECT DISTINCT ");
    let t = changed_parts_sql(cols, child);
    let f0 = "SELECT DISTINCT "@ + cols + "\nFROM "@ + child;
    let k0 = 0int;
    assert(t.subrange(k0, k0 + f0.len()) =~= f0);
    assert(text::occurs_at(t, f0, k0));
}

/// The stored rows of the changed partitions are taken with their identifiers.
pub proof fn stored_rows_of_changed_partitions_are_taken(
    cols: Seq<char>,
    storage: Seq<char>,
    parts: Seq<char>,
    cond: Seq<char>,
)
    ensures
        ({
            let t = old_rows_sql(cols, storage, parts, cond);
            &&& text::occurs(
                t,
                "SELECT st.\"__pgs_row_id\", "@ + cols + "\nFROM "@ + storage
                    + " st\nWHERE EXISTS (\nSELECT 1 FROM "@ + parts + " cp WHERE "@ + cond
                    + "\n)"@,
            )
        }),
{
    reveal_strlit("\n)");
    reveal_strlit("\nFROM ");
    reveal_strlit(" cp WHERE ");
    reveal_strlit("SELECT st.\"__pgs_row_id\", ");
    reveal_strlit(" st\nWHERE EXISTS (\nSELECT 1 FROM ");
    let t = old_rows_sql(cols, storage, parts, cond);
    let f0 = "SELECT st.\"__pgs_row_id\", "@ + cols + "\nFROM "@ + storage
        + " st\nWHERE EXISTS (\nSELECT 1 FROM "@ + parts + " cp WHERE "@ + cond + "\n)"@;
    let k0 = 0int;
    assert(t.subrange(k0, k0 + f0.len()) =~= f0);
    assert(text::occurs_at(t, f0, k0));
}

/// The current rows of the changed partitions are the stored ones that were not
/// deleted, and those that were inserted.
pub proof fn current_rows_are_stored_ones_with_the_changes(
    old_cols: Seq<char>,
    old_rows: Seq<char>,
    child: Seq<char>,
    new_cols: Seq<char>,
    parts: Seq<char>,
    cond: Seq<char>,
)
    ensures
        ({
            let t = current_input_sql(old_cols, old_rows, child, new_cols, parts, cond);
            &&& text::occurs(
                t,
                old_cols + "\nFROM "@ + old_rows
                    + " o\nWHERE o.\"__pgs_row_id\" NOT IN (\nSELECT \"__pgs_row_id\" FROM "@
                    + child + " WHERE \"__pgs_action\" = 'D'\n)\nUNION ALL"@,
            )
            &&& text::occurs(
                t,
                new_cols + "\nFROM "@ + child
                    + " d\nWHERE d.\"__pgs_action\" = 'I'\nAND EXISTS (\nSELECT 1 FROM "@ + parts
                    + " cp WHERE "@ + cond + "\n)"@,
            )
        }),
{
    reveal_strlit("\n)");
    reveal_strlit("\nFROM ");
    reveal_strlit(" cp WHERE ");
    reveal_strlit(" WHERE \"__pgs_action\" = 'D'\n)\nUNION ALL");
    reveal_strlit(" d\nWHERE d.\"__pgs_action\" = 'I'\nAND EXISTS (\nSELECT 1 FROM ");
    reveal_strlit(" o\nWHERE o.\"__pgs_row_id\" NOT IN (\nSELECT \"__pgs_row_id\" FROM ");
    reveal_strlit(" WHERE \"__pgs_action\" = 'D'\n)\nUNION ALL\n-- Newly inserted rows\nSELECT d.\"__pgs_row_id\", ");
    reveal_strlit("-- Surviving old rows (pass-through only, window cols stripped)\nSELECT o.\"__pgs_row_id\", ");
    let t = current_input_sql(old_cols, old_rows, child, new_cols, parts, cond);
    let f0 = old_cols + "\nFROM "@ + old_rows
        + " o\nWHERE o.\"__pgs_row_id\" NOT IN (\nSELECT \"__pgs_row_id\" FROM "@ + child
        + " WHERE \"__pgs_action\" = 'D'\n)\nUNION ALL"@;
    let k0 = 89int;
    assert(t.subrange(k0, k0 + f0.len()) =~= f0);
    assert(text::occurs_at(t, f0, k0));
    let f1 = new_cols + "\nFROM "@ + child
        + " d\nWHERE d.\"__pgs_action\" = 'I'\nAND EXISTS (\nSELECT 1 FROM "@ + parts
        + " cp WHERE "@ + cond + "\n)"@;
    let k1 = 245int + old_cols.len() + old_rows.len() + child.len();
    assert(t.subrange(k1, k1 + f1.len()) =~= f1);
    assert(text::occurs_at(t, f1, k1));
}

/// The window functions are evaluated over the current rows.
pub proof fn window_functions_are_evaluated_over_the_current_rows(
    row_id: Seq<char>,
    cols: Seq<char>,
    windows: Seq<char>,
    input: Seq<char>,
)
    ensures
        ({
            let t = recomputed_sql(row_id, cols, windows, input);
            &&& text::occurs(
                t,
                "SELECT "@ + row_id + " AS \"__pgs_row_id\",\n"@ + cols + ",\n"@ + windows
                    + "\nFROM "@ + input + " ci"@,
            )
        }),
{
    reveal_strlit(",\n");
    reveal_strlit(" ci");
    reveal_strlit("\nFROM ");
    reveal_strlit("SELECT ");
    reveal_strlit(" AS \"__pgs_row_id\",\n");
    let t = recomputed_sql(row_id, cols, windows, input);
    let f0 = "SELECT "@ + row_id + " AS \"__pgs_row_id\",\n"@ + cols + ",\n"@ + windows + "\nFROM "@
        + input + " ci"@;
    let k0 = 0int;
    assert(t.subrange(k0, k0 + f0.len()) =~= f0);
    assert(text::occurs_at(t, f0, k0));
}

/// The old results of the changed partitions are deleted and the new ones
/// inserted.
pub proof fn old_results_are_replaced_by_new_ones(
    cols: Seq<char>,
    old_rows: Seq<char>,
    recomputed: Seq<char>,
)
    ensures
        ({
            let t = win_final_sql(cols, old_rows, recomputed);
            &&& text::occurs(
                t,
                "'D' AS \"__pgs_action\", "@ + cols + "\nFROM "@ + old_rows + "\nUNION ALL"@,
            )
            &&& text::occurs(
                t,
                "'I' AS \"__pgs_action\", "@ + cols + "\nFROM "@ + recomputed,
            )
        }),
{
    reveal_strlit("\nFROM ");
    reveal_strlit("\nUNION ALL");
    reveal_strlit("'D' AS \"__pgs_action\", ");
    reveal_strlit("'I' AS \"__pgs_action\", ");
    reveal_strlit("\nUNION ALL\n-- Insert recomputed window results\nSELECT \"__pgs_row_id\", 'I' AS \"__pgs_action\", ");
    reveal_strlit("-- Delete old window results for changed partitions\nSELECT \"__pgs_row_id\", 'D' AS \"__pgs_action\", ");
    let t = win_final_sql(cols, old_rows, recomputed);
    let f0 = "'D' AS \"__pgs_action\", "@ + cols + "\nFROM "@ + old_rows + "\nUNION ALL"@;
    let k0 = 75int;
    assert(t.subrange(k0, k0 + f0.len()) =~= f0);
    assert(text::occurs_at(t, f0, k0));
    let f1 = "'I' AS \"__pgs_action\", "@ + cols + "\nFROM "@ + recomputed;
    let k1 = 174int + cols.len() + old_rows.len();
    assert(t.subrange(k1, k1 + f1.len()) =~= f1);
    assert(text::occurs_at(t, f1, k1));
}

// ── What the rows are ──────────────────────────────────────────────────

/// Current rows keep their identifier.
pub proof fn current_rows_keep_their_identifier(
    old_cols: Seq<char>,
    old_rows: Seq<char>,
    child: Seq<char>,
    new_cols: Seq<char>,
    parts: Seq<char>,
    cond: Seq<char>,
)
    ensures
        ({
            let t = current_input_sql(old_cols, old_rows, child, new_cols, parts, cond);
            &&& text::occurs(
                t,
                "SELECT o.\"__pgs_row_id\","@,
            )
            &&& text::occurs(
                t,
                "SELECT d.\"__pgs_row_id\","@,
            )
        }),
{
    reveal_strlit("\n)");
    reveal_strlit("\nFROM ");
    reveal_strlit(" cp WHERE ");
    reveal_strlit("SELECT d.\"__pgs_row_id\",");
    reveal_strlit("SELECT o.\"__pgs_row_id\",");
    reveal_strlit(" d\nWHERE d.\"__pgs_action\" = 'I'\nAND EXISTS (\nSELECT 1 FROM ");
    reveal_strlit(" o\nWHERE o.\"__pgs_row_id\" NOT IN (\nSELECT \"__pgs_row_id\" FROM ");
    reveal_strlit(" WHERE \"__pgs_action\" = 'D'\n)\nUNION ALL\n-- Newly inserted rows\nSELECT d.\"__pgs_row_id\", ");
    reveal_strlit("-- Surviving old rows (pass-through only, window cols stripped)\nSELECT o.\"__pgs_row_id\", ");
    let t = current_input_sql(old_cols, old_rows, child, new_cols, parts, cond);
    let f0 = "SELECT o.\"__pgs_row_id\","@;
    let k0 = 64int;
    assert(t.subrange(k0, k0 + f0.len()) =~= f0);
    assert(text::occurs_at(t, f0, k0));
    let f1 = "SELECT d.\"__pgs_row_id\","@;
    let k1 = 220int + old_cols.len() + old_rows.len() + child.len();
    assert(t.subrange(k1, k1 + f1.len()) =~= f1);
    assert(text::occurs_at(t, f1, k1));
}

} // verus!
