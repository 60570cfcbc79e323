//! Anti-joins (`NOT EXISTS` and `NOT IN` subqueries).
//!
//! The delta has two parts: changed left rows without a match in the current
//! right rows, and left rows that match a changed right row and whose having a
//! match at all changed with it.

use vstd::prelude::*;
use vstd::string::*;

use crate::dvm::diff;
use crate::dvm::diff::{col_list, quote_ident, wrap_cols};
use crate::dvm::diff::{Delta, DiffContext, DiffEnv, DiffResult, DiffState, Outcome};
use crate::dvm::engine;
use crate::dvm::operators::join_common;
use crate::dvm::operators::join_common::{build_snapshot_sql, build_status_part, exists_query};
use crate::dvm::operators::join_common::{rewrite_join_condition, StatusPart};
use crate::dvm::operators::semi_join;
use crate::dvm::parser::{Expr, ExprView, OpTree};
use crate::error::{ErrorView, PgTrickleError};
use crate::sql_builder;
use crate::text;
use crate::text::join_texts;

verus! {

// ── Queries ────────────────────────────────────────────────────────────

/// The right rows before the changes.
pub open spec fn right_old_sql(
    cols: Seq<char>,
    table: Seq<char>,
    alias: Seq<char>,
    delta: Seq<char>,
) -> Seq<char> {
    "(SELECT "@ + cols + " FROM "@ + table + " "@ + alias + " EXCEPT ALL SELECT "@ + cols
        + " FROM "@ + delta + " WHERE __pgs_action = 'I' UNION ALL SELECT "@ + cols + " FROM "@
        + delta + " WHERE __pgs_action = 'D') "@
}

/// The right rows before the changes.
fn right_old_query(cols: &str, table: &str, alias: &str, delta: &str) -> (r: String)
    ensures
        r@ == right_old_sql(cols@, table@, alias@, delta@),
{
    let mut r = "(SELECT ".to_string();
    r.append(cols);
    r.append(" FROM ");
    r.append(table);
    r.append(" ");
    r.append(alias);
    r.append(" EXCEPT ALL SELECT ");
    r.append(cols);
    r.append(" FROM ");
    r.append(delta);
    r.append(" WHERE __pgs_action = 'I' UNION ALL SELECT ");
    r.append(cols);
    r.append(" FROM ");
    r.append(delta);
    r.append(" WHERE __pgs_action = 'D') ");
    r
}

/// The identifier of a left row.
pub open spec fn left_hash_sql(args: Seq<char>) -> Seq<char> {
    "pgstream.pg_stream_hash_multi(ARRAY["@ + args + "])"@
}

/// The identifier of a left row.
fn left_hash_query(args: &str) -> (r: String)
    ensures
        r@ == left_hash_sql(args@),
{
    let mut r = "pgstream.pg_stream_hash_multi(ARRAY[".to_string();
    r.append(args);
    r.append("])");
    r
}

/// The changed left rows without a match.
pub open spec fn anti_left_sql(
    dl_cols: Seq<char>,
    delta_left: Seq<char>,
    right_table: Seq<char>,
    cond_dl: Seq<char>,
) -> Seq<char> {
    "-- Part 1: delta_left rows that have NO match in current right (anti-join filter)\n\
        SELECT dl.__pgs_row_id AS __pgs_row_id,\n       \
        dl.__pgs_action,\n       "@ + dl_cols + "\n\
        FROM "@ + delta_left + " dl\n\
        WHERE NOT "@ + join_common::exists_sql(right_table, "r"@, cond_dl)
}

/// The changed left rows without a match.
fn anti_left_query(dl_cols: &str, delta_left: &str, right_table: &str, cond_dl: &str) -> (r: String)
    ensures
        r@ == anti_left_sql(dl_cols@, delta_left@, right_table@, cond_dl@),
{
    let mut r = "-- Part 1: delta_left rows that have NO match in current right (anti-join filter)\n\
        SELECT dl.__pgs_row_id AS __pgs_row_id,\n       \
        dl.__pgs_action,\n       ".to_string();
    r.append(dl_cols);
    r.append("\n\
        FROM ");
    r.append(delta_left);
    r.append(" dl\n\
        WHERE NOT ");
    r.append(exists_query(right_table, "r", cond_dl).as_str());
    r
}

/// The delta of an anti-join: changed left rows, and left rows whose match
/// changed.
pub open spec fn anti_join_sql(left_part: Seq<char>, status_part: Seq<char>) -> Seq<char> {
    left_part + "\n\n\
        UNION ALL\n\n\
        -- Part 2: left rows whose anti-join status changed due to right-side delta\n\
        -- Emit 'I' if row now has no match in R_current but had a match in R_old\n\
        -- Emit 'D' if row had no match in R_old but now has a match in R_current\n"@ + status_part
}

/// The delta of an anti-join.
fn anti_join_query(left_part: &str, status_part: &str) -> (r: String)
    ensures
        r@ == anti_join_sql(left_part@, status_part@),
{
    let mut r = left_part.to_string();
    r.append("\n\n\
        UNION ALL\n\n\
        -- Part 2: left rows whose anti-join status changed due to right-side delta\n\
        -- Emit 'I' if row now has no match in R_current but had a match in R_old\n\
        -- Emit 'D' if row had no match in R_old but now has a match in R_current\n");
    r.append(status_part);
    r
}

// ── Differentiation ────────────────────────────────────────────────────

/// The left rows of an anti-join whose match changed.
pub open spec fn anti_status(
    condition: ExprView,
    left: OpTree,
    right: OpTree,
    l: Delta,
    r: Delta,
) -> StatusPart {
    let right_table = join_common::snapshot_sql(right);
    let r_old = right_old_sql(
        diff::cols_text(r.columns),
        right_table,
        sql_builder::ident_text(right.spec_alias()),
        r.cte_name,
    );
    StatusPart {
        negated: true,
        row_id: "__pgs_row_id"@,
        action: "__pgs_action"@,
        hash: left_hash_sql(text::join(diff::wrapped("l."@, l.columns, "::TEXT"@), ", "@)),
        now: join_common::exists_sql(
            right_table,
            "r"@,
            join_common::condition_sql(condition, left, "l"@, right, "r"@),
        ),
        cols: text::join(diff::wrapped("l."@, l.columns, ""@), ", "@),
        left: join_common::snapshot_sql(left),
        touched: join_common::exists_sql(
            r.cte_name,
            "dr"@,
            join_common::condition_sql(condition, left, "l"@, right, "dr"@),
        ),
        before: join_common::exists_sql(
            r_old,
            "r_old"@,
            join_common::condition_sql(condition, left, "l"@, right, "r_old"@),
        ),
    }
}

/// The query of an anti-join over the deltas of its inputs.
#[verifier::opaque]
pub open spec fn anti_join_text(
    condition: ExprView,
    left: OpTree,
    right: OpTree,
    l: Delta,
    r: Delta,
) -> Seq<char> {
    anti_join_sql(
        anti_left_sql(
            text::join(diff::wrapped("dl."@, l.columns, ""@), ", "@),
            l.cte_name,
            join_common::snapshot_sql(right),
            join_common::condition_sql(condition, left, "dl"@, right, "r"@),
        ),
        anti_status(condition, left, right, l, r).text(),
    )
}

/// The part of an anti-join that changes of the right rows drive is that of
/// the semi-join of the same inputs with inserts and deletes swapped: the same
/// columns of the same left rows by the same test for a match, inserted where
/// the semi-join deletes them and deleted where it inserts them.  So a left
/// row is inserted if and only if it had a match and has none, and deleted if
/// and only if it has a match and had none.
pub proof fn anti_join_swaps_semi_join(
    condition: ExprView,
    left: OpTree,
    right: OpTree,
    l: Delta,
    r: Delta,
    r_old: Seq<char>,
)
    ensures
        anti_join_text(condition, left, right, l, r) == anti_join_sql(
            anti_left_sql(
                text::join(diff::wrapped("dl."@, l.columns, ""@), ", "@),
                l.cte_name,
                join_common::snapshot_sql(right),
                join_common::condition_sql(condition, left, "dl"@, right, "r"@),
            ),
            anti_status(condition, left, right, l, r).text(),
        ),
        semi_join::semi_join_text(condition, left, right, l, r, r_old) == semi_join::semi_join_sql(
            semi_join::semi_left(condition, left, right, l, r_old),
            semi_join::semi_status(condition, left, right, l, r, r_old).text(),
        ),
        ({
            let anti = anti_status(condition, left, right, l, r);
            let semi = semi_join::semi_status(condition, left, right, l, r, r_old);
            &&& anti.cols == semi.cols
            &&& anti.now == semi.now
            &&& anti.touched == semi.touched
            &&& forall|now: bool, before: bool| #[trigger]
                anti.emits(now, before) == join_common::swapped(semi.emits(now, before))
            &&& forall|now: bool, before: bool| #[trigger]
                anti.emits(now, before) == Some('I') <==> before && !now
            &&& forall|now: bool, before: bool| #[trigger]
                anti.emits(now, before) == Some('D') <==> now && !before
        }),
{
    reveal(anti_join_text);
    reveal(semi_join::semi_join_text);
}

/// The outcome of an anti-join over the deltas of its inputs.
pub open spec fn anti_join_outcome(
    st: DiffState,
    condition: ExprView,
    left: OpTree,
    right: OpTree,
    l: Delta,
    r: Delta,
) -> Outcome {
    (
        st.step("anti_join"@, anti_join_text(condition, left, right, l, r)),
        Ok(
            Delta {
                cte_name: st.fresh("anti_join"@),
                columns: l.columns,
                is_deduplicated: false,
            },
        ),
    )
}

/// The outcome of differentiating an operator as an anti-join.
pub open spec fn anti_join_diff(env: DiffEnv, st: DiffState, op: OpTree) -> Outcome
    decreases env.cte_registry.depth(op), op, 0nat,
{
    match op {
        OpTree::AntiJoin { condition, left, right } => match engine::tree_diff(env, st, *left) {
            (st1, Ok(l)) => match engine::tree_diff(env, st1, *right) {
                (st2, Ok(r)) => anti_join_outcome(st2, condition@, *left, *right, l, r),
                (st2, Err(e)) => (st2, Err(e)),
            },
            (st1, Err(e)) => (st1, Err(e)),
        },
        _ => (st, Err(ErrorView::InternalError("diff_anti_join called on non-AntiJoin node"@))),
    }
}

/// The query of an anti-join over the deltas of its inputs.
fn build_anti_join(
    condition: &Expr,
    left: &OpTree,
    right: &OpTree,
    l: &DiffResult,
    r: &DiffResult,
) -> (s: String)
    ensures
        s@ == anti_join_text(condition@, *left, *right, l@, r@),
{
    proof {
        reveal(anti_join_text);
    }
    let right_table = build_snapshot_sql(right);
    let hash = left_hash_query(join_texts(&wrap_cols("l.", &l.columns, "::TEXT"), ", ").as_str());
    let r_old = right_old_query(
        col_list(r.columns.as_slice()).as_str(),
        right_table.as_str(),
        quote_ident(right.alias()).as_str(),
        r.cte_name.as_str(),
    );
    let now = exists_query(
        right_table.as_str(),
        "r",
        rewrite_join_condition(condition, left, "l", right, "r").as_str(),
    );
    let touched = exists_query(
        r.cte_name.as_str(),
        "dr",
        rewrite_join_condition(condition, left, "l", right, "dr").as_str(),
    );
    let before = exists_query(
        r_old.as_str(),
        "r_old",
        rewrite_join_condition(condition, left, "l", right, "r_old").as_str(),
    );
    let left_part = anti_left_query(
        join_texts(&wrap_cols("dl.", &l.columns, ""), ", ").as_str(),
        l.cte_name.as_str(),
        right_table.as_str(),
        rewrite_join_condition(condition, left, "dl", right, "r").as_str(),
    );
    let status_part = build_status_part(
        true,
        "__pgs_row_id",
        "__pgs_action",
        hash.as_str(),
        now.as_str(),
        join_texts(&wrap_cols("l.", &l.columns, ""), ", ").as_str(),
        build_snapshot_sql(left).as_str(),
        touched.as_str(),
        before.as_str(),
    );
    anti_join_query(left_part.as_str(), status_part.as_str())
}

/// Adds an anti-join over the deltas of its inputs to the chain.
fn add_anti_join(
    ctx: &mut DiffContext,
    condition: &Expr,
    left: &OpTree,
    right: &OpTree,
    l: DiffResult,
    r: DiffResult,
) -> (d: DiffResult)
    ensures
        final(ctx).env() == old(ctx).env(),
        diff::yields(*final(ctx), Ok(d), anti_join_outcome(
            old(ctx).state(),
            condition@,
            *left,
            *right,
            l@,
            r@,
        )),
{
    let sql = build_anti_join(condition, left, right, &l, &r);
    let cte_name = ctx.next_cte_name("anti_join");
    ctx.add_cte(cte_name.clone(), sql);
    DiffResult { cte_name, columns: l.columns, is_deduplicated: false }
}

/// Differentiates an anti-join.
pub fn diff_anti_join(ctx: &mut DiffContext, op: &OpTree) -> (r: Result<
    DiffResult,
    PgTrickleError,
>)
    requires
        old(ctx).env().cte_registry.acyclic(),
    ensures
        final(ctx).env() == old(ctx).env(),
        diff::yields(
            *final(ctx),
            r,
            anti_join_diff(old(ctx).env(), old(ctx).state(), *op),
        ),
    decreases old(ctx).env().cte_registry.depth(*op), op, 0nat,
{
    match op {
        OpTree::AntiJoin { condition, left, right } => {
            let l = match ctx.diff_node(left) {
                Ok(d) => d,
                Err(e) => {
                    return Err(e);
                },
            };
            let r = match ctx.diff_node(right) {
                Ok(d) => d,
                Err(e) => {
                    return Err(e);
                },
            };
            Ok(add_anti_join(ctx, condition, left, right, l, r))
        },
        _ => Err(
            PgTrickleError::InternalError("diff_anti_join called on non-AntiJoin node".to_string()),
        ),
    }
}

// ── What the queries say ───────────────────────────────────────────────

/// The right rows before the changes are the current ones without those
/// inserted and with those deleted.
pub proof fn right_rows_before_are_current_ones_without_the_changes(
    cols: Seq<char>,
    table: Seq<char>,
    alias: Seq<char>,
    delta: Seq<char>,
)
    ensures
        ({
            let t = right_old_sql(cols, table, alias, delta);
            &&& text::occurs(
                t,
                "FROM "@ + table + " "@ + alias + " EXCEPT ALL SELECT "@ + cols + " FROM "@ + delta
                    + " WHERE __pgs_action = 'I' UNION ALL SELECT "@ + cols + " FROM "@ + delta
                    + " WHERE __pgs_action = 'D'"@,
            )
        }),
{
    reveal_strlit(" ");
    reveal_strlit("FROM ");
    reveal_strlit(" FROM ");
    reveal_strlit("(SELECT ");
    reveal_strlit(" EXCEPT ALL SELECT ");
    reveal_strlit(" WHERE __pgs_action = 'D'");
    reveal_strlit(" WHERE __pgs_action = 'D') ");
    reveal_strlit(" WHERE __pgs_action = 'I' UNION ALL SELECT ");
    let t = right_old_sql(cols, table, alias, delta);
    let f0 = "FROM "@ + table + " "@ + alias + " EXCEPT ALL SELECT "@ + cols + " FROM "@ + delta
        + " WHERE __pgs_action = 'I' UNION ALL SELECT "@ + cols + " FROM "@ + delta
        + " WHERE __pgs_action = 'D'"@;
    let k0 = 9int + cols.len();
    assert(t.subrange(k0, k0 + f0.len()) =~= f0);
    assert(text::occurs_at(t, f0, k0));
}

/// A changed left row comes out if it has no match in the current right rows.
pub proof fn changed_left_rows_need_no_match(
    dl_cols: Seq<char>,
    delta_left: Seq<char>,
    right_table: Seq<char>,
    cond_dl: Seq<char>,
)
    ensures
        ({
            let t = anti_left_sql(dl_cols, delta_left, right_table, cond_dl);
            &&& text::occurs(
                t,
                "dl.__pgs_action,\n       "@ + dl_cols + "\nFROM "@ + delta_left
                    + " dl\nWHERE NOT "@ + join_common::exists_sql(right_table, "r"@, cond_dl),
            )
        }),
{
    reveal_strlit("\nFROM ");
    reveal_strlit(" dl\nWHERE NOT ");
    reveal_strlit("dl.__pgs_action,\n       ");
    reveal_strlit("-- Part 1: delta_left rows that have NO match in current right (anti-join filter)\nSELECT dl.__pgs_row_id AS __pgs_row_id,\n       dl.__pgs_action,\n       ");
    let t = anti_left_sql(dl_cols, delta_left, right_table, cond_dl);
    let f0 = "dl.__pgs_action,\n       "@ + dl_cols + "\nFROM "@ + delta_left + " dl\nWHERE NOT "@
        + join_common::exists_sql(right_table, "r"@, cond_dl);
    let k0 = 129int;
    assert(t.subrange(k0, k0 + f0.len()) =~= f0);
    assert(text::occurs_at(t, f0, k0));
}

/// Both parts are taken together.
pub proof fn both_parts_of_an_anti_join_are_taken_together(
    left_part: Seq<char>,
    status_part: Seq<char>,
)
    ensures
        ({
            let t = anti_join_sql(left_part, status_part);
            &&& text::occurs(
                t,
                left_part + "\n\nUNION ALL"@,
            )
            &&& text::occurs(
                t,
                status_part,
            )
        }),
{
    reveal_strlit("\n\nUNION ALL");
    reveal_strlit("\n\nUNION ALL\n\n-- Part 2: left rows whose anti-join status changed due to right-side delta\n-- Emit 'I' if row now has no match in R_current but had a match in R_old\n-- Emit 'D' if row had no match in R_old but now has a match in R_current\n");
    let t = anti_join_sql(left_part, status_part);
    let f0 = left_part + "\n\nUNION ALL"@;
    let k0 = 0int;
    assert(t.subrange(k0, k0 + f0.len()) =~= f0);
    assert(text::occurs_at(t, f0, k0));
    let f1 = status_part;
    let k1 = 237int + left_part.len();
    assert(t.subrange(k1, k1 + f1.len()) =~= f1);
    assert(text::occurs_at(t, f1, k1));
}

// ── What the rows are ──────────────────────────────────────────────────

/// A changed left row keeps its identifier and its action.
pub proof fn changed_left_rows_keep_their_identifier(
    dl_cols: Seq<char>,
    delta_left: Seq<char>,
    right_table: Seq<char>,
    cond_dl: Seq<char>,
)
    ensures
        ({
            let t = anti_left_sql(dl_cols, delta_left, right_table, cond_dl);
            &&& text::occurs(
                t,
                "SELECT dl.__pgs_row_id AS __pgs_row_id,\n       dl.__pgs_action,\n"@,
            )
        }),
{
    reveal_strlit("\nFROM ");
    reveal_strlit(" dl\nWHERE NOT ");
    reveal_strlit("SELECT dl.__pgs_row_id AS __pgs_row_id,\n       dl.__pgs_action,\n");
    reveal_strlit("-- Part 1: delta_left rows that have NO match in current right (anti-join filter)\nSELECT dl.__pgs_row_id AS __pgs_row_id,\n       dl.__pgs_action,\n       ");
    let t = anti_left_sql(dl_cols, delta_left, right_table, cond_dl);
    let f0 = "SELECT dl.__pgs_row_id AS __pgs_row_id,\n       dl.__pgs_action,\n"@;
    let k0 = 82int;
    assert(t.subrange(k0, k0 + f0.len()) =~= f0);
    assert(text::occurs_at(t, f0, k0));
}

} // verus!
