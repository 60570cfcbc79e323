//! Left outer joins.
//!
//! A left join is an inner join together with the left rows that have no
//! match, their right columns null.  Besides the two parts of an inner join
//! its delta has changed left rows without a match, and left rows that gain
//! their first match or lose their last one because of a change on the right.

use vstd::prelude::*;
use vstd::string::*;

use crate::dvm::diff;
use crate::dvm::diff::{col_list, names_on_side, null_cols, quote_ident, rename_cols};
use crate::dvm::diff::{without_count, Delta, DiffContext, DiffEnv, DiffResult, DiffState, Outcome};
use crate::dvm::engine;
use crate::dvm::operators::join;
use crate::dvm::operators::join_common;
use crate::dvm::operators::join_common::{build_snapshot_sql, rewrite_join_condition};
use crate::dvm::parser::{both, Expr, ExprView, OpTree};
use crate::error::{ErrorView, PgTrickleError};
use crate::sql_builder;
use crate::text;
use crate::text::join_texts;

verus! {

// ── Queries ────────────────────────────────────────────────────────────

/// The right rows before the changes.
pub open spec fn right_before_sql(
    cols: Seq<char>,
    table: Seq<char>,
    alias: Seq<char>,
    delta: Seq<char>,
) -> Seq<char> {
    "(SELECT "@ + cols + " FROM "@ + table + " "@ + alias + " EXCEPT ALL SELECT "@ + cols
        + " FROM "@ + delta + " WHERE __pgt_action = 'I' UNION ALL SELECT "@ + cols + " FROM "@
        + delta + " WHERE __pgt_action = 'D')"@
}

/// The right rows before the changes.
fn right_before_query(cols: &str, table: &str, alias: &str, delta: &str) -> (r: String)
    ensures
        r@ == right_before_sql(cols@, table@, alias@, delta@),
{
    let mut r = "(SELECT ".to_string();
    r.append(cols);
    r.append(" FROM ");
    r.append(table);
    r.append(" ");
    r.append(alias);
    r.append(" EXCEPT ALL SELECT ");
    r.append(cols);
    r.append(" FROM ");
    r.append(delta);
    r.append(" WHERE __pgt_action = 'I' UNION ALL SELECT ");
    r.append(cols);
    r.append(" FROM ");
    r.append(delta);
    r.append(" WHERE __pgt_action = 'D')");
    r
}

/// Whether a delta has inserts, and whether it has deletes.
pub open spec fn left_flags_sql(delta: Seq<char>) -> Seq<char> {
    "SELECT bool_or(__pgt_action = 'I') AS has_ins,bool_or(__pgt_action = 'D') AS has_del FROM "@
        + delta
}

/// Whether a delta has inserts, and whether it has deletes.
fn left_flags_query(delta: &str) -> (r: String)
    ensures
        r@ == left_flags_sql(delta@),
{
    let mut r = "SELECT bool_or(__pgt_action = 'I') AS has_ins,bool_or(__pgt_action = 'D') AS has_del FROM ".to_string();
    r.append(delta);
    r
}

/// Changed left rows with their matches.
pub open spec fn left_changes_sql(
    cols1: Seq<char>,
    delta_left: Seq<char>,
    right_table: Seq<char>,
    cond1: Seq<char>,
) -> Seq<char> {
    "-- Part 1: delta_left JOIN current_right (matching rows)\n\
        SELECT pgtrickle.pg_trickle_hash_multi(ARRAY[dl.__pgt_row_id::TEXT, pgtrickle.pg_trickle_hash(row_to_json(r)::text)::TEXT]) AS __pgt_row_id,\n       \
        dl.__pgt_action,\n       "@ + cols1 + "\n\
        FROM "@ + delta_left + " dl\n\
        JOIN "@ + right_table + " r ON "@ + cond1
}

/// Changed left rows with their matches.
fn left_changes_query(
    cols1: &str,
    delta_left: &str,
    right_table: &str,
    cond1: &str,
) -> (r: String)
    ensures
        r@ == left_changes_sql(cols1@, delta_left@, right_table@, cond1@),
{
    let mut r = "-- Part 1: delta_left JOIN current_right (matching rows)\n\
        SELECT pgtrickle.pg_trickle_hash_multi(ARRAY[dl.__pgt_row_id::TEXT, pgtrickle.pg_trickle_hash(row_to_json(r)::text)::TEXT]) AS __pgt_row_id,\n       \
        dl.__pgt_action,\n       ".to_string();
    r.append(cols1);
    r.append("\n\
        FROM ");
    r.append(delta_left);
    r.append(" dl\n\
        JOIN ");
    r.append(right_table);
    r.append(" r ON ");
    r.append(cond1);
    r
}

/// Left rows that match changed right rows.
pub open spec fn right_changes_sql(
    cols2: Seq<char>,
    left_table: Seq<char>,
    delta_right: Seq<char>,
    cond2: Seq<char>,
) -> Seq<char> {
    "-- Part 2: current_left JOIN delta_right\n\
        SELECT pgtrickle.pg_trickle_hash_multi(ARRAY[pgtrickle.pg_trickle_hash(row_to_json(l)::text)::TEXT, dr.__pgt_row_id::TEXT]) AS __pgt_row_id,\n       \
        dr.__pgt_action,\n       "@ + cols2 + "\n\
        FROM "@ + left_table + " l\n\
        JOIN "@ + delta_right + " dr ON "@ + cond2
}

/// Left rows that match changed right rows.
fn right_changes_query(
    cols2: &str,
    left_table: &str,
    delta_right: &str,
    cond2: &str,
) -> (r: String)
    ensures
        r@ == right_changes_sql(cols2@, left_table@, delta_right@, cond2@),
{
    let mut r = "-- Part 2: current_left JOIN delta_right\n\
        SELECT pgtrickle.pg_trickle_hash_multi(ARRAY[pgtrickle.pg_trickle_hash(row_to_json(l)::text)::TEXT, dr.__pgt_row_id::TEXT]) AS __pgt_row_id,\n       \
        dr.__pgt_action,\n       ".to_string();
    r.append(cols2);
    r.append("\n\
        FROM ");
    r.append(left_table);
    r.append(" l\n\
        JOIN ");
    r.append(delta_right);
    r.append(" dr ON ");
    r.append(cond2);
    r
}

/// Changed left rows without a match, with nulls.
pub open spec fn unmatched_changes_sql(
    unmatched_cols: Seq<char>,
    delta_left: Seq<char>,
    right_table: Seq<char>,
    cond1: Seq<char>,
) -> Seq<char> {
    "-- Part 3: delta_left anti-join right (non-matching left rows get NULL right cols)\n\
        SELECT dl.__pgt_row_id,\n       \
        dl.__pgt_action,\n       "@ + unmatched_cols + "\n\
        FROM "@ + delta_left + " dl\n\
        WHERE NOT EXISTS (\n    \
        SELECT 1 FROM "@ + right_table + " r WHERE "@ + cond1 + "\n\
        )"@
}

/// Changed left rows without a match, with nulls.
fn unmatched_changes_query(
    unmatched_cols: &str,
    delta_left: &str,
    right_table: &str,
    cond1: &str,
) -> (r: String)
    ensures
        r@ == unmatched_changes_sql(unmatched_cols@, delta_left@, right_table@, cond1@),
{
    let mut r = "-- Part 3: delta_left anti-join right (non-matching left rows get NULL right cols)\n\
        SELECT dl.__pgt_row_id,\n       \
        dl.__pgt_action,\n       ".to_string();
    r.append(unmatched_cols);
    r.append("\n\
        FROM ");
    r.append(delta_left);
    r.append(" dl\n\
        WHERE NOT EXISTS (\n    \
        SELECT 1 FROM ");
    r.append(right_table);
    r.append(" r WHERE ");
    r.append(cond1);
    r.append("\n\
        )");
    r
}

/// Rows with nulls that have a first match now.
pub open spec fn first_match_sql(
    padded_cols: Seq<char>,
    left_table: Seq<char>,
    delta_right: Seq<char>,
    cond2: Seq<char>,
    flags: Seq<char>,
    right_before: Seq<char>,
    cond_before: Seq<char>,
) -> Seq<char> {
    "-- Part 4: Delete stale NULL-padded rows when a left row gains its FIRST right match.\n\
        -- When a right INSERT creates a new match for a left row that previously had NO\n\
        -- matching right rows (was NULL-padded), the NULL-padded ST row must be removed.\n\
        -- We check R_old (pre-change right) to verify the left row truly had no matches\n\
        -- before. Without this check, left rows that ALREADY had matches would get\n\
        -- spurious D(NULL-padded) rows that corrupt intermediate aggregate old-state\n\
        -- reconstruction via EXCEPT ALL/UNION ALL.\n\
        SELECT 0::BIGINT AS __pgt_row_id,\n       \
        'D'::TEXT AS __pgt_action,\n       "@ + padded_cols + "\n\
        FROM "@ + left_table + " l\n\
        JOIN "@ + delta_right + " dr ON "@ + cond2 + "\n\
        WHERE dr.__pgt_action = 'I'\n  \
        AND (SELECT has_ins FROM "@ + flags + ")\n  \
        AND NOT EXISTS (\n    \
        SELECT 1 FROM "@ + right_before + " __pgt_r_old WHERE "@ + cond_before + "\n  \
        )"@
}

/// Rows with nulls that have a first match now.
fn first_match_query(
    padded_cols: &str,
    left_table: &str,
    delta_right: &str,
    cond2: &str,
    flags: &str,
    right_before: &str,
    cond_before: &str,
) -> (r: String)
    ensures
        r@ == first_match_sql(
            padded_cols@,
            left_table@,
            delta_right@,
            cond2@,
            flags@,
            right_before@,
            cond_before@,
        ),
{
    let mut r = "-- Part 4: Delete stale NULL-padded rows when a left row gains its FIRST right match.\n\
        -- When a right INSERT creates a new match for a left row that previously had NO\n\
        -- matching right rows (was NULL-padded), the NULL-padded ST row must be removed.\n\
        -- We check R_old (pre-change right) to verify the left row truly had no matches\n\
        -- before. Without this check, left rows that ALREADY had matches would get\n\
        -- spurious D(NULL-padded) rows that corrupt intermediate aggregate old-state\n\
        -- reconstruction via EXCEPT ALL/UNION ALL.\n\
        SELECT 0::BIGINT AS __pgt_row_id,\n       \
        'D'::TEXT AS __pgt_action,\n       ".to_string();
    r.append(padded_cols);
    r.append("\n\
        FROM ");
    r.append(left_table);
    r.append(" l\n\
        JOIN ");
    r.append(delta_right);
    r.append(" dr ON ");
    r.append(cond2);
    r.append("\n\
        WHERE dr.__pgt_action = 'I'\n  \
        AND (SELECT has_ins FROM ");
    r.append(flags);
    r.append(")\n  \
        AND NOT EXISTS (\n    \
        SELECT 1 FROM ");
    r.append(right_before);
    r.append(" __pgt_r_old WHERE ");
    r.append(cond_before);
    r.append("\n  \
        )");
    r
}

/// Rows with nulls that lost their last match.
pub open spec fn last_match_sql(
    padded_cols: Seq<char>,
    left_table: Seq<char>,
    delta_right: Seq<char>,
    cond2: Seq<char>,
    flags: Seq<char>,
    right_table: Seq<char>,
    cond_now: Seq<char>,
    right_before: Seq<char>,
    cond_before: Seq<char>,
) -> Seq<char> {
    "-- Part 5: Insert NULL-padded rows when a left row loses ALL right matches.\n\
        -- When a right DELETE removes the last match for a left row, the left row\n\
        -- reverts to NULL-padded. Check current right (post-changes) to verify no\n\
        -- remaining matches exist, AND check R_old to confirm the left row previously\n\
        -- HAD matches (otherwise it was already NULL-padded — no change needed).\n\
        SELECT 0::BIGINT AS __pgt_row_id,\n       \
        'I'::TEXT AS __pgt_action,\n       "@ + padded_cols + "\n\
        FROM "@ + left_table + " l\n\
        JOIN "@ + delta_right + " dr ON "@ + cond2 + "\n\
        WHERE dr.__pgt_action = 'D'\n  \
        AND (SELECT has_del FROM "@ + flags + ")\n  \
        AND NOT EXISTS (\n    \
        SELECT 1 FROM "@ + right_table + " r WHERE "@ + cond_now + "\n  \
        )\n  \
        AND EXISTS (\n    \
        SELECT 1 FROM "@ + right_before + " __pgt_r_old WHERE "@ + cond_before + "\n  \
        )"@
}

/// Rows with nulls that lost their last match.
fn last_match_query(
    padded_cols: &str,
    left_table: &str,
    delta_right: &str,
    cond2: &str,
    flags: &str,
    right_table: &str,
    cond_now: &str,
    right_before: &str,
    cond_before: &str,
) -> (r: String)
    ensures
        r@ == last_match_sql(
            padded_cols@,
            left_table@,
            delta_right@,
            cond2@,
            flags@,
            right_table@,
            cond_now@,
            right_before@,
            cond_before@,
        ),
{
    let mut r = "-- Part 5: Insert NULL-padded rows when a left row loses ALL right matches.\n\
        -- When a right DELETE removes the last match for a left row, the left row\n\
        -- reverts to NULL-padded. Check current right (post-changes) to verify no\n\
        -- remaining matches exist, AND check R_old to confirm the left row previously\n\
        -- HAD matches (otherwise it was already NULL-padded — no change needed).\n\
        SELECT 0::BIGINT AS __pgt_row_id,\n       \
        'I'::TEXT AS __pgt_action,\n       ".to_string();
    r.append(padded_cols);
    r.append("\n\
        FROM ");
    r.append(left_table);
    r.append(" l\n\
        JOIN ");
    r.append(delta_right);
    r.append(" dr ON ");
    r.append(cond2);
    r.append("\n\
        WHERE dr.__pgt_action = 'D'\n  \
        AND (SELECT has_del FROM ");
    r.append(flags);
    r.append(")\n  \
        AND NOT EXISTS (\n    \
        SELECT 1 FROM ");
    r.append(right_table);
    r.append(" r WHERE ");
    r.append(cond_now);
    r.append("\n  \
        )\n  \
        AND EXISTS (\n    \
        SELECT 1 FROM ");
    r.append(right_before);
    r.append(" __pgt_r_old WHERE ");
    r.append(cond_before);
    r.append("\n  \
        )");
    r
}

/// The delta of a left join.
pub open spec fn left_join_sql(
    cols1: Seq<char>,
    delta_left: Seq<char>,
    right_table: Seq<char>,
    cond1: Seq<char>,
    cols2: Seq<char>,
    left_table: Seq<char>,
    delta_right: Seq<char>,
    cond2: Seq<char>,
    unmatched_cols: Seq<char>,
    padded_cols: Seq<char>,
    flags: Seq<char>,
    right_before: Seq<char>,
    cond_before: Seq<char>,
    cond_now: Seq<char>,
) -> Seq<char> {
    left_changes_sql(cols1, delta_left, right_table, cond1) + "\n\nUNION ALL\n\n"@
        + right_changes_sql(cols2, left_table, delta_right, cond2) + "\n\nUNION ALL\n\n"@
        + unmatched_changes_sql(unmatched_cols, delta_left, right_table, cond1)
        + "\n\nUNION ALL\n\n"@
        + first_match_sql(padded_cols, left_table, delta_right, cond2, flags, right_before, cond_before)
        + "\n\nUNION ALL\n\n"@
        + last_match_sql(padded_cols, left_table, delta_right, cond2, flags, right_table, cond_now, right_before, cond_before)
}

/// The delta of a left join.
fn left_join_query(
    cols1: &str,
    delta_left: &str,
    right_table: &str,
    cond1: &str,
    cols2: &str,
    left_table: &str,
    delta_right: &str,
    cond2: &str,
    unmatched_cols: &str,
    padded_cols: &str,
    flags: &str,
    right_before: &str,
    cond_before: &str,
    cond_now: &str,
) -> (r: String)
    ensures
        r@ == left_join_sql(
            cols1@,
            delta_left@,
            right_table@,
            cond1@,
            cols2@,
            left_table@,
            delta_right@,
            cond2@,
            unmatched_cols@,
            padded_cols@,
            flags@,
            right_before@,
            cond_before@,
            cond_now@,
        ),
{
    let mut r = left_changes_query(cols1, delta_left, right_table, cond1);
    r.append("\n\nUNION ALL\n\n");
    r.append(right_changes_query(cols2, left_table, delta_right, cond2).as_str());
    r.append("\n\nUNION ALL\n\n");
    r.append(unmatched_changes_query(unmatched_cols, delta_left, right_table, cond1).as_str());
    r.append("\n\nUNION ALL\n\n");
    r.append(
        first_match_query(
            padded_cols,
            left_table,
            delta_right,
            cond2,
            flags,
            right_before,
            cond_before,
        ).as_str(),
    );
    r.append("\n\nUNION ALL\n\n");
    r.append(
        last_match_query(
            padded_cols,
            left_table,
            delta_right,
            cond2,
            flags,
            right_table,
            cond_now,
            right_before,
            cond_before,
        ).as_str(),
    );
    r
}

// ── Differentiation ────────────────────────────────────────────────────

/// The query of a left join over the deltas of its inputs.
#[verifier::opaque]
pub open spec fn left_join_text(
    condition: ExprView,
    left: OpTree,
    right: OpTree,
    l: Delta,
    r: Delta,
    flags: Seq<char>,
) -> Seq<char> {
    let right_table = join_common::snapshot_sql(right);
    let la = left.spec_alias();
    let ra = right.spec_alias();
    left_join_sql(
        text::join(
            diff::renamed("dl."@, l.columns, la) + diff::renamed("r."@, r.columns, ra),
            ", "@,
        ),
        l.cte_name,
        right_table,
        join_common::condition_sql(condition, left, "dl"@, right, "r"@),
        text::join(
            diff::renamed("l."@, l.columns, la) + diff::renamed("dr."@, r.columns, ra),
            ", "@,
        ),
        join_common::snapshot_sql(left),
        r.cte_name,
        join_common::condition_sql(condition, left, "l"@, right, "dr"@),
        text::join(diff::renamed("dl."@, l.columns, la) + diff::nulls(r.columns, ra), ", "@),
        text::join(diff::renamed("l."@, l.columns, la) + diff::nulls(r.columns, ra), ", "@),
        flags,
        right_before_sql(
            diff::cols_text(diff::user_columns(r.columns)),
            right_table,
            sql_builder::ident_text(ra),
            r.cte_name,
        ),
        join_common::condition_sql(condition, left, "l"@, right, "__pgt_r_old"@),
        join_common::condition_sql(condition, left, "l"@, right, "r"@),
    )
}

/// The outcome of a left join over the deltas of its inputs.
pub open spec fn left_join_outcome(
    st: DiffState,
    condition: ExprView,
    left: OpTree,
    right: OpTree,
    l: Delta,
    r: Delta,
) -> Outcome {
    let flags = st.fresh("lj_right_flags"@);
    let st1 = st.step("lj_right_flags"@, left_flags_sql(r.cte_name));
    (
        st1.step("left_join"@, left_join_text(condition, left, right, l, r, flags)),
        Ok(
            Delta {
                cte_name: st1.fresh("left_join"@),
                columns: join::joined_columns(left, right, l, r),
                is_deduplicated: false,
            },
        ),
    )
}

/// The outcome of differentiating an operator as a left join.
pub open spec fn left_join_diff(env: DiffEnv, st: DiffState, op: OpTree) -> Outcome
    decreases env.cte_registry.depth(op), op, 0nat,
{
    match op {
        OpTree::LeftJoin { condition, left, right } => match engine::tree_diff(env, st, *left) {
            (st1, Ok(l)) => match engine::tree_diff(env, st1, *right) {
                (st2, Ok(r)) => left_join_outcome(st2, condition@, *left, *right, l, r),
                (st2, Err(e)) => (st2, Err(e)),
            },
            (st1, Err(e)) => (st1, Err(e)),
        },
        _ => (st, Err(ErrorView::InternalError("diff_left_join called on non-LeftJoin node"@))),
    }
}

/// The query of a left join over the deltas of its inputs.
fn build_left_join(
    condition: &Expr,
    left: &OpTree,
    right: &OpTree,
    l: &DiffResult,
    r: &DiffResult,
    flags: &str,
) -> (s: String)
    ensures
        s@ == left_join_text(condition@, *left, *right, l@, r@, flags@),
{
    proof {
        reveal(left_join_text);
    }
    let la = left.alias();
    let ra = right.alias();
    let right_table = build_snapshot_sql(right);
    let cols1 = both(rename_cols("dl.", &l.columns, la), rename_cols("r.", &r.columns, ra));
    let cols2 = both(rename_cols("l.", &l.columns, la), rename_cols("dr.", &r.columns, ra));
    let unmatched = both(rename_cols("dl.", &l.columns, la), null_cols(&r.columns, ra));
    let padded = both(rename_cols("l.", &l.columns, la), null_cols(&r.columns, ra));
    let before = right_before_query(
        col_list(without_count(&r.columns).as_slice()).as_str(),
        right_table.as_str(),
        quote_ident(ra).as_str(),
        r.cte_name.as_str(),
    );
    left_join_query(
        join_texts(&cols1, ", ").as_str(),
        l.cte_name.as_str(),
        right_table.as_str(),
        rewrite_join_condition(condition, left, "dl", right, "r").as_str(),
        join_texts(&cols2, ", ").as_str(),
        build_snapshot_sql(left).as_str(),
        r.cte_name.as_str(),
        rewrite_join_condition(condition, left, "l", right, "dr").as_str(),
        join_texts(&unmatched, ", ").as_str(),
        join_texts(&padded, ", ").as_str(),
        flags,
        before.as_str(),
        rewrite_join_condition(condition, left, "l", right, "__pgt_r_old").as_str(),
        rewrite_join_condition(condition, left, "l", right, "r").as_str(),
    )
}

/// Adds a left join over the deltas of its inputs to the chain.
fn add_left_join(
    ctx: &mut DiffContext,
    condition: &Expr,
    left: &OpTree,
    right: &OpTree,
    l: DiffResult,
    r: DiffResult,
) -> (d: DiffResult)
    ensures
        final(ctx).env() == old(ctx).env(),
        diff::yields(*final(ctx), Ok(d), left_join_outcome(
            old(ctx).state(),
            condition@,
            *left,
            *right,
            l@,
            r@,
        )),
{
    let flags = ctx.next_cte_name("lj_right_flags");
    ctx.add_cte(flags.clone(), left_flags_query(r.cte_name.as_str()));
    let sql = build_left_join(condition, left, right, &l, &r, flags.as_str());
    let columns = both(
        names_on_side(left.alias(), &l.columns),
        names_on_side(right.alias(), &r.columns),
    );
    let cte_name = ctx.next_cte_name("left_join");
    ctx.add_cte(cte_name.clone(), sql);
    DiffResult { cte_name, columns, is_deduplicated: false }
}

/// Differentiates a left join.
pub fn diff_left_join(ctx: &mut DiffContext, op: &OpTree) -> (r: Result<
    DiffResult,
    PgTrickleError,
>)
    requires
        old(ctx).env().cte_registry.acyclic(),
    ensures
        final(ctx).env() == old(ctx).env(),
        diff::yields(
            *final(ctx),
            r,
            left_join_diff(old(ctx).env(), old(ctx).state(), *op),
        ),
    decreases old(ctx).env().cte_registry.depth(*op), op, 0nat,
{
    match op {
        OpTree::LeftJoin { condition, left, right } => {
            let l = match ctx.diff_node(left) {
                Ok(d) => d,
                Err(e) => {
                    return Err(e);
                },
            };
            let r = match ctx.diff_node(right) {
                Ok(d) => d,
                Err(e) => {
                    return Err(e);
                },
            };
            Ok(add_left_join(ctx, condition, left, right, l, r))
        },
        _ => Err(
            PgTrickleError::InternalError("diff_left_join called on non-LeftJoin node".to_string()),
        ),
    }
}

// ── What the queries say ───────────────────────────────────────────────

/// The right rows before the changes are the current ones without those
/// inserted and with those deleted.
pub proof fn right_rows_before_are_current_ones_without_the_changes(
    cols: Seq<char>,
    table: Seq<char>,
    alias: Seq<char>,
    delta: Seq<char>,
)
    ensures
        ({
            let t = right_before_sql(cols, table, alias, delta);
            &&& text::occurs(
                t,
                "FROM "@ + table + " "@ + alias + " EXCEPT ALL SELECT "@ + cols + " FROM "@ + delta
                    + " WHERE __pgt_action = 'I' UNION ALL SELECT "@ + cols + " FROM "@ + delta
                    + " WHERE __pgt_action = 'D'"@,
            )
        }),
{
    reveal_strlit(" ");
    reveal_strlit("FROM ");
    reveal_strlit(" FROM ");
    reveal_strlit("(SELECT ");
    reveal_strlit(" EXCEPT ALL SELECT ");
    reveal_strlit(" WHERE __pgt_action = 'D'");
    reveal_strlit(" WHERE __pgt_action = 'D')");
    reveal_strlit(" WHERE __pgt_action = 'I' UNION ALL SELECT ");
    let t = right_before_sql(cols, table, alias, delta);
    let f0 = "FROM "@ + table + " "@ + alias + " EXCEPT ALL SELECT "@ + cols + " FROM "@ + delta
        + " WHERE __pgt_action = 'I' UNION ALL SELECT "@ + cols + " FROM "@ + delta
        + " WHERE __pgt_action = 'D'"@;
    let k0 = 9int + cols.len();
    assert(t.subrange(k0, k0 + f0.len()) =~= f0);
    assert(text::occurs_at(t, f0, k0));
}

/// The flags tell whether a delta has inserts and whether it has deletes.
pub proof fn flags_tell_inserts_and_deletes(
    delta: Seq<char>,
)
    ensures
        ({
            let t = left_flags_sql(delta);
            &&& text::occurs(
                t,
                "bool_or(__pgt_action = 'I') AS has_ins,bool_or(__pgt_action = 'D') AS has_del FROM "@
                    + delta,
            )
        }),
{
    reveal_strlit("bool_or(__pgt_action = 'I') AS has_ins,bool_or(__pgt_action = 'D') AS has_del FROM ");
    reveal_strlit("SELECT bool_or(__pgt_action = 'I') AS has_ins,bool_or(__pgt_action = 'D') AS has_del FROM ");
    let t = left_flags_sql(delta);
    let f0 = "bool_or(__pgt_action = 'I') AS has_ins,bool_or(__pgt_action = 'D') AS has_del FROM "@
        + delta;
    let k0 = 7int;
    assert(t.subrange(k0, k0 + f0.len()) =~= f0);
    assert(text::occurs_at(t, f0, k0));
}

/// A changed left row is joined with its matches and keeps its action.
pub proof fn left_changes_are_joined_with_the_right_rows(
    cols1: Seq<char>,
    delta_left: Seq<char>,
    right_table: Seq<char>,
    cond1: Seq<char>,
)
    ensures
        ({
            let t = left_changes_sql(cols1, delta_left, right_table, cond1);
            &&& text::occurs(
                t,
                "dl.__pgt_action,\n       "@ + cols1 + "\nFROM "@ + delta_left + " dl\nJOIN "@
                    + right_table + " r ON "@ + cond1,
            )
        }),
{
    reveal_strlit("\nFROM ");
    reveal_strlit(" r ON ");
    reveal_strlit(" dl\nJOIN ");
    reveal_strlit("dl.__pgt_action,\n       ");
    reveal_strlit("-- Part 1: delta_left JOIN current_right (matching rows)\nSELECT pgtrickle.pg_trickle_hash_multi(ARRAY[dl.__pgt_row_id::TEXT, pgtrickle.pg_trickle_hash(row_to_json(r)::text)::TEXT]) AS __pgt_row_id,\n       dl.__pgt_action,\n       ");
    let t = left_changes_sql(cols1, delta_left, right_table, cond1);
    let f0 = "dl.__pgt_action,\n       "@ + cols1 + "\nFROM "@ + delta_left + " dl\nJOIN "@
        + right_table + " r ON "@ + cond1;
    let k0 = 205int;
    assert(t.subrange(k0, k0 + f0.len()) =~= f0);
    assert(text::occurs_at(t, f0, k0));
}

/// A changed right row is joined with its matches and keeps its action.
pub proof fn right_changes_are_joined_with_the_left_rows(
    cols2: Seq<char>,
    left_table: Seq<char>,
    delta_right: Seq<char>,
    cond2: Seq<char>,
)
    ensures
        ({
            let t = right_changes_sql(cols2, left_table, delta_right, cond2);
            &&& text::occurs(
                t,
                "dr.__pgt_action,\n       "@ + cols2 + "\nFROM "@ + left_table + " l\nJOIN "@
                    + delta_right + " dr ON "@ + cond2,
            )
        }),
{
    reveal_strlit("\nFROM ");
    reveal_strlit(" dr ON ");
    reveal_strlit(" l\nJOIN ");
    reveal_strlit("dr.__pgt_action,\n       ");
    reveal_strlit("-- Part 2: current_left JOIN delta_right\nSELECT pgtrickle.pg_trickle_hash_multi(ARRAY[pgtrickle.pg_trickle_hash(row_to_json(l)::text)::TEXT, dr.__pgt_row_id::TEXT]) AS __pgt_row_id,\n       dr.__pgt_action,\n       ");
    let t = right_changes_sql(cols2, left_table, delta_right, cond2);
    let f0 = "dr.__pgt_action,\n       "@ + cols2 + "\nFROM "@ + left_table + " l\nJOIN "@
        + delta_right + " dr ON "@ + cond2;
    let k0 = 189int;
    assert(t.subrange(k0, k0 + f0.len()) =~= f0);
    assert(text::occurs_at(t, f0, k0));
}

/// A changed left row without a match comes out with its action and nulls.
pub proof fn left_changes_without_a_match_have_nulls(
    unmatched_cols: Seq<char>,
    delta_left: Seq<char>,
    right_table: Seq<char>,
    cond1: Seq<char>,
)
    ensures
        ({
            let t = unmatched_changes_sql(unmatched_cols, delta_left, right_table, cond1);
            &&& text::occurs(
                t,
                "dl.__pgt_action,\n       "@ + unmatched_cols + "\nFROM "@ + delta_left
                    + " dl\nWHERE NOT EXISTS (\n    SELECT 1 FROM "@ + right_table + " r WHERE "@
                    + cond1 + "\n)"@,
            )
        }),
{
    reveal_strlit("\n)");
    reveal_strlit("\nFROM ");
    reveal_strlit(" r WHERE ");
    reveal_strlit("dl.__pgt_action,\n       ");
    reveal_strlit(" dl\nWHERE NOT EXISTS (\n    SELECT 1 FROM ");
    reveal_strlit("-- Part 3: delta_left anti-join right (non-matching left rows get NULL right cols)\nSELECT dl.__pgt_row_id,\n       dl.__pgt_action,\n       ");
    let t = unmatched_changes_sql(unmatched_cols, delta_left, right_table, cond1);
    let f0 = "dl.__pgt_action,\n       "@ + unmatched_cols + "\nFROM "@ + delta_left
        + " dl\nWHERE NOT EXISTS (\n    SELECT 1 FROM "@ + right_table + " r WHERE "@ + cond1
        + "\n)"@;
    let k0 = 114int;
    assert(t.subrange(k0, k0 + f0.len()) =~= f0);
    assert(text::occurs_at(t, f0, k0));
}

/// A left row with nulls is deleted where a match was inserted and it had none
/// before.
pub proof fn rows_with_nulls_go_with_a_first_match(
    padded_cols: Seq<char>,
    left_table: Seq<char>,
    delta_right: Seq<char>,
    cond2: Seq<char>,
    flags: Seq<char>,
    right_before: Seq<char>,
    cond_before: Seq<char>,
)
    ensures
        ({
            let t = first_match_sql(
                padded_cols,
                left_table,
                delta_right,
                cond2,
                flags,
                right_before,
                cond_before,
            );
            &&& text::occurs(
                t,
                "'D'::TEXT AS __pgt_action,\n       "@ + padded_cols + "\nFROM "@ + left_table
                    + " l\nJOIN "@ + delta_right + " dr ON "@ + cond2
                    + "\nWHERE dr.__pgt_action = 'I'\n  AND (SELECT has_ins FROM "@ + flags
                    + ")\n  AND NOT EXISTS (\n    SELECT 1 FROM "@ + right_before
                    + " __pgt_r_old WHERE "@ + cond_before + "\n"@,
            )
        }),
{
    reveal_strlit("\n");
    reveal_strlit("\n  )");
    reveal_strlit("\nFROM ");
    reveal_strlit(" dr ON ");
    reveal_strlit(" l\nJOIN ");
    reveal_strlit(" __pgt_r_old WHERE ");
    reveal_strlit("'D'::TEXT AS __pgt_action,\n       ");
    reveal_strlit(")\n  AND NOT EXISTS (\n    SELECT 1 FROM ");
    reveal_strlit("\nWHERE dr.__pgt_action = 'I'\n  AND (SELECT has_ins FROM ");
    reveal_strlit("-- Part 4: Delete stale NULL-padded rows when a left row gains its FIRST right match.\n-- When a right INSERT creates a new match for a left row that previously had NO\n-- matching right rows (was NULL-padded), the NULL-padded ST row must be removed.\n-- We check R_old (pre-change right) to verify the left row truly had no matches\n-- before. Without this check, left rows that ALREADY had matches would get\n-- spurious D(NULL-padded) rows that corrupt intermediate aggregate old-state\n-- reconstruction via EXCEPT ALL/UNION ALL.\nSELECT 0::BIGINT AS __pgt_row_id,\n       'D'::TEXT AS __pgt_action,\n       ");
    let t = first_match_sql(
        padded_cols,
        left_table,
        delta_right,
        cond2,
        flags,
        right_before,
        cond_before,
    );
    let f0 = "'D'::TEXT AS __pgt_action,\n       "@ + padded_cols + "\nFROM "@ + left_table
        + " l\nJOIN "@ + delta_right + " dr ON "@ + cond2
        + "\nWHERE dr.__pgt_action = 'I'\n  AND (SELECT has_ins FROM "@ + flags
        + ")\n  AND NOT EXISTS (\n    SELECT 1 FROM "@ + right_before + " __pgt_r_old WHERE "@
        + cond_before + "\n"@;
    let k0 = 569int;
    assert(t.subrange(k0, k0 + f0.len()) =~= f0);
    assert(text::occurs_at(t, f0, k0));
}

/// A left row with nulls is inserted where a match was deleted, none is left
/// and it had one before.
pub proof fn rows_with_nulls_come_with_the_loss_of_the_last_match(
    padded_cols: Seq<char>,
    left_table: Seq<char>,
    delta_right: Seq<char>,
    cond2: Seq<char>,
    flags: Seq<char>,
    right_table: Seq<char>,
    cond_now: Seq<char>,
    right_before: Seq<char>,
    cond_before: Seq<char>,
)
    ensures
        ({
            let t = last_match_sql(
                padded_cols,
                left_table,
                delta_right,
                cond2,
                flags,
                right_table,
                cond_now,
                right_before,
                cond_before,
            );
            &&& text::occurs(
                t,
                "'I'::TEXT AS __pgt_action,\n       "@ + padded_cols + "\nFROM "@ + left_table
                    + " l\nJOIN "@ + delta_right + " dr ON "@ + cond2
                    + "\nWHERE dr.__pgt_action = 'D'\n  AND (SELECT has_del FROM "@ + flags
                    + ")\n  AND NOT EXISTS (\n    SELECT 1 FROM "@ + right_table + " r WHERE "@
                    + cond_now + "\n"@,
            )
            &&& text::occurs(
                t,
                "AND EXISTS (\n    SELECT 1 FROM "@ + right_before + " __pgt_r_old WHERE "@
                    + cond_before + "\n"@,
            )
        }),
{
    reveal_strlit("\n");
    reveal_strlit("\n  )");
    reveal_strlit("\nFROM ");
    reveal_strlit(" dr ON ");
    reveal_strlit(" l\nJOIN ");
    reveal_strlit(" r WHERE ");
    reveal_strlit(" __pgt_r_old WHERE ");
    reveal_strlit("AND EXISTS (\n    SELECT 1 FROM ");
    reveal_strlit("'I'::TEXT AS __pgt_action,\n       ");
    reveal_strlit("\n  )\n  AND EXISTS (\n    SELECT 1 FROM ");
    reveal_strlit(")\n  AND NOT EXISTS (\n    SELECT 1 FROM ");
    reveal_strlit("\nWHERE dr.__pgt_action = 'D'\n  AND (SELECT has_del FROM ");
    reveal_strlit("-- Part 5: Insert NULL-padded rows when a left row loses ALL right matches.\n-- When a right DELETE removes the last match for a left row, the left row\n-- reverts to NULL-padded. Check current right (post-changes) to verify no\n-- remaining matches exist, AND check R_old to confirm the left row previously\n-- HAD matches (otherwise it was already NULL-padded — no change needed).\nSELECT 0::BIGINT AS __pgt_row_id,\n       'I'::TEXT AS __pgt_action,\n       ");
    let t = last_match_sql(
        padded_cols,
        left_table,
        delta_right,
        cond2,
        flags,
        right_table,
        cond_now,
        right_before,
        cond_before,
    );
    let f0 = "'I'::TEXT AS __pgt_action,\n       "@ + padded_cols + "\nFROM "@ + left_table
        + " l\nJOIN "@ + delta_right + " dr ON "@ + cond2
        + "\nWHERE dr.__pgt_action = 'D'\n  AND (SELECT has_del FROM "@ + flags
        + ")\n  AND NOT EXISTS (\n    SELECT 1 FROM "@ + right_table + " r WHERE "@ + cond_now
        + "\n"@;
    let k0 = 420int;
    assert(t.subrange(k0, k0 + f0.len()) =~= f0);
    assert(text::occurs_at(t, f0, k0));
    let f1 = "AND EXISTS (\n    SELECT 1 FROM "@ + right_before + " __pgt_r_old WHERE "@
        + cond_before + "\n"@;
    let k1 = 586int + padded_cols.len() + left_table.len() + delta_right.len() + cond2.len()
        + flags.len() + right_table.len() + cond_now.len();
    assert(t.subrange(k1, k1 + f1.len()) =~= f1);
    assert(text::occurs_at(t, f1, k1));
}

/// The delta of a left join has all five parts, each over the deltas and the
/// current rows of the inputs that it is for, with the condition of the join
/// for the rows that it compares.
pub proof fn a_left_join_has_all_of_its_parts(
    condition: ExprView,
    left: OpTree,
    right: OpTree,
    l: Delta,
    r: Delta,
    flags: Seq<char>,
)
    ensures
        ({
            let right_table = join_common::snapshot_sql(right);
            let la = left.spec_alias();
            let ra = right.spec_alias();
            let cols1 = text::join(
                diff::renamed("dl."@, l.columns, la) + diff::renamed("r."@, r.columns, ra),
                ", "@,
            );
            let delta_left = l.cte_name;
            let cond1 = join_common::condition_sql(condition, left, "dl"@, right, "r"@);
            let cols2 = text::join(
                diff::renamed("l."@, l.columns, la) + diff::renamed("dr."@, r.columns, ra),
                ", "@,
            );
            let left_table = join_common::snapshot_sql(left);
            let delta_right = r.cte_name;
            let cond2 = join_common::condition_sql(condition, left, "l"@, right, "dr"@);
            let unmatched_cols = text::join(
                diff::renamed("dl."@, l.columns, la) + diff::nulls(r.columns, ra),
                ", "@,
            );
            let padded_cols = text::join(
                diff::renamed("l."@, l.columns, la) + diff::nulls(r.columns, ra),
                ", "@,
            );
            let right_before = right_before_sql(
                diff::cols_text(diff::user_columns(r.columns)),
                right_table,
                sql_builder::ident_text(ra),
                r.cte_name,
            );
            let cond_before = join_common::condition_sql(
                condition,
                left,
                "l"@,
                right,
                "__pgt_r_old"@,
            );
            let cond_now = join_common::condition_sql(condition, left, "l"@, right, "r"@);
            let t = left_join_text(condition, left, right, l, r, flags);
            &&& text::occurs(t, left_changes_sql(cols1, delta_left, right_table, cond1))
            &&& text::occurs(t, right_changes_sql(cols2, left_table, delta_right, cond2))
            &&& text::occurs(
                t,
                unmatched_changes_sql(unmatched_cols, delta_left, right_table, cond1),
            )
            &&& text::occurs(
                t,
                first_match_sql(
                    padded_cols,
                    left_table,
                    delta_right,
                    cond2,
                    flags,
                    right_before,
                    cond_before,
                ),
            )
            &&& text::occurs(
                t,
                last_match_sql(
                    padded_cols,
                    left_table,
                    delta_right,
                    cond2,
                    flags,
                    right_table,
                    cond_now,
                    right_before,
                    cond_before,
                ),
            )
        }),
{
    reveal(left_join_text);
    let right_table = join_common::snapshot_sql(right);
    let la = left.spec_alias();
    let ra = right.spec_alias();
    let cols1 = text::join(
        diff::renamed("dl."@, l.columns, la) + diff::renamed("r."@, r.columns, ra),
        ", "@,
    );
    let delta_left = l.cte_name;
    let cond1 = join_common::condition_sql(condition, left, "dl"@, right, "r"@);
    let cols2 = text::join(
        diff::renamed("l."@, l.columns, la) + diff::renamed("dr."@, r.columns, ra),
        ", "@,
    );
    let left_table = join_common::snapshot_sql(left);
    let delta_right = r.cte_name;
    let cond2 = join_common::condition_sql(condition, left, "l"@, right, "dr"@);
    let unmatched_cols = text::join(
        diff::renamed("dl."@, l.columns, la) + diff::nulls(r.columns, ra),
        ", "@,
    );
    let padded_cols = text::join(
        diff::renamed("l."@, l.columns, la) + diff::nulls(r.columns, ra),
        ", "@,
    );
    let right_before = right_before_sql(
        diff::cols_text(diff::user_columns(r.columns)),
        right_table,
        sql_builder::ident_text(ra),
        r.cte_name,
    );
    let cond_before = join_common::condition_sql(condition, left, "l"@, right, "__pgt_r_old"@);
    let cond_now = join_common::condition_sql(condition, left, "l"@, right, "r"@);
    crate::text_laws::lemma_five_parts(
        left_changes_sql(cols1, delta_left, right_table, cond1),
        right_changes_sql(cols2, left_table, delta_right, cond2),
        unmatched_changes_sql(unmatched_cols, delta_left, right_table, cond1),
        first_match_sql(
            padded_cols,
            left_table,
            delta_right,
            cond2,
            flags,
            right_before,
            cond_before,
        ),
        last_match_sql(
            padded_cols,
            left_table,
            delta_right,
            cond2,
            flags,
            right_table,
            cond_now,
            right_before,
            cond_before,
        ),
        "\n\nUNION ALL\n\n"@,
    );
}

// ── What the rows are ──────────────────────────────────────────────────

/// A joined row is identified by the changed left row and the right row.
pub proof fn left_changes_are_identified_by_both_rows(
    cols1: Seq<char>,
    delta_left: Seq<char>,
    right_table: Seq<char>,
    cond1: Seq<char>,
)
    ensures
        ({
            let t = left_changes_sql(cols1, delta_left, right_table, cond1);
            &&& text::occurs(
                t,
                "SELECT pgtrickle.pg_trickle_hash_multi(ARRAY[dl.__pgt_row_id::TEXT, pgtrickle.pg_trickle_hash(row_to_json(r)::text)::TEXT]) AS __pgt_row_id,"@,
            )
        }),
{
    reveal_strlit("\nFROM ");
    reveal_strlit(" r ON ");
    reveal_strlit(" dl\nJOIN ");
    reveal_strlit("SELECT pgtrickle.pg_trickle_hash_multi(ARRAY[dl.__pgt_row_id::TEXT, pgtrickle.pg_trickle_hash(row_to_json(r)::text)::TEXT]) AS __pgt_row_id,");
    reveal_strlit("-- Part 1: delta_left JOIN current_right (matching rows)\nSELECT pgtrickle.pg_trickle_hash_multi(ARRAY[dl.__pgt_row_id::TEXT, pgtrickle.pg_trickle_hash(row_to_json(r)::text)::TEXT]) AS __pgt_row_id,\n       dl.__pgt_action,\n       ");
    let t = left_changes_sql(cols1, delta_left, right_table, cond1);
    let f0 = "SELECT pgtrickle.pg_trickle_hash_multi(ARRAY[dl.__pgt_row_id::TEXT, pgtrickle.pg_trickle_hash(row_to_json(r)::text)::TEXT]) AS __pgt_row_id,"@;
    let k0 = 57int;
    assert(t.subrange(k0, k0 + f0.len()) =~= f0);
    assert(text::occurs_at(t, f0, k0));
}

/// A joined row is identified by the left row and the changed right row.
pub proof fn right_changes_are_identified_by_both_rows(
    cols2: Seq<char>,
    left_table: Seq<char>,
    delta_right: Seq<char>,
    cond2: Seq<char>,
)
    ensures
        ({
            let t = right_changes_sql(cols2, left_table, delta_right, cond2);
            &&& text::occurs(
                t,
                "SELECT pgtrickle.pg_trickle_hash_multi(ARRAY[pgtrickle.pg_trickle_hash(row_to_json(l)::text)::TEXT, dr.__pgt_row_id::TEXT]) AS __pgt_row_id,"@,
            )
        }),
{
    reveal_strlit("\nFROM ");
    reveal_strlit(" dr ON ");
    reveal_strlit(" l\nJOIN ");
    reveal_strlit("SELECT pgtrickle.pg_trickle_hash_multi(ARRAY[pgtrickle.pg_trickle_hash(row_to_json(l)::text)::TEXT, dr.__pgt_row_id::TEXT]) AS __pgt_row_id,");
    reveal_strlit("-- Part 2: current_left JOIN delta_right\nSELECT pgtrickle.pg_trickle_hash_multi(ARRAY[pgtrickle.pg_trickle_hash(row_to_json(l)::text)::TEXT, dr.__pgt_row_id::TEXT]) AS __pgt_row_id,\n       dr.__pgt_action,\n       ");
    let t = right_changes_sql(cols2, left_table, delta_right, cond2);
    let f0 = "SELECT pgtrickle.pg_trickle_hash_multi(ARRAY[pgtrickle.pg_trickle_hash(row_to_json(l)::text)::TEXT, dr.__pgt_row_id::TEXT]) AS __pgt_row_id,"@;
    let k0 = 41int;
    assert(t.subrange(k0, k0 + f0.len()) =~= f0);
    assert(text::occurs_at(t, f0, k0));
}

/// A changed left row without a match keeps its identifier.
pub proof fn unmatched_rows_keep_their_identifier(
    unmatched_cols: Seq<char>,
    delta_left: Seq<char>,
    right_table: Seq<char>,
    cond1: Seq<char>,
)
    ensures
        ({
            let t = unmatched_changes_sql(unmatched_cols, delta_left, right_table, cond1);
            &&& text::occurs(
                t,
                "SELECT dl.__pgt_row_id,"@,
            )
        }),
{
    reveal_strlit("\n)");
    reveal_strlit("\nFROM ");
    reveal_strlit(" r WHERE ");
    reveal_strlit("SELECT dl.__pgt_row_id,");
    reveal_strlit(" dl\nWHERE NOT EXISTS (\n    SELECT 1 FROM ");
    reveal_strlit("-- Part 3: delta_left anti-join right (non-matching left rows get NULL right cols)\nSELECT dl.__pgt_row_id,\n       dl.__pgt_action,\n       ");
    let t = unmatched_changes_sql(unmatched_cols, delta_left, right_table, cond1);
    let f0 = "SELECT dl.__pgt_row_id,"@;
    let k0 = 83int;
    assert(t.subrange(k0, k0 + f0.len()) =~= f0);
    assert(text::occurs_at(t, f0, k0));
}

} // verus!
