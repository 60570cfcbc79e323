//! Full outer joins.
//!
//! A full join keeps rows of either side without a match.  Its delta has the
//! parts of a left join, and their mirror images for the right side.  A row
//! without a match is dropped only where it had none before, and added only
//! where it had one.

use vstd::prelude::*;
use vstd::string::*;

use crate::dvm::diff;
use crate::dvm::diff::{col_list, names_on_side, null_cols, quote_ident, rename_cols};
use crate::dvm::diff::without_count;
use crate::dvm::diff::{Delta, DiffContext, DiffEnv, DiffResult, DiffState, Outcome};
use crate::dvm::engine;
use crate::dvm::operators::join;
use crate::dvm::operators::join_common;
use crate::dvm::operators::join_common::{build_snapshot_sql, rewrite_join_condition};
use crate::dvm::parser::{both, Expr, ExprView, OpTree};
use crate::error::{ErrorView, PgTrickleError};
use crate::sql_builder;
use crate::text;
use crate::text::join_texts;

verus! {

// ── Queries ────────────────────────────────────────────────────────────

/// Whether a delta has inserts, and whether it has deletes.
pub open spec fn full_flags_sql(delta: Seq<char>) -> Seq<char> {
    "SELECT bool_or(__pgs_action = 'I') AS has_ins,bool_or(__pgs_action = 'D') AS has_del FROM "@
        + delta
}

/// Whether a delta has inserts, and whether it has deletes.
fn full_flags_query(delta: &str) -> (r: String)
    ensures
        r@ == full_flags_sql(delta@),
{
    let mut r = "SELECT bool_or(__pgs_action = 'I') AS has_ins,bool_or(__pgs_action = 'D') AS has_del FROM ".to_string();
    r.append(delta);
    r
}

/// The rows of an input before the changes.
pub open spec fn rows_before_sql(
    cols: Seq<char>,
    table: Seq<char>,
    alias: Seq<char>,
    delta: Seq<char>,
) -> Seq<char> {
    "(SELECT "@ + cols + " FROM "@ + table + " "@ + alias + " EXCEPT ALL SELECT "@ + cols
        + " FROM "@ + delta + " WHERE __pgs_action = 'I' UNION ALL SELECT "@ + cols + " FROM "@
        + delta + " WHERE __pgs_action = 'D')"@
}

/// The rows of an input before the changes.
fn rows_before_query(cols: &str, table: &str, alias: &str, delta: &str) -> (r: String)
    ensures
        r@ == rows_before_sql(cols@, table@, alias@, delta@),
{
    let mut r = "(SELECT ".to_string();
    r.append(cols);
    r.append(" FROM ");
    r.append(table);
    r.append(" ");
    r.append(alias);
    r.append(" EXCEPT ALL SELECT ");
    r.append(cols);
    r.append(" FROM ");
    r.append(delta);
    r.append(" WHERE __pgs_action = 'I' UNION ALL SELECT ");
    r.append(cols);
    r.append(" FROM ");
    r.append(delta);
    r.append(" WHERE __pgs_action = 'D')");
    r
}

/// Changed left rows with their matches.
pub open spec fn left_changes_sql(
    cols1: Seq<char>,
    delta_left: Seq<char>,
    right_table: Seq<char>,
    cond1: Seq<char>,
) -> Seq<char> {
    "-- Part 1: delta_left JOIN current_right (matching rows)\n\
        SELECT pgstream.pg_stream_hash_multi(ARRAY[dl.__pgs_row_id::TEXT, pgstream.pg_stream_hash(row_to_json(r)::text)::TEXT]) AS __pgs_row_id,\n       \
        dl.__pgs_action,\n       "@ + cols1 + "\n\
        FROM "@ + delta_left + " dl\n\
        JOIN "@ + right_table + " r ON "@ + cond1
}

/// Changed left rows with their matches.
fn left_changes_query(
    cols1: &str,
    delta_left: &str,
    right_table: &str,
    cond1: &str,
) -> (r: String)
    ensures
        r@ == left_changes_sql(cols1@, delta_left@, right_table@, cond1@),
{
    let mut r = "-- Part 1: delta_left JOIN current_right (matching rows)\n\
        SELECT pgstream.pg_stream_hash_multi(ARRAY[dl.__pgs_row_id::TEXT, pgstream.pg_stream_hash(row_to_json(r)::text)::TEXT]) AS __pgs_row_id,\n       \
        dl.__pgs_action,\n       ".to_string();
    r.append(cols1);
    r.append("\n\
        FROM ");
    r.append(delta_left);
    r.append(" dl\n\
        JOIN ");
    r.append(right_table);
    r.append(" r ON ");
    r.append(cond1);
    r
}

/// Left rows that match changed right rows.
pub open spec fn right_changes_sql(
    cols2: Seq<char>,
    left_table: Seq<char>,
    delta_right: Seq<char>,
    cond2: Seq<char>,
) -> Seq<char> {
    "-- Part 2: current_left JOIN delta_right\n\
        SELECT pgstream.pg_stream_hash_multi(ARRAY[pgstream.pg_stream_hash(row_to_json(l)::text)::TEXT, dr.__pgs_row_id::TEXT]) AS __pgs_row_id,\n       \
        dr.__pgs_action,\n       "@ + cols2 + "\n\
        FROM "@ + left_table + " l\n\
        JOIN "@ + delta_right + " dr ON "@ + cond2
}

/// Left rows that match changed right rows.
fn right_changes_query(
    cols2: &str,
    left_table: &str,
    delta_right: &str,
    cond2: &str,
) -> (r: String)
    ensures
        r@ == right_changes_sql(cols2@, left_table@, delta_right@, cond2@),
{
    let mut r = "-- Part 2: current_left JOIN delta_right\n\
        SELECT pgstream.pg_stream_hash_multi(ARRAY[pgstream.pg_stream_hash(row_to_json(l)::text)::TEXT, dr.__pgs_row_id::TEXT]) AS __pgs_row_id,\n       \
        dr.__pgs_action,\n       ".to_string();
    r.append(cols2);
    r.append("\n\
        FROM ");
    r.append(left_table);
    r.append(" l\n\
        JOIN ");
    r.append(delta_right);
    r.append(" dr ON ");
    r.append(cond2);
    r
}

/// Changed left rows without a match, with nulls.
pub open spec fn left_unmatched_sql(
    left_only: Seq<char>,
    delta_left: Seq<char>,
    right_table: Seq<char>,
    cond1: Seq<char>,
) -> Seq<char> {
    "-- Part 3: delta_left anti-join right (non-matching left rows → NULL right cols)\n\
        SELECT dl.__pgs_row_id,\n       \
        dl.__pgs_action,\n       "@ + left_only + "\n\
        FROM "@ + delta_left + " dl\n\
        WHERE NOT EXISTS (\n    \
        SELECT 1 FROM "@ + right_table + " r WHERE "@ + cond1 + "\n\
        )"@
}

/// Changed left rows without a match, with nulls.
fn left_unmatched_query(
    left_only: &str,
    delta_left: &str,
    right_table: &str,
    cond1: &str,
) -> (r: String)
    ensures
        r@ == left_unmatched_sql(left_only@, delta_left@, right_table@, cond1@),
{
    let mut r = "-- Part 3: delta_left anti-join right (non-matching left rows → NULL right cols)\n\
        SELECT dl.__pgs_row_id,\n       \
        dl.__pgs_action,\n       ".to_string();
    r.append(left_only);
    r.append("\n\
        FROM ");
    r.append(delta_left);
    r.append(" dl\n\
        WHERE NOT EXISTS (\n    \
        SELECT 1 FROM ");
    r.append(right_table);
    r.append(" r WHERE ");
    r.append(cond1);
    r.append("\n\
        )");
    r
}

/// Left rows with nulls that have a first match now.
pub open spec fn left_first_match_sql(
    left_padded: Seq<char>,
    left_table: Seq<char>,
    delta_right: Seq<char>,
    cond2: Seq<char>,
    right_flags: Seq<char>,
    right_before: Seq<char>,
    cond_right_before: Seq<char>,
) -> Seq<char> {
    "-- Part 4: Delete stale NULL-padded left rows when new right matches appear\n\
        SELECT 0::BIGINT AS __pgs_row_id,\n       \
        'D'::TEXT AS __pgs_action,\n       "@ + left_padded + "\n\
        FROM "@ + left_table + " l\n\
        JOIN "@ + delta_right + " dr ON "@ + cond2 + "\n\
        WHERE dr.__pgs_action = 'I'\n  \
        AND (SELECT has_ins FROM "@ + right_flags + ")\n  \
        AND NOT EXISTS (\n    \
        SELECT 1 FROM "@ + right_before + " __pgs_r_old WHERE "@ + cond_right_before + "\n\
        )"@
}

/// Left rows with nulls that have a first match now.
fn left_first_match_query(
    left_padded: &str,
    left_table: &str,
    delta_right: &str,
    cond2: &str,
    right_flags: &str,
    right_before: &str,
    cond_right_before: &str,
) -> (r: String)
    ensures
        r@ == left_first_match_sql(
            left_padded@,
            left_table@,
            delta_right@,
            cond2@,
            right_flags@,
            right_before@,
            cond_right_before@,
        ),
{
    let mut r = "-- Part 4: Delete stale NULL-padded left rows when new right matches appear\n\
        SELECT 0::BIGINT AS __pgs_row_id,\n       \
        'D'::TEXT AS __pgs_action,\n       ".to_string();
    r.append(left_padded);
    r.append("\n\
        FROM ");
    r.append(left_table);
    r.append(" l\n\
        JOIN ");
    r.append(delta_right);
    r.append(" dr ON ");
    r.append(cond2);
    r.append("\n\
        WHERE dr.__pgs_action = 'I'\n  \
        AND (SELECT has_ins FROM ");
    r.append(right_flags);
    r.append(")\n  \
        AND NOT EXISTS (\n    \
        SELECT 1 FROM ");
    r.append(right_before);
    r.append(" __pgs_r_old WHERE ");
    r.append(cond_right_before);
    r.append("\n\
        )");
    r
}

/// Left rows that lost their last match, with nulls.
pub open spec fn left_last_match_sql(
    left_padded: Seq<char>,
    left_table: Seq<char>,
    delta_right: Seq<char>,
    cond2: Seq<char>,
    right_flags: Seq<char>,
    right_table: Seq<char>,
    cond_now: Seq<char>,
    right_before: Seq<char>,
    cond_right_before: Seq<char>,
) -> Seq<char> {
    "-- Part 5: Insert NULL-padded left rows when left row loses all right matches\n\
        SELECT 0::BIGINT AS __pgs_row_id,\n       \
        'I'::TEXT AS __pgs_action,\n       "@ + left_padded + "\n\
        FROM "@ + left_table + " l\n\
        JOIN "@ + delta_right + " dr ON "@ + cond2 + "\n\
        WHERE dr.__pgs_action = 'D'\n  \
        AND (SELECT has_del FROM "@ + right_flags + ")\n  \
        AND NOT EXISTS (\n    \
        SELECT 1 FROM "@ + right_table + " r WHERE "@ + cond_now + "\n\
        )\n  \
        AND EXISTS (\n    \
        SELECT 1 FROM "@ + right_before + " __pgs_r_old WHERE "@ + cond_right_before + "\n\
        )"@
}

/// Left rows that lost their last match, with nulls.
fn left_last_match_query(
    left_padded: &str,
    left_table: &str,
    delta_right: &str,
    cond2: &str,
    right_flags: &str,
    right_table: &str,
    cond_now: &str,
    right_before: &str,
    cond_right_before: &str,
) -> (r: String)
    ensures
        r@ == left_last_match_sql(
            left_padded@,
            left_table@,
            delta_right@,
            cond2@,
            right_flags@,
            right_table@,
            cond_now@,
            right_before@,
            cond_right_before@,
        ),
{
    let mut r = "-- Part 5: Insert NULL-padded left rows when left row loses all right matches\n\
        SELECT 0::BIGINT AS __pgs_row_id,\n       \
        'I'::TEXT AS __pgs_action,\n       ".to_string();
    r.append(left_padded);
    r.append("\n\
        FROM ");
    r.append(left_table);
    r.append(" l\n\
        JOIN ");
    r.append(delta_right);
    r.append(" dr ON ");
    r.append(cond2);
    r.append("\n\
        WHERE dr.__pgs_action = 'D'\n  \
        AND (SELECT has_del FROM ");
    r.append(right_flags);
    r.append(")\n  \
        AND NOT EXISTS (\n    \
        SELECT 1 FROM ");
    r.append(right_table);
    r.append(" r WHERE ");
    r.append(cond_now);
    r.append("\n\
        )\n  \
        AND EXISTS (\n    \
        SELECT 1 FROM ");
    r.append(right_before);
    r.append(" __pgs_r_old WHERE ");
    r.append(cond_right_before);
    r.append("\n\
        )");
    r
}

/// Changed right rows without a match, with nulls.
pub open spec fn right_unmatched_sql(
    right_only: Seq<char>,
    delta_right: Seq<char>,
    left_table: Seq<char>,
    cond2: Seq<char>,
) -> Seq<char> {
    "-- Part 6: delta_right anti-join left (non-matching right rows → NULL left cols)\n\
        SELECT dr.__pgs_row_id,\n       \
        dr.__pgs_action,\n       "@ + right_only + "\n\
        FROM "@ + delta_right + " dr\n\
        WHERE NOT EXISTS (\n    \
        SELECT 1 FROM "@ + left_table + " l WHERE "@ + cond2 + "\n\
        )"@
}

/// Changed right rows without a match, with nulls.
fn right_unmatched_query(
    right_only: &str,
    delta_right: &str,
    left_table: &str,
    cond2: &str,
) -> (r: String)
    ensures
        r@ == right_unmatched_sql(right_only@, delta_right@, left_table@, cond2@),
{
    let mut r = "-- Part 6: delta_right anti-join left (non-matching right rows → NULL left cols)\n\
        SELECT dr.__pgs_row_id,\n       \
        dr.__pgs_action,\n       ".to_string();
    r.append(right_only);
    r.append("\n\
        FROM ");
    r.append(delta_right);
    r.append(" dr\n\
        WHERE NOT EXISTS (\n    \
        SELECT 1 FROM ");
    r.append(left_table);
    r.append(" l WHERE ");
    r.append(cond2);
    r.append("\n\
        )");
    r
}

/// Right rows with nulls that have a first match now.
pub open spec fn right_first_match_sql(
    right_padded: Seq<char>,
    right_table: Seq<char>,
    delta_left: Seq<char>,
    cond1: Seq<char>,
    left_flags: Seq<char>,
    left_before: Seq<char>,
    cond_left_before: Seq<char>,
) -> Seq<char> {
    "-- Part 7a: Delete stale NULL-padded right rows when new left matches appear\n\
        SELECT 0::BIGINT AS __pgs_row_id,\n       \
        'D'::TEXT AS __pgs_action,\n       "@ + right_padded + "\n\
        FROM "@ + right_table + " r\n\
        JOIN "@ + delta_left + " dl ON "@ + cond1 + "\n\
        WHERE dl.__pgs_action = 'I'\n  \
        AND (SELECT has_ins FROM "@ + left_flags + ")\n  \
        AND NOT EXISTS (\n    \
        SELECT 1 FROM "@ + left_before + " __pgs_l_old WHERE "@ + cond_left_before + "\n\
        )"@
}

/// Right rows with nulls that have a first match now.
fn right_first_match_query(
    right_padded: &str,
    right_table: &str,
    delta_left: &str,
    cond1: &str,
    left_flags: &str,
    left_before: &str,
    cond_left_before: &str,
) -> (r: String)
    ensures
        r@ == right_first_match_sql(
            right_padded@,
            right_table@,
            delta_left@,
            cond1@,
            left_flags@,
            left_before@,
            cond_left_before@,
        ),
{
    let mut r = "-- Part 7a: Delete stale NULL-padded right rows when new left matches appear\n\
        SELECT 0::BIGINT AS __pgs_row_id,\n       \
        'D'::TEXT AS __pgs_action,\n       ".to_string();
    r.append(right_padded);
    r.append("\n\
        FROM ");
    r.append(right_table);
    r.append(" r\n\
        JOIN ");
    r.append(delta_left);
    r.append(" dl ON ");
    r.append(cond1);
    r.append("\n\
        WHERE dl.__pgs_action = 'I'\n  \
        AND (SELECT has_ins FROM ");
    r.append(left_flags);
    r.append(")\n  \
        AND NOT EXISTS (\n    \
        SELECT 1 FROM ");
    r.append(left_before);
    r.append(" __pgs_l_old WHERE ");
    r.append(cond_left_before);
    r.append("\n\
        )");
    r
}

/// Right rows that lost their last match, with nulls.
pub open spec fn right_last_match_sql(
    right_padded: Seq<char>,
    right_table: Seq<char>,
    delta_left: Seq<char>,
    cond1: Seq<char>,
    left_flags: Seq<char>,
    left_table: Seq<char>,
    cond_now: Seq<char>,
    left_before: Seq<char>,
    cond_left_before: Seq<char>,
) -> Seq<char> {
    "-- Part 7b: Insert NULL-padded right rows when right row loses all left matches\n\
        SELECT 0::BIGINT AS __pgs_row_id,\n       \
        'I'::TEXT AS __pgs_action,\n       "@ + right_padded + "\n\
        FROM "@ + right_table + " r\n\
        JOIN "@ + delta_left + " dl ON "@ + cond1 + "\n\
        WHERE dl.__pgs_action = 'D'\n  \
        AND (SELECT has_del FROM "@ + left_flags + ")\n  \
        AND NOT EXISTS (\n    \
        SELECT 1 FROM "@ + left_table + " l WHERE "@ + cond_now + "\n\
        )\n  \
        AND EXISTS (\n    \
        SELECT 1 FROM "@ + left_before + " __pgs_l_old WHERE "@ + cond_left_before + "\n\
        )"@
}

/// Right rows that lost their last match, with nulls.
fn right_last_match_query(
    right_padded: &str,
    right_table: &str,
    delta_left: &str,
    cond1: &str,
    left_flags: &str,
    left_table: &str,
    cond_now: &str,
    left_before: &str,
    cond_left_before: &str,
) -> (r: String)
    ensures
        r@ == right_last_match_sql(
            right_padded@,
            right_table@,
            delta_left@,
            cond1@,
            left_flags@,
            left_table@,
            cond_now@,
            left_before@,
            cond_left_before@,
        ),
{
    let mut r = "-- Part 7b: Insert NULL-padded right rows when right row loses all left matches\n\
        SELECT 0::BIGINT AS __pgs_row_id,\n       \
        'I'::TEXT AS __pgs_action,\n       ".to_string();
    r.append(right_padded);
    r.append("\n\
        FROM ");
    r.append(right_table);
    r.append(" r\n\
        JOIN ");
    r.append(delta_left);
    r.append(" dl ON ");
    r.append(cond1);
    r.append("\n\
        WHERE dl.__pgs_action = 'D'\n  \
        AND (SELECT has_del FROM ");
    r.append(left_flags);
    r.append(")\n  \
        AND NOT EXISTS (\n    \
        SELECT 1 FROM ");
    r.append(left_table);
    r.append(" l WHERE ");
    r.append(cond_now);
    r.append("\n\
        )\n  \
        AND EXISTS (\n    \
        SELECT 1 FROM ");
    r.append(left_before);
    r.append(" __pgs_l_old WHERE ");
    r.append(cond_left_before);
    r.append("\n\
        )");
    r
}

/// The delta of a full join.
pub open spec fn full_join_sql(
    cols1: Seq<char>,
    delta_left: Seq<char>,
    right_table: Seq<char>,
    cond1: Seq<char>,
    cols2: Seq<char>,
    left_table: Seq<char>,
    delta_right: Seq<char>,
    cond2: Seq<char>,
    left_only: Seq<char>,
    left_padded: Seq<char>,
    right_flags: Seq<char>,
    cond_now: Seq<char>,
    right_only: Seq<char>,
    right_padded: Seq<char>,
    left_flags: Seq<char>,
    right_before: Seq<char>,
    cond_right_before: Seq<char>,
    left_before: Seq<char>,
    cond_left_before: Seq<char>,
) -> Seq<char> {
    left_changes_sql(cols1, delta_left, right_table, cond1) + "\n\nUNION ALL\n\n"@
        + right_changes_sql(cols2, left_table, delta_right, cond2) + "\n\nUNION ALL\n\n"@
        + left_unmatched_sql(left_only, delta_left, right_table, cond1) + "\n\nUNION ALL\n\n"@
        + left_first_match_sql(left_padded, left_table, delta_right, cond2, right_flags, right_before, cond_right_before)
        + "\n\nUNION ALL\n\n"@
        + left_last_match_sql(left_padded, left_table, delta_right, cond2, right_flags, right_table, cond_now, right_before, cond_right_before)
        + "\n\nUNION ALL\n\n"@ + right_unmatched_sql(right_only, delta_right, left_table, cond2)
        + "\n\nUNION ALL\n\n"@
        + right_first_match_sql(right_padded, right_table, delta_left, cond1, left_flags, left_before, cond_left_before)
        + "\n\nUNION ALL\n\n"@
        + right_last_match_sql(right_padded, right_table, delta_left, cond1, left_flags, left_table, cond_now, left_before, cond_left_before)
}

/// The delta of a full join.
fn full_join_query(
    cols1: &str,
    delta_left: &str,
    right_table: &str,
    cond1: &str,
    cols2: &str,
    left_table: &str,
    delta_right: &str,
    cond2: &str,
    left_only: &str,
    left_padded: &str,
    right_flags: &str,
    cond_now: &str,
    right_only: &str,
    right_padded: &str,
    left_flags: &str,
    right_before: &str,
    cond_right_before: &str,
    left_before: &str,
    cond_left_before: &str,
) -> (r: String)
    ensures
        r@ == full_join_sql(
            cols1@,
            delta_left@,
            right_table@,
            cond1@,
            cols2@,
            left_table@,
            delta_right@,
            cond2@,
            left_only@,
            left_padded@,
            right_flags@,
            cond_now@,
            right_only@,
            right_padded@,
            left_flags@,
            right_before@,
            cond_right_before@,
            left_before@,
            cond_left_before@,
        ),
{
    let mut r = left_changes_query(cols1, delta_left, right_table, cond1);
    r.append("\n\nUNION ALL\n\n");
    r.append(right_changes_query(cols2, left_table, delta_right, cond2).as_str());
    r.append("\n\nUNION ALL\n\n");
    r.append(left_unmatched_query(left_only, delta_left, right_table, cond1).as_str());
    r.append("\n\nUNION ALL\n\n");
    r.append(
        left_first_match_query(
            left_padded,
            left_table,
            delta_right,
            cond2,
            right_flags,
            right_before,
            cond_right_before,
        ).as_str(),
    );
    r.append("\n\nUNION ALL\n\n");
    r.append(
        left_last_match_query(
            left_padded,
            left_table,
            delta_right,
            cond2,
            right_flags,
            right_table,
            cond_now,
            right_before,
            cond_right_before,
        ).as_str(),
    );
    r.append("\n\nUNION ALL\n\n");
    r.append(right_unmatched_query(right_only, delta_right, left_table, cond2).as_str());
    r.append("\n\nUNION ALL\n\n");
    r.append(
        right_first_match_query(
            right_padded,
            right_table,
            delta_left,
            cond1,
            left_flags,
            left_before,
            cond_left_before,
        ).as_str(),
    );
    r.append("\n\nUNION ALL\n\n");
    r.append(
        right_last_match_query(
            right_padded,
            right_table,
            delta_left,
            cond1,
            left_flags,
            left_table,
            cond_now,
            left_before,
            cond_left_before,
        ).as_str(),
    );
    r
}

// ── Differentiation ────────────────────────────────────────────────────

/// The query of a full join over the deltas of its inputs.
#[verifier::opaque]
pub open spec fn full_join_text(
    condition: ExprView,
    left: OpTree,
    right: OpTree,
    l: Delta,
    r: Delta,
    left_flags: Seq<char>,
    right_flags: Seq<char>,
) -> Seq<char> {
    let la = left.spec_alias();
    let ra = right.spec_alias();
    full_join_sql(
        text::join(
            diff::renamed("dl."@, l.columns, la) + diff::renamed("r."@, r.columns, ra),
            ", "@,
        ),
        l.cte_name,
        join_common::snapshot_sql(right),
        join_common::condition_sql(condition, left, "dl"@, right, "r"@),
        text::join(
            diff::renamed("l."@, l.columns, la) + diff::renamed("dr."@, r.columns, ra),
            ", "@,
        ),
        join_common::snapshot_sql(left),
        r.cte_name,
        join_common::condition_sql(condition, left, "l"@, right, "dr"@),
        text::join(diff::renamed("dl."@, l.columns, la) + diff::nulls(r.columns, ra), ", "@),
        text::join(diff::renamed("l."@, l.columns, la) + diff::nulls(r.columns, ra), ", "@),
        right_flags,
        join_common::condition_sql(condition, left, "l"@, right, "r"@),
        text::join(diff::nulls(l.columns, la) + diff::renamed("dr."@, r.columns, ra), ", "@),
        text::join(diff::nulls(l.columns, la) + diff::renamed("r."@, r.columns, ra), ", "@),
        left_flags,
        rows_before_sql(
            diff::cols_text(diff::user_columns(r.columns)),
            join_common::snapshot_sql(right),
            sql_builder::ident_text(ra),
            r.cte_name,
        ),
        join_common::condition_sql(condition, left, "l"@, right, "__pgs_r_old"@),
        rows_before_sql(
            diff::cols_text(diff::user_columns(l.columns)),
            join_common::snapshot_sql(left),
            sql_builder::ident_text(la),
            l.cte_name,
        ),
        join_common::condition_sql(condition, left, "__pgs_l_old"@, right, "r"@),
    )
}

/// The outcome of a full join over the deltas of its inputs.
pub open spec fn full_join_outcome(
    st: DiffState,
    condition: ExprView,
    left: OpTree,
    right: OpTree,
    l: Delta,
    r: Delta,
) -> Outcome {
    let left_flags = st.fresh("fj_left_flags"@);
    let st1 = st.step("fj_left_flags"@, full_flags_sql(l.cte_name));
    let right_flags = st1.fresh("fj_right_flags"@);
    let st2 = st1.step("fj_right_flags"@, full_flags_sql(r.cte_name));
    (
        st2.step(
            "full_join"@,
            full_join_text(condition, left, right, l, r, left_flags, right_flags),
        ),
        Ok(
            Delta {
                cte_name: st2.fresh("full_join"@),
                columns: join::joined_columns(left, right, l, r),
                is_deduplicated: false,
            },
        ),
    )
}

/// The outcome of differentiating an operator as a full join.
pub open spec fn full_join_diff(env: DiffEnv, st: DiffState, op: OpTree) -> Outcome
    decreases env.cte_registry.depth(op), op, 0nat,
{
    match op {
        OpTree::FullJoin { condition, left, right } => match engine::tree_diff(env, st, *left) {
            (st1, Ok(l)) => match engine::tree_diff(env, st1, *right) {
                (st2, Ok(r)) => full_join_outcome(st2, condition@, *left, *right, l, r),
                (st2, Err(e)) => (st2, Err(e)),
            },
            (st1, Err(e)) => (st1, Err(e)),
        },
        _ => (st, Err(ErrorView::InternalError("diff_full_join called on non-FullJoin node"@))),
    }
}

/// The rows of an input before the changes.
fn build_rows_before(op: &OpTree, d: &DiffResult) -> (s: String)
    ensures
        s@ == rows_before_sql(
            diff::cols_text(diff::user_columns(d@.columns)),
            join_common::snapshot_sql(*op),
            sql_builder::ident_text(op.spec_alias()),
            d@.cte_name,
        ),
{
    rows_before_query(
        col_list(without_count(&d.columns).as_slice()).as_str(),
        build_snapshot_sql(op).as_str(),
        quote_ident(op.alias()).as_str(),
        d.cte_name.as_str(),
    )
}

/// The query of a full join over the deltas of its inputs.
fn build_full_join(
    condition: &Expr,
    left: &OpTree,
    right: &OpTree,
    l: &DiffResult,
    r: &DiffResult,
    left_flags: &str,
    right_flags: &str,
) -> (s: String)
    ensures
        s@ == full_join_text(condition@, *left, *right, l@, r@, left_flags@, right_flags@),
{
    proof {
        reveal(full_join_text);
    }
    let la = left.alias();
    let ra = right.alias();
    let cols1 = both(rename_cols("dl.", &l.columns, la), rename_cols("r.", &r.columns, ra));
    let cols2 = both(rename_cols("l.", &l.columns, la), rename_cols("dr.", &r.columns, ra));
    let left_only = both(rename_cols("dl.", &l.columns, la), null_cols(&r.columns, ra));
    let left_padded = both(rename_cols("l.", &l.columns, la), null_cols(&r.columns, ra));
    let right_only = both(null_cols(&l.columns, la), rename_cols("dr.", &r.columns, ra));
    let right_padded = both(null_cols(&l.columns, la), rename_cols("r.", &r.columns, ra));
    full_join_query(
        join_texts(&cols1, ", ").as_str(),
        l.cte_name.as_str(),
        build_snapshot_sql(right).as_str(),
        rewrite_join_condition(condition, left, "dl", right, "r").as_str(),
        join_texts(&cols2, ", ").as_str(),
        build_snapshot_sql(left).as_str(),
        r.cte_name.as_str(),
        rewrite_join_condition(condition, left, "l", right, "dr").as_str(),
        join_texts(&left_only, ", ").as_str(),
        join_texts(&left_padded, ", ").as_str(),
        right_flags,
        rewrite_join_condition(condition, left, "l", right, "r").as_str(),
        join_texts(&right_only, ", ").as_str(),
        join_texts(&right_padded, ", ").as_str(),
        left_flags,
        build_rows_before(right, r).as_str(),
        rewrite_join_condition(condition, left, "l", right, "__pgs_r_old").as_str(),
        build_rows_before(left, l).as_str(),
        rewrite_join_condition(condition, left, "__pgs_l_old", right, "r").as_str(),
    )
}

/// Adds a full join over the deltas of its inputs to the chain.
fn add_full_join(
    ctx: &mut DiffContext,
    condition: &Expr,
    left: &OpTree,
    right: &OpTree,
    l: DiffResult,
    r: DiffResult,
) -> (d: DiffResult)
    ensures
        final(ctx).env() == old(ctx).env(),
        diff::yields(*final(ctx), Ok(d), full_join_outcome(
            old(ctx).state(),
            condition@,
            *left,
            *right,
            l@,
            r@,
        )),
{
    let left_flags = ctx.next_cte_name("fj_left_flags");
    ctx.add_cte(left_flags.clone(), full_flags_query(l.cte_name.as_str()));
    let right_flags = ctx.next_cte_name("fj_right_flags");
    ctx.add_cte(right_flags.clone(), full_flags_query(r.cte_name.as_str()));
    let sql = build_full_join(
        condition,
        left,
        right,
        &l,
        &r,
        left_flags.as_str(),
        right_flags.as_str(),
    );
    let columns = both(
        names_on_side(left.alias(), &l.columns),
        names_on_side(right.alias(), &r.columns),
    );
    let cte_name = ctx.next_cte_name("full_join");
    ctx.add_cte(cte_name.clone(), sql);
    DiffResult { cte_name, columns, is_deduplicated: false }
}

/// Differentiates a full join.
pub fn diff_full_join(ctx: &mut DiffContext, op: &OpTree) -> (r: Result<
    DiffResult,
    PgTrickleError,
>)
    requires
        old(ctx).env().cte_registry.acyclic(),
    ensures
        final(ctx).env() == old(ctx).env(),
        diff::yields(
            *final(ctx),
            r,
            full_join_diff(old(ctx).env(), old(ctx).state(), *op),
        ),
    decreases old(ctx).env().cte_registry.depth(*op), op, 0nat,
{
    match op {
        OpTree::FullJoin { condition, left, right } => {
            let l = match ctx.diff_node(left) {
                Ok(d) => d,
                Err(e) => {
                    return Err(e);
                },
            };
            let r = match ctx.diff_node(right) {
                Ok(d) => d,
                Err(e) => {
                    return Err(e);
                },
            };
            Ok(add_full_join(ctx, condition, left, right, l, r))
        },
        _ => Err(
            PgTrickleError::InternalError("diff_full_join called on non-FullJoin node".to_string()),
        ),
    }
}

// ── What the queries say ───────────────────────────────────────────────

/// The rows before the changes are the current ones without those inserted and
/// with those deleted.
pub proof fn rows_before_are_current_ones_without_the_changes(
    cols: Seq<char>,
    table: Seq<char>,
    alias: Seq<char>,
    delta: Seq<char>,
)
    ensures
        ({
            let t = rows_before_sql(cols, table, alias, delta);
            &&& text::occurs(
                t,
                "FROM "@ + table + " "@ + alias + " EXCEPT ALL SELECT "@ + cols + " FROM "@ + delta
                    + " WHERE __pgs_action = 'I' UNION ALL SELECT "@ + cols + " FROM "@ + delta
                    + " WHERE __pgs_action = 'D'"@,
            )
        }),
{
    reveal_strlit(" ");
    reveal_strlit("FROM ");
    reveal_strlit(" FROM ");
    reveal_strlit("(SELECT ");
    reveal_strlit(" EXCEPT ALL SELECT ");
    reveal_strlit(" WHERE __pgs_action = 'D'");
    reveal_strlit(" WHERE __pgs_action = 'D')");
    reveal_strlit(" WHERE __pgs_action = 'I' UNION ALL SELECT ");
    let t = rows_before_sql(cols, table, alias, delta);
    let f0 = "FROM "@ + table + " "@ + alias + " EXCEPT ALL SELECT "@ + cols + " FROM "@ + delta
        + " WHERE __pgs_action = 'I' UNION ALL SELECT "@ + cols + " FROM "@ + delta
        + " WHERE __pgs_action = 'D'"@;
    let k0 = 9int + cols.len();
    assert(t.subrange(k0, k0 + f0.len()) =~= f0);
    assert(text::occurs_at(t, f0, k0));
}

/// The flags tell whether a delta has inserts and whether it has deletes.
pub proof fn flags_tell_inserts_and_deletes(
    delta: Seq<char>,
)
    ensures
        ({
            let t = full_flags_sql(delta);
            &&& text::occurs(
                t,
                "bool_or(__pgs_action = 'I') AS has_ins,bool_or(__pgs_action = 'D') AS has_del FROM "@
                    + delta,
            )
        }),
{
    reveal_strlit("bool_or(__pgs_action = 'I') AS has_ins,bool_or(__pgs_action = 'D') AS has_del FROM ");
    reveal_strlit("SELECT bool_or(__pgs_action = 'I') AS has_ins,bool_or(__pgs_action = 'D') AS has_del FROM ");
    let t = full_flags_sql(delta);
    let f0 = "bool_or(__pgs_action = 'I') AS has_ins,bool_or(__pgs_action = 'D') AS has_del FROM "@
        + delta;
    let k0 = 7int;
    assert(t.subrange(k0, k0 + f0.len()) =~= f0);
    assert(text::occurs_at(t, f0, k0));
}

/// A changed left row is joined with its matches and keeps its action.
pub proof fn left_changes_are_joined_with_the_right_rows(
    cols1: Seq<char>,
    delta_left: Seq<char>,
    right_table: Seq<char>,
    cond1: Seq<char>,
)
    ensures
        ({
            let t = left_changes_sql(cols1, delta_left, right_table, cond1);
            &&& text::occurs(
                t,
                "dl.__pgs_action,\n       "@ + cols1 + "\nFROM "@ + delta_left + " dl\nJOIN "@
                    + right_table + " r ON "@ + cond1,
            )
        }),
{
    reveal_strlit("\nFROM ");
    reveal_strlit(" r ON ");
    reveal_strlit(" dl\nJOIN ");
    reveal_strlit("dl.__pgs_action,\n       ");
    reveal_strlit("-- Part 1: delta_left JOIN current_right (matching rows)\nSELECT pgstream.pg_stream_hash_multi(ARRAY[dl.__pgs_row_id::TEXT, pgstream.pg_stream_hash(row_to_json(r)::text)::TEXT]) AS __pgs_row_id,\n       dl.__pgs_action,\n       ");
    let t = left_changes_sql(cols1, delta_left, right_table, cond1);
    let f0 = "dl.__pgs_action,\n       "@ + cols1 + "\nFROM "@ + delta_left + " dl\nJOIN "@
        + right_table + " r ON "@ + cond1;
    let k0 = 201int;
    assert(t.subrange(k0, k0 + f0.len()) =~= f0);
    assert(text::occurs_at(t, f0, k0));
}

/// A changed right row is joined with its matches and keeps its action.
pub proof fn right_changes_are_joined_with_the_left_rows(
    cols2: Seq<char>,
    left_table: Seq<char>,
    delta_right: Seq<char>,
    cond2: Seq<char>,
)
    ensures
        ({
            let t = right_changes_sql(cols2, left_table, delta_right, cond2);
            &&& text::occurs(
                t,
                "dr.__pgs_action,\n       "@ + cols2 + "\nFROM "@ + left_table + " l\nJOIN "@
                    + delta_right + " dr ON "@ + cond2,
            )
        }),
{
    reveal_strlit("\nFROM ");
    reveal_strlit(" dr ON ");
    reveal_strlit(" l\nJOIN ");
    reveal_strlit("dr.__pgs_action,\n       ");
    reveal_strlit("-- Part 2: current_left JOIN delta_right\nSELECT pgstream.pg_stream_hash_multi(ARRAY[pgstream.pg_stream_hash(row_to_json(l)::text)::TEXT, dr.__pgs_row_id::TEXT]) AS __pgs_row_id,\n       dr.__pgs_action,\n       ");
    let t = right_changes_sql(cols2, left_table, delta_right, cond2);
    let f0 = "dr.__pgs_action,\n       "@ + cols2 + "\nFROM "@ + left_table + " l\nJOIN "@
        + delta_right + " dr ON "@ + cond2;
    let k0 = 185int;
    assert(t.subrange(k0, k0 + f0.len()) =~= f0);
    assert(text::occurs_at(t, f0, k0));
}

/// A changed left row without a match comes out with its action and nulls.
pub proof fn left_changes_without_a_match_have_nulls(
    left_only: Seq<char>,
    delta_left: Seq<char>,
    right_table: Seq<char>,
    cond1: Seq<char>,
)
    ensures
        ({
            let t = left_unmatched_sql(left_only, delta_left, right_table, cond1);
            &&& text::occurs(
                t,
                "dl.__pgs_action,\n       "@ + left_only + "\nFROM "@ + delta_left
                    + " dl\nWHERE NOT EXISTS (\n    SELECT 1 FROM "@ + right_table + " r WHERE "@
                    + cond1 + "\n)"@,
            )
        }),
{
    reveal_strlit("\n)");
    reveal_strlit("\nFROM ");
    reveal_strlit(" r WHERE ");
    reveal_strlit("dl.__pgs_action,\n       ");
    reveal_strlit(" dl\nWHERE NOT EXISTS (\n    SELECT 1 FROM ");
    reveal_strlit("-- Part 3: delta_left anti-join right (non-matching left rows → NULL right cols)\nSELECT dl.__pgs_row_id,\n       dl.__pgs_action,\n       ");
    let t = left_unmatched_sql(left_only, delta_left, right_table, cond1);
    let f0 = "dl.__pgs_action,\n       "@ + left_only + "\nFROM "@ + delta_left
        + " dl\nWHERE NOT EXISTS (\n    SELECT 1 FROM "@ + right_table + " r WHERE "@ + cond1
        + "\n)"@;
    let k0 = 112int;
    assert(t.subrange(k0, k0 + f0.len()) =~= f0);
    assert(text::occurs_at(t, f0, k0));
}

/// A left row with nulls is deleted where a match was inserted and it had none
/// before.
pub proof fn left_rows_with_nulls_go_with_a_first_match(
    left_padded: Seq<char>,
    left_table: Seq<char>,
    delta_right: Seq<char>,
    cond2: Seq<char>,
    right_flags: Seq<char>,
    right_before: Seq<char>,
    cond_right_before: Seq<char>,
)
    ensures
        ({
            let t = left_first_match_sql(
                left_padded,
                left_table,
                delta_right,
                cond2,
                right_flags,
                right_before,
                cond_right_before,
            );
            &&& text::occurs(
                t,
                "'D'::TEXT AS __pgs_action,\n       "@ + left_padded + "\nFROM "@ + left_table
                    + " l\nJOIN "@ + delta_right + " dr ON "@ + cond2
                    + "\nWHERE dr.__pgs_action = 'I'\n  AND (SELECT has_ins FROM "@ + right_flags
                    + ")\n  AND NOT EXISTS (\n    SELECT 1 FROM "@ + right_before
                    + " __pgs_r_old WHERE "@ + cond_right_before + "\n"@,
            )
        }),
{
    reveal_strlit("\n");
    reveal_strlit("\n)");
    reveal_strlit("\nFROM ");
    reveal_strlit(" dr ON ");
    reveal_strlit(" l\nJOIN ");
    reveal_strlit(" __pgs_r_old WHERE ");
    reveal_strlit("'D'::TEXT AS __pgs_action,\n       ");
    reveal_strlit(")\n  AND NOT EXISTS (\n    SELECT 1 FROM ");
    reveal_strlit("\nWHERE dr.__pgs_action = 'I'\n  AND (SELECT has_ins FROM ");
    reveal_strlit("-- Part 4: Delete stale NULL-padded left rows when new right matches appear\nSELECT 0::BIGINT AS __pgs_row_id,\n       'D'::TEXT AS __pgs_action,\n       ");
    let t = left_first_match_sql(
        left_padded,
        left_table,
        delta_right,
        cond2,
        right_flags,
        right_before,
        cond_right_before,
    );
    let f0 = "'D'::TEXT AS __pgs_action,\n       "@ + left_padded + "\nFROM "@ + left_table
        + " l\nJOIN "@ + delta_right + " dr ON "@ + cond2
        + "\nWHERE dr.__pgs_action = 'I'\n  AND (SELECT has_ins FROM "@ + right_flags
        + ")\n  AND NOT EXISTS (\n    SELECT 1 FROM "@ + right_before + " __pgs_r_old WHERE "@
        + cond_right_before + "\n"@;
    let k0 = 117int;
    assert(t.subrange(k0, k0 + f0.len()) =~= f0);
    assert(text::occurs_at(t, f0, k0));
}

/// A left row with nulls is inserted where a match was deleted, none is left
/// and it had one before.
pub proof fn left_rows_with_nulls_come_with_the_loss_of_the_last_match(
    left_padded: Seq<char>,
    left_table: Seq<char>,
    delta_right: Seq<char>,
    cond2: Seq<char>,
    right_flags: Seq<char>,
    right_table: Seq<char>,
    cond_now: Seq<char>,
    right_before: Seq<char>,
    cond_right_before: Seq<char>,
)
    ensures
        ({
            let t = left_last_match_sql(
                left_padded,
                left_table,
                delta_right,
                cond2,
                right_flags,
                right_table,
                cond_now,
                right_before,
                cond_right_before,
            );
            &&& text::occurs(
                t,
                "'I'::TEXT AS __pgs_action,\n       "@ + left_padded + "\nFROM "@ + left_table
                    + " l\nJOIN "@ + delta_right + " dr ON "@ + cond2
                    + "\nWHERE dr.__pgs_action = 'D'\n  AND (SELECT has_del FROM "@ + right_flags
                    + ")\n  AND NOT EXISTS (\n    SELECT 1 FROM "@ + right_table + " r WHERE "@
                    + cond_now + "\n"@,
            )
            &&& text::occurs(
                t,
                "AND EXISTS (\n    SELECT 1 FROM "@ + right_before + " __pgs_r_old WHERE "@
                    + cond_right_before + "\n"@,
            )
        }),
{
    reveal_strlit("\n");
    reveal_strlit("\n)");
    reveal_strlit("\nFROM ");
    reveal_strlit(" dr ON ");
    reveal_strlit(" l\nJOIN ");
    reveal_strlit(" r WHERE ");
    reveal_strlit(" __pgs_r_old WHERE ");
    reveal_strlit("AND EXISTS (\n    SELECT 1 FROM ");
    reveal_strlit("'I'::TEXT AS __pgs_action,\n       ");
    reveal_strlit("\n)\n  AND EXISTS (\n    SELECT 1 FROM ");
    reveal_strlit(")\n  AND NOT EXISTS (\n    SELECT 1 FROM ");
    reveal_strlit("\nWHERE dr.__pgs_action = 'D'\n  AND (SELECT has_del FROM ");
    reveal_strlit("-- Part 5: Insert NULL-padded left rows when left row loses all right matches\nSELECT 0::BIGINT AS __pgs_row_id,\n       'I'::TEXT AS __pgs_action,\n       ");
    let t = left_last_match_sql(
        left_padded,
        left_table,
        delta_right,
        cond2,
        right_flags,
        right_table,
        cond_now,
        right_before,
        cond_right_before,
    );
    let f0 = "'I'::TEXT AS __pgs_action,\n       "@ + left_padded + "\nFROM "@ + left_table
        + " l\nJOIN "@ + delta_right + " dr ON "@ + cond2
        + "\nWHERE dr.__pgs_action = 'D'\n  AND (SELECT has_del FROM "@ + right_flags
        + ")\n  AND NOT EXISTS (\n    SELECT 1 FROM "@ + right_table + " r WHERE "@ + cond_now
        + "\n"@;
    let k0 = 119int;
    assert(t.subrange(k0, k0 + f0.len()) =~= f0);
    assert(text::occurs_at(t, f0, k0));
    let f1 = "AND EXISTS (\n    SELECT 1 FROM "@ + right_before + " __pgs_r_old WHERE "@
        + cond_right_before + "\n"@;
    let k1 = 283int + left_padded.len() + left_table.len() + delta_right.len() + cond2.len()
        + right_flags.len() + right_table.len() + cond_now.len();
    assert(t.subrange(k1, k1 + f1.len()) =~= f1);
    assert(text::occurs_at(t, f1, k1));
}

/// A changed right row without a match comes out with its action and nulls.
pub proof fn right_changes_without_a_match_have_nulls(
    right_only: Seq<char>,
    delta_right: Seq<char>,
    left_table: Seq<char>,
    cond2: Seq<char>,
)
    ensures
        ({
            let t = right_unmatched_sql(right_only, delta_right, left_table, cond2);
            &&& text::occurs(
                t,
                "dr.__pgs_action,\n       "@ + right_only + "\nFROM "@ + delta_right
                    + " dr\nWHERE NOT EXISTS (\n    SELECT 1 FROM "@ + left_table + " l WHERE "@
                    + cond2 + "\n)"@,
            )
        }),
{
    reveal_strlit("\n)");
    reveal_strlit("\nFROM ");
    reveal_strlit(" l WHERE ");
    reveal_strlit("dr.__pgs_action,\n       ");
    reveal_strlit(" dr\nWHERE NOT EXISTS (\n    SELECT 1 FROM ");
    reveal_strlit("-- Part 6: delta_right anti-join left (non-matching right rows → NULL left cols)\nSELECT dr.__pgs_row_id,\n       dr.__pgs_action,\n       ");
    let t = right_unmatched_sql(right_only, delta_right, left_table, cond2);
    let f0 = "dr.__pgs_action,\n       "@ + right_only + "\nFROM "@ + delta_right
        + " dr\nWHERE NOT EXISTS (\n    SELECT 1 FROM "@ + left_table + " l WHERE "@ + cond2
        + "\n)"@;
    let k0 = 112int;
    assert(t.subrange(k0, k0 + f0.len()) =~= f0);
    assert(text::occurs_at(t, f0, k0));
}

/// A right row with nulls is deleted where a match was inserted and it had none
/// before.
pub proof fn right_rows_with_nulls_go_with_a_first_match(
    right_padded: Seq<char>,
    right_table: Seq<char>,
    delta_left: Seq<char>,
    cond1: Seq<char>,
    left_flags: Seq<char>,
    left_before: Seq<char>,
    cond_left_before: Seq<char>,
)
    ensures
        ({
            let t = right_first_match_sql(
                right_padded,
                right_table,
                delta_left,
                cond1,
                left_flags,
                left_before,
                cond_left_before,
            );
            &&& text::occurs(
                t,
                "'D'::TEXT AS __pgs_action,\n       "@ + right_padded + "\nFROM "@ + right_table
                    + " r\nJOIN "@ + delta_left + " dl ON "@ + cond1
                    + "\nWHERE dl.__pgs_action = 'I'\n  AND (SELECT has_ins FROM "@ + left_flags
                    + ")\n  AND NOT EXISTS (\n    SELECT 1 FROM "@ + left_before
                    + " __pgs_l_old WHERE "@ + cond_left_before + "\n"@,
            )
        }),
{
    reveal_strlit("\n");
    reveal_strlit("\n)");
    reveal_strlit("\nFROM ");
    reveal_strlit(" dl ON ");
    reveal_strlit(" r\nJOIN ");
    reveal_strlit(" __pgs_l_old WHERE ");
    reveal_strlit("'D'::TEXT AS __pgs_action,\n       ");
    reveal_strlit(")\n  AND NOT EXISTS (\n    SELECT 1 FROM ");
    reveal_strlit("\nWHERE dl.__pgs_action = 'I'\n  AND (SELECT has_ins FROM ");
    reveal_strlit("-- Part 7a: Delete stale NULL-padded right rows when new left matches appear\nSELECT 0::BIGINT AS __pgs_row_id,\n       'D'::TEXT AS __pgs_action,\n       ");
    let t = right_first_match_sql(
        right_padded,
        right_table,
        delta_left,
        cond1,
        left_flags,
        left_before,
        cond_left_before,
    );
    let f0 = "'D'::TEXT AS __pgs_action,\n       "@ + right_padded + "\nFROM "@ + right_table
        + " r\nJOIN "@ + delta_left + " dl ON "@ + cond1
        + "\nWHERE dl.__pgs_action = 'I'\n  AND (SELECT has_ins FROM "@ + left_flags
        + ")\n  AND NOT EXISTS (\n    SELECT 1 FROM "@ + left_before + " __pgs_l_old WHERE "@
        + cond_left_before + "\n"@;
    let k0 = 118int;
    assert(t.subrange(k0, k0 + f0.len()) =~= f0);
    assert(text::occurs_at(t, f0, k0));
}

/// A right row with nulls is inserted where a match was deleted, none is left
/// and it had one before.
pub proof fn right_rows_with_nulls_come_with_the_loss_of_the_last_match(
    right_padded: Seq<char>,
    right_table: Seq<char>,
    delta_left: Seq<char>,
    cond1: Seq<char>,
    left_flags: Seq<char>,
    left_table: Seq<char>,
    cond_now: Seq<char>,
    left_before: Seq<char>,
    cond_left_before: Seq<char>,
)
    ensures
        ({
            let t = right_last_match_sql(
                right_padded,
                right_table,
                delta_left,
                cond1,
                left_flags,
                left_table,
                cond_now,
                left_before,
                cond_left_before,
            );
            &&& text::occurs(
                t,
                "'I'::TEXT AS __pgs_action,\n       "@ + right_padded + "\nFROM "@ + right_table
                    + " r\nJOIN "@ + delta_left + " dl ON "@ + cond1
                    + "\nWHERE dl.__pgs_action = 'D'\n  AND (SELECT has_del FROM "@ + left_flags
                    + ")\n  AND NOT EXISTS (\n    SELECT 1 FROM "@ + left_table + " l WHERE "@
                    + cond_now + "\n"@,
            )
            &&& text::occurs(
                t,
                "AND EXISTS (\n    SELECT 1 FROM "@ + left_before + " __pgs_l_old WHERE "@
                    + cond_left_before + "\n"@,
            )
        }),
{
    reveal_strlit("\n");
    reveal_strlit("\n)");
    reveal_strlit("\nFROM ");
    reveal_strlit(" dl ON ");
    reveal_strlit(" r\nJOIN ");
    reveal_strlit(" l WHERE ");
    reveal_strlit(" __pgs_l_old WHERE ");
    reveal_strlit("AND EXISTS (\n    SELECT 1 FROM ");
    reveal_strlit("'I'::TEXT AS __pgs_action,\n       ");
    reveal_strlit("\n)\n  AND EXISTS (\n    SELECT 1 FROM ");
    reveal_strlit(")\n  AND NOT EXISTS (\n    SELECT 1 FROM ");
    reveal_strlit("\nWHERE dl.__pgs_action = 'D'\n  AND (SELECT has_del FROM ");
    reveal_strlit("-- Part 7b: Insert NULL-padded right rows when right row loses all left matches\nSELECT 0::BIGINT AS __pgs_row_id,\n       'I'::TEXT AS __pgs_action,\n       ");
    let t = right_last_match_sql(
        right_padded,
        right_table,
        delta_left,
        cond1,
        left_flags,
        left_table,
        cond_now,
        left_before,
        cond_left_before,
    );
    let f0 = "'I'::TEXT AS __pgs_action,\n       "@ + right_padded + "\nFROM "@ + right_table
        + " r\nJOIN "@ + delta_left + " dl ON "@ + cond1
        + "\nWHERE dl.__pgs_action = 'D'\n  AND (SELECT has_del FROM "@ + left_flags
        + ")\n  AND NOT EXISTS (\n    SELECT 1 FROM "@ + left_table + " l WHERE "@ + cond_now
        + "\n"@;
    let k0 = 121int;
    assert(t.subrange(k0, k0 + f0.len()) =~= f0);
    assert(text::occurs_at(t, f0, k0));
    let f1 = "AND EXISTS (\n    SELECT 1 FROM "@ + left_before + " __pgs_l_old WHERE "@
        + cond_left_before + "\n"@;
    let k1 = 285int + right_padded.len() + right_table.len() + delta_left.len() + cond1.len()
        + left_flags.len() + left_table.len() + cond_now.len();
    assert(t.subrange(k1, k1 + f1.len()) =~= f1);
    assert(text::occurs_at(t, f1, k1));
}

/// The delta of a full join has the parts of a left join and those for the
/// right side, each over the deltas and the current rows of the inputs that it
/// is for, with the condition of the join for the rows that it compares.
pub proof fn a_full_join_has_all_of_its_parts(
    condition: ExprView,
    left: OpTree,
    right: OpTree,
    l: Delta,
    r: Delta,
    left_flags: Seq<char>,
    right_flags: Seq<char>,
)
    ensures
        ({
            let la = left.spec_alias();
            let ra = right.spec_alias();
            let cols1 = text::join(
                diff::renamed("dl."@, l.columns, la) + diff::renamed("r."@, r.columns, ra),
                ", "@,
            );
            let delta_left = l.cte_name;
            let right_table = join_common::snapshot_sql(right);
            let cond1 = join_common::condition_sql(condition, left, "dl"@, right, "r"@);
            let cols2 = text::join(
                diff::renamed("l."@, l.columns, la) + diff::renamed("dr."@, r.columns, ra),
                ", "@,
            );
            let left_table = join_common::snapshot_sql(left);
            let delta_right = r.cte_name;
            let cond2 = join_common::condition_sql(condition, left, "l"@, right, "dr"@);
            let left_only = text::join(
                diff::renamed("dl."@, l.columns, la) + diff::nulls(r.columns, ra),
                ", "@,
            );
            let left_padded = text::join(
                diff::renamed("l."@, l.columns, la) + diff::nulls(r.columns, ra),
                ", "@,
            );
            let cond_now = join_common::condition_sql(condition, left, "l"@, right, "r"@);
            let right_only = text::join(
                diff::nulls(l.columns, la) + diff::renamed("dr."@, r.columns, ra),
                ", "@,
            );
            let right_padded = text::join(
                diff::nulls(l.columns, la) + diff::renamed("r."@, r.columns, ra),
                ", "@,
            );
            let right_before = rows_before_sql(
                diff::cols_text(diff::user_columns(r.columns)),
                join_common::snapshot_sql(right),
                sql_builder::ident_text(ra),
                r.cte_name,
            );
            let cond_right_before = join_common::condition_sql(
                condition,
                left,
                "l"@,
                right,
                "__pgs_r_old"@,
            );
            let left_before = rows_before_sql(
                diff::cols_text(diff::user_columns(l.columns)),
                join_common::snapshot_sql(left),
                sql_builder::ident_text(la),
                l.cte_name,
            );
            let cond_left_before = join_common::condition_sql(
                condition,
                left,
                "__pgs_l_old"@,
                right,
                "r"@,
            );
            let t = full_join_text(condition, left, right, l, r, left_flags, right_flags);
            &&& text::occurs(t, left_changes_sql(cols1, delta_left, right_table, cond1))
            &&& text::occurs(t, right_changes_sql(cols2, left_table, delta_right, cond2))
            &&& text::occurs(t, left_unmatched_sql(left_only, delta_left, right_table, cond1))
            &&& text::occurs(
                t,
                left_first_match_sql(
                    left_padded,
                    left_table,
                    delta_right,
                    cond2,
                    right_flags,
                    right_before,
                    cond_right_before,
                ),
            )
            &&& text::occurs(
                t,
                left_last_match_sql(
                    left_padded,
                    left_table,
                    delta_right,
                    cond2,
                    right_flags,
                    right_table,
                    cond_now,
                    right_before,
                    cond_right_before,
                ),
            )
            &&& text::occurs(t, right_unmatched_sql(right_only, delta_right, left_table, cond2))
            &&& text::occurs(
                t,
                right_first_match_sql(
                    right_padded,
                    right_table,
                    delta_left,
                    cond1,
                    left_flags,
                    left_before,
                    cond_left_before,
                ),
            )
            &&& text::occurs(
                t,
                right_last_match_sql(
                    right_padded,
                    right_table,
                    delta_left,
                    cond1,
                    left_flags,
                    left_table,
                    cond_now,
                    left_before,
                    cond_left_before,
                ),
            )
        }),
{
    reveal(full_join_text);
    let la = left.spec_alias();
    let ra = right.spec_alias();
    let cols1 = text::join(
        diff::renamed("dl."@, l.columns, la) + diff::renamed("r."@, r.columns, ra),
        ", "@,
    );
    let delta_left = l.cte_name;
    let right_table = join_common::snapshot_sql(right);
    let cond1 = join_common::condition_sql(condition, left, "dl"@, right, "r"@);
    let cols2 = text::join(
        diff::renamed("l."@, l.columns, la) + diff::renamed("dr."@, r.columns, ra),
        ", "@,
    );
    let left_table = join_common::snapshot_sql(left);
    let delta_right = r.cte_name;
    let cond2 = join_common::condition_sql(condition, left, "l"@, right, "dr"@);
    let left_only = text::join(
        diff::renamed("dl."@, l.columns, la) + diff::nulls(r.columns, ra),
        ", "@,
    );
    let left_padded = text::join(
        diff::renamed("l."@, l.columns, la) + diff::nulls(r.columns, ra),
        ", "@,
    );
    let cond_now = join_common::condition_sql(condition, left, "l"@, right, "r"@);
    let right_only = text::join(
        diff::nulls(l.columns, la) + diff::renamed("dr."@, r.columns, ra),
        ", "@,
    );
    let right_padded = text::join(
        diff::nulls(l.columns, la) + diff::renamed("r."@, r.columns, ra),
        ", "@,
    );
    let right_before = rows_before_sql(
        diff::cols_text(diff::user_columns(r.columns)),
        join_common::snapshot_sql(right),
        sql_builder::ident_text(ra),
        r.cte_name,
    );
    let cond_right_before = join_common::condition_sql(
        condition,
        left,
        "l"@,
        right,
        "__pgs_r_old"@,
    );
    let left_before = rows_before_sql(
        diff::cols_text(diff::user_columns(l.columns)),
        join_common::snapshot_sql(left),
        sql_builder::ident_text(la),
        l.cte_name,
    );
    let cond_left_before = join_common::condition_sql(condition, left, "__pgs_l_old"@, right, "r"@);
    crate::text_laws::lemma_eight_parts(
        left_changes_sql(cols1, delta_left, right_table, cond1),
        right_changes_sql(cols2, left_table, delta_right, cond2),
        left_unmatched_sql(left_only, delta_left, right_table, cond1),
        left_first_match_sql(
            left_padded,
            left_table,
            delta_right,
            cond2,
            right_flags,
            right_before,
            cond_right_before,
        ),
        left_last_match_sql(
            left_padded,
            left_table,
            delta_right,
            cond2,
            right_flags,
            right_table,
            cond_now,
            right_before,
            cond_right_before,
        ),
        right_unmatched_sql(right_only, delta_right, left_table, cond2),
        right_first_match_sql(
            right_padded,
            right_table,
            delta_left,
            cond1,
            left_flags,
            left_before,
            cond_left_before,
        ),
        right_last_match_sql(
            right_padded,
            right_table,
            delta_left,
            cond1,
            left_flags,
            left_table,
            cond_now,
            left_before,
            cond_left_before,
        ),
        "\n\nUNION ALL\n\n"@,
    );
}

// ── What the rows are ──────────────────────────────────────────────────

/// A joined row is identified by the changed left row and the right row.
pub proof fn left_changes_are_identified_by_both_rows(
    cols1: Seq<char>,
    delta_left: Seq<char>,
    right_table: Seq<char>,
    cond1: Seq<char>,
)
    ensures
        ({
            let t = left_changes_sql(cols1, delta_left, right_table, cond1);
            &&& text::occurs(
                t,
                "SELECT pgstream.pg_stream_hash_multi(ARRAY[dl.__pgs_row_id::TEXT, pgstream.pg_stream_hash(row_to_json(r)::text)::TEXT]) AS __pgs_row_id,"@,
            )
        }),
{
    reveal_strlit("\nFROM ");
    reveal_strlit(" r ON ");
    reveal_strlit(" dl\nJOIN ");
    reveal_strlit("SELECT pgstream.pg_stream_hash_multi(ARRAY[dl.__pgs_row_id::TEXT, pgstream.pg_stream_hash(row_to_json(r)::text)::TEXT]) AS __pgs_row_id,");
    reveal_strlit("-- Part 1: delta_left JOIN current_right (matching rows)\nSELECT pgstream.pg_stream_hash_multi(ARRAY[dl.__pgs_row_id::TEXT, pgstream.pg_stream_hash(row_to_json(r)::text)::TEXT]) AS __pgs_row_id,\n       dl.__pgs_action,\n       ");
    let t = left_changes_sql(cols1, delta_left, right_table, cond1);
    let f0 = "SELECT pgstream.pg_stream_hash_multi(ARRAY[dl.__pgs_row_id::TEXT, pgstream.pg_stream_hash(row_to_json(r)::text)::TEXT]) AS __pgs_row_id,"@;
    let k0 = 57int;
    assert(t.subrange(k0, k0 + f0.len()) =~= f0);
    assert(text::occurs_at(t, f0, k0));
}

/// A joined row is identified by the left row and the changed right row.
pub proof fn right_changes_are_identified_by_both_rows(
    cols2: Seq<char>,
    left_table: Seq<char>,
    delta_right: Seq<char>,
    cond2: Seq<char>,
)
    ensures
        ({
            let t = right_changes_sql(cols2, left_table, delta_right, cond2);
            &&& text::occurs(
                t,
                "SELECT pgstream.pg_stream_hash_multi(ARRAY[pgstream.pg_stream_hash(row_to_json(l)::text)::TEXT, dr.__pgs_row_id::TEXT]) AS __pgs_row_id,"@,
            )
        }),
{
    reveal_strlit("\nFROM ");
    reveal_strlit(" dr ON ");
    reveal_strlit(" l\nJOIN ");
    reveal_strlit("SELECT pgstream.pg_stream_hash_multi(ARRAY[pgstream.pg_stream_hash(row_to_json(l)::text)::TEXT, dr.__pgs_row_id::TEXT]) AS __pgs_row_id,");
    reveal_strlit("-- Part 2: current_left JOIN delta_right\nSELECT pgstream.pg_stream_hash_multi(ARRAY[pgstream.pg_stream_hash(row_to_json(l)::text)::TEXT, dr.__pgs_row_id::TEXT]) AS __pgs_row_id,\n       dr.__pgs_action,\n       ");
    let t = right_changes_sql(cols2, left_table, delta_right, cond2);
    let f0 = "SELECT pgstream.pg_stream_hash_multi(ARRAY[pgstream.pg_stream_hash(row_to_json(l)::text)::TEXT, dr.__pgs_row_id::TEXT]) AS __pgs_row_id,"@;
    let k0 = 41int;
    assert(t.subrange(k0, k0 + f0.len()) =~= f0);
    assert(text::occurs_at(t, f0, k0));
}

/// A changed left row without a match keeps its identifier.
pub proof fn unmatched_left_rows_keep_their_identifier(
    left_only: Seq<char>,
    delta_left: Seq<char>,
    right_table: Seq<char>,
    cond1: Seq<char>,
)
    ensures
        ({
            let t = left_unmatched_sql(left_only, delta_left, right_table, cond1);
            &&& text::occurs(
                t,
                "SELECT dl.__pgs_row_id,"@,
            )
        }),
{
    reveal_strlit("\n)");
    reveal_strlit("\nFROM ");
    reveal_strlit(" r WHERE ");
    reveal_strlit("SELECT dl.__pgs_row_id,");
    reveal_strlit(" dl\nWHERE NOT EXISTS (\n    SELECT 1 FROM ");
    reveal_strlit("-- Part 3: delta_left anti-join right (non-matching left rows → NULL right cols)\nSELECT dl.__pgs_row_id,\n       dl.__pgs_action,\n       ");
    let t = left_unmatched_sql(left_only, delta_left, right_table, cond1);
    let f0 = "SELECT dl.__pgs_row_id,"@;
    let k0 = 81int;
    assert(t.subrange(k0, k0 + f0.len()) =~= f0);
    assert(text::occurs_at(t, f0, k0));
}

/// A changed right row without a match keeps its identifier.
pub proof fn unmatched_right_rows_keep_their_identifier(
    right_only: Seq<char>,
    delta_right: Seq<char>,
    left_table: Seq<char>,
    cond2: Seq<char>,
)
    ensures
        ({
            let t = right_unmatched_sql(right_only, delta_right, left_table, cond2);
            &&& text::occurs(
                t,
                "SELECT dr.__pgs_row_id,"@,
            )
        }),
{
    reveal_strlit("\n)");
    reveal_strlit("\nFROM ");
    reveal_strlit(" l WHERE ");
    reveal_strlit("SELECT dr.__pgs_row_id,");
    reveal_strlit(" dr\nWHERE NOT EXISTS (\n    SELECT 1 FROM ");
    reveal_strlit("-- Part 6: delta_right anti-join left (non-matching right rows → NULL left cols)\nSELECT dr.__pgs_row_id,\n       dr.__pgs_action,\n       ");
    let t = right_unmatched_sql(right_only, delta_right, left_table, cond2);
    let f0 = "SELECT dr.__pgs_row_id,"@;
    let k0 = 81int;
    assert(t.subrange(k0, k0 + f0.len()) =~= f0);
    assert(text::occurs_at(t, f0, k0));
}

} // verus!
