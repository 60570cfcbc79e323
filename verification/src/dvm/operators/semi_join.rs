//! Semi-joins (`EXISTS` and `IN` subqueries).
//!
//! The delta has two parts.  Changed left rows with a match: in the current
//! right rows for an insert, in the right rows before the changes for a
//! delete.  And left rows that match a changed right row and whose having a
//! match at all changed with it.
//!
//! The right rows before the changes are the current ones without the rows
//! inserted and with the rows deleted, computed once.  In the second part the
//! left rows are restricted to those whose keys occur in the right delta.

use vstd::prelude::*;
use vstd::string::*;

use crate::dvm::diff;
use crate::dvm::diff::{col_list, quote_ident, without_count, wrap_cols};
use crate::dvm::diff::{CteKind, Delta, DiffContext, DiffEnv, DiffResult, DiffState, Outcome};
use crate::dvm::engine;
use crate::dvm::operators::join_common;
use crate::dvm::operators::join_common::{build_snapshot_sql, build_status_part, exists_query};
use crate::dvm::operators::join_common::{extract_equijoin_keys_aliased, rewrite_join_condition};
use crate::dvm::operators::join_common::{KeyTexts, Sides, StatusPart};
use crate::dvm::parser::{Expr, ExprView, OpTree};
use crate::error::{ErrorView, PgTrickleError};
use crate::sql_builder;
use crate::text;
use crate::text::{contains, join_texts, starts_with};

verus! {

// ── Keys of the right delta ────────────────────────────────────────────

/// Whether the left side of an equality names the left rows, and the right
/// side the right delta.
pub open spec fn is_clean(key: (Seq<char>, Seq<char>)) -> bool {
    text::occurs(key.0, "__pgt_pre"@) && text::begins(key.1, "dr."@)
}

/// The equalities whose sides name the left rows and the right delta.
pub open spec fn clean_keys(keys: KeyTexts) -> KeyTexts
    decreases keys.len(),
{
    if keys.len() == 0 {
        Seq::empty()
    } else if is_clean(keys.last()) {
        clean_keys(keys.drop_last()).push(keys.last())
    } else {
        clean_keys(keys.drop_last())
    }
}

/// A key of a left row among those of the right delta.
pub open spec fn delta_key_sql(key: Seq<char>, other: Seq<char>, delta: Seq<char>) -> Seq<char> {
    key + " IN (SELECT DISTINCT "@ + other + " FROM "@ + delta + " dr)"@
}

/// A key of a left row among those of the right delta.
fn delta_key_query(key: &str, other: &str, delta: &str) -> (r: String)
    ensures
        r@ == delta_key_sql(key@, other@, delta@),
{
    let mut r = key.to_string();
    r.append(" IN (SELECT DISTINCT ");
    r.append(other);
    r.append(" FROM ");
    r.append(delta);
    r.append(" dr)");
    r
}

/// The left rows restricted by filters.
pub open spec fn restricted_left_sql(snapshot: Seq<char>, filters: Seq<char>) -> Seq<char> {
    "(SELECT * FROM "@ + snapshot + " \"__pgt_pre\" WHERE "@ + filters + ")"@
}

/// The left rows restricted by filters.
fn restricted_left_query(snapshot: &str, filters: &str) -> (r: String)
    ensures
        r@ == restricted_left_sql(snapshot@, filters@),
{
    let mut r = "(SELECT * FROM ".to_string();
    r.append(snapshot);
    r.append(" \"__pgt_pre\" WHERE ");
    r.append(filters);
    r.append(")");
    r
}

/// The filters of equalities.
pub open spec fn delta_keys(keys: KeyTexts, delta: Seq<char>) -> Seq<Seq<char>> {
    Seq::new(keys.len(), |i: int| delta_key_sql(keys[i].0, keys[i].1, delta))
}

/// The left rows that a change on the right can concern.
pub open spec fn left_rows(snapshot: Seq<char>, keys: KeyTexts, delta: Seq<char>) -> Seq<char> {
    if keys.len() == 0 {
        snapshot
    } else {
        restricted_left_sql(snapshot, text::join(delta_keys(keys, delta), " AND "@))
    }
}

/// The filters of those equalities whose sides name the left rows and the
/// right delta.
fn build_delta_keys(keys: &Vec<(String, String)>, delta: &str) -> (r: Vec<String>)
    ensures
        text::texts(r@) == delta_keys(clean_keys(join_common::key_texts(keys@)), delta@),
{
    let ghost all = join_common::key_texts(keys@);
    let mut r: Vec<String> = Vec::new();
    let mut i: usize = 0;
    assert(text::texts(r@) =~= delta_keys(clean_keys(all.take(0)), delta@));
    while i < keys.len()
        invariant
            i <= keys.len(),
            all == join_common::key_texts(keys@),
            text::texts(r@) == delta_keys(clean_keys(all.take(i as int)), delta@),
        decreases keys.len() - i,
    {
        let ghost before = clean_keys(all.take(i as int));
        proof {
            assert(all.take(i + 1).drop_last() =~= all.take(i as int));
            assert(all.take(i + 1).last() == all[i as int]);
        }
        if contains(keys[i].0.as_str(), "__pgt_pre") && starts_with(keys[i].1.as_str(), "dr.") {
            let ghost so_far = r@;
            r.push(delta_key_query(keys[i].0.as_str(), keys[i].1.as_str(), delta));
            proof {
                let key = all[i as int];
                assert(text::texts(r@) =~= text::texts(so_far).push(
                    delta_key_sql(key.0, key.1, delta@),
                ));
                assert(delta_keys(before.push(key), delta@) =~= delta_keys(before, delta@).push(
                    delta_key_sql(key.0, key.1, delta@),
                ));
            }
        }
        i += 1;
    }
    assert(all.take(all.len() as int) =~= all);
    r
}

/// The left rows that a change on the right can concern.
fn build_left_rows(snapshot: String, keys: &Vec<(String, String)>, delta: &str) -> (r: String)
    ensures
        r@ == left_rows(snapshot@, clean_keys(join_common::key_texts(keys@)), delta@),
{
    let filters = build_delta_keys(keys, delta);
    assert(text::texts(filters@).len() == clean_keys(join_common::key_texts(keys@)).len());
    if filters.len() == 0 {
        snapshot
    } else {
        restricted_left_query(snapshot.as_str(), join_texts(&filters, " AND ").as_str())
    }
}

// ── Queries ────────────────────────────────────────────────────────────

/// The right rows before the changes.
pub open spec fn right_old_sql(
    cols: Seq<char>,
    table: Seq<char>,
    alias: Seq<char>,
    delta: Seq<char>,
) -> Seq<char> {
    "SELECT "@ + cols + " FROM "@ + table + " "@ + alias + " EXCEPT ALL SELECT "@ + cols
        + " FROM "@ + delta + " WHERE __pgt_action = 'I' UNION ALL SELECT "@ + cols + " FROM "@
        + delta + " WHERE __pgt_action = 'D'"@
}

/// The right rows before the changes.
fn right_old_query(cols: &str, table: &str, alias: &str, delta: &str) -> (r: String)
    ensures
        r@ == right_old_sql(cols@, table@, alias@, delta@),
{
    let mut r = "SELECT ".to_string();
    r.append(cols);
    r.append(" FROM ");
    r.append(table);
    r.append(" ");
    r.append(alias);
    r.append(" EXCEPT ALL SELECT ");
    r.append(cols);
    r.append(" FROM ");
    r.append(delta);
    r.append(" WHERE __pgt_action = 'I' UNION ALL SELECT ");
    r.append(cols);
    r.append(" FROM ");
    r.append(delta);
    r.append(" WHERE __pgt_action = 'D'");
    r
}

/// The identifier of a left row.
pub open spec fn left_hash_sql(args: Seq<char>) -> Seq<char> {
    "pgtrickle.pg_trickle_hash_multi(ARRAY["@ + args + "])"@
}

/// The identifier of a left row.
fn left_hash_query(args: &str) -> (r: String)
    ensures
        r@ == left_hash_sql(args@),
{
    let mut r = "pgtrickle.pg_trickle_hash_multi(ARRAY[".to_string();
    r.append(args);
    r.append("])");
    r
}

/// The changed left rows with a match.
pub open spec fn semi_left_sql(
    dl_cols: Seq<char>,
    delta_left: Seq<char>,
    before: Seq<char>,
    now: Seq<char>,
) -> Seq<char> {
    "-- Part 1: delta_left rows that match right (semi-join filter)\n\
        -- INSERT: new left row has match in R_current  → emit INSERT\n\
        -- DELETE: old left row had match in R_old      → emit DELETE\n\
        -- For INSERTs we check the live right table (post-change state).\n\
        -- For DELETEs we check R_old (pre-change state) because the matching\n\
        -- right rows may also have been deleted in the same mutation cycle\n\
        -- (e.g. RF2 deletes both orders AND their lineitems simultaneously).\n\
        SELECT dl.__pgt_row_id AS __pgt_row_id,\n       \
        dl.__pgt_action,\n       "@ + dl_cols + "\n\
        FROM "@ + delta_left + " dl\n\
        WHERE CASE WHEN dl.__pgt_action = 'D'\n           \
        THEN "@ + before + "\n           \
        ELSE "@ + now + "\n      \
        END"@
}

/// The changed left rows with a match.
fn semi_left_query(dl_cols: &str, delta_left: &str, before: &str, now: &str) -> (r: String)
    ensures
        r@ == semi_left_sql(dl_cols@, delta_left@, before@, now@),
{
    let mut r = "-- Part 1: delta_left rows that match right (semi-join filter)\n\
        -- INSERT: new left row has match in R_current  → emit INSERT\n\
        -- DELETE: old left row had match in R_old      → emit DELETE\n\
        -- For INSERTs we check the live right table (post-change state).\n\
        -- For DELETEs we check R_old (pre-change state) because the matching\n\
        -- right rows may also have been deleted in the same mutation cycle\n\
        -- (e.g. RF2 deletes both orders AND their lineitems simultaneously).\n\
        SELECT dl.__pgt_row_id AS __pgt_row_id,\n       \
        dl.__pgt_action,\n       ".to_string();
    r.append(dl_cols);
    r.append("\n\
        FROM ");
    r.append(delta_left);
    r.append(" dl\n\
        WHERE CASE WHEN dl.__pgt_action = 'D'\n           \
        THEN ");
    r.append(before);
    r.append("\n           \
        ELSE ");
    r.append(now);
    r.append("\n      \
        END");
    r
}

/// The delta of a semi-join: changed left rows, and left rows whose match
/// changed.
pub open spec fn semi_join_sql(left_part: Seq<char>, status_part: Seq<char>) -> Seq<char> {
    left_part + "\n\n\
        UNION ALL\n\n\
        -- Part 2: left rows whose semi-join status changed due to right-side delta\n\
        -- Emit 'I' if row now matches R_current but didn't match R_old\n\
        -- Emit 'D' if row matched R_old but no longer matches R_current\n\
        -- Left snapshot is pre-filtered by delta-right join keys for performance.\n"@ + status_part
}

/// The delta of a semi-join.
fn semi_join_query(left_part: &str, status_part: &str) -> (r: String)
    ensures
        r@ == semi_join_sql(left_part@, status_part@),
{
    let mut r = left_part.to_string();
    r.append("\n\n\
        UNION ALL\n\n\
        -- Part 2: left rows whose semi-join status changed due to right-side delta\n\
        -- Emit 'I' if row now matches R_current but didn't match R_old\n\
        -- Emit 'D' if row matched R_old but no longer matches R_current\n\
        -- Left snapshot is pre-filtered by delta-right join keys for performance.\n");
    r.append(status_part);
    r
}

// ── Differentiation ────────────────────────────────────────────────────

/// The query of the right rows before the changes.
pub open spec fn right_old_text(right: OpTree, r: Delta) -> Seq<char> {
    right_old_sql(
        diff::cols_text(diff::user_columns(r.columns)),
        join_common::snapshot_sql(right),
        sql_builder::ident_text(right.spec_alias()),
        r.cte_name,
    )
}

/// The changed left rows of a semi-join with a match.
pub open spec fn semi_left(
    condition: ExprView,
    left: OpTree,
    right: OpTree,
    l: Delta,
    r_old: Seq<char>,
) -> Seq<char> {
    semi_left_sql(
        text::join(diff::wrapped("dl."@, l.columns, ""@), ", "@),
        l.cte_name,
        join_common::exists_sql(
            r_old,
            "r_old"@,
            join_common::condition_sql(condition, left, "dl"@, right, "r_old"@),
        ),
        join_common::exists_sql(
            join_common::snapshot_sql(right),
            "r"@,
            join_common::condition_sql(condition, left, "dl"@, right, "r"@),
        ),
    )
}

/// The left rows of a semi-join whose match changed.
pub open spec fn semi_status(
    condition: ExprView,
    left: OpTree,
    right: OpTree,
    l: Delta,
    r: Delta,
    r_old: Seq<char>,
) -> StatusPart {
    let keys = clean_keys(
        join_common::aliased_keys(
            condition,
            Sides { left, new_left: "__pgt_pre"@, right, new_right: "dr"@ },
        ),
    );
    StatusPart {
        negated: false,
        row_id: "__pgt_row_id"@,
        action: "__pgt_action"@,
        hash: left_hash_sql(text::join(diff::wrapped("l."@, l.columns, "::TEXT"@), ", "@)),
        now: join_common::exists_sql(
            join_common::snapshot_sql(right),
            "r"@,
            join_common::condition_sql(condition, left, "l"@, right, "r"@),
        ),
        cols: text::join(diff::wrapped("l."@, l.columns, ""@), ", "@),
        left: left_rows(join_common::snapshot_sql(left), keys, r.cte_name),
        touched: join_common::exists_sql(
            r.cte_name,
            "dr"@,
            join_common::condition_sql(condition, left, "l"@, right, "dr"@),
        ),
        before: join_common::exists_sql(
            r_old,
            "r_old"@,
            join_common::condition_sql(condition, left, "l"@, right, "r_old"@),
        ),
    }
}

/// The query of a semi-join over the deltas of its inputs.
#[verifier::opaque]
pub open spec fn semi_join_text(
    condition: ExprView,
    left: OpTree,
    right: OpTree,
    l: Delta,
    r: Delta,
    r_old: Seq<char>,
) -> Seq<char> {
    semi_join_sql(
        semi_left(condition, left, right, l, r_old),
        semi_status(condition, left, right, l, r, r_old).text(),
    )
}

/// The outcome of a semi-join over the deltas of its inputs.
pub open spec fn semi_join_outcome(
    st: DiffState,
    condition: ExprView,
    left: OpTree,
    right: OpTree,
    l: Delta,
    r: Delta,
) -> Outcome {
    let r_old = st.fresh("r_old"@);
    let st1 = st.bumped().with_cte(r_old, right_old_text(right, r), CteKind::Materialized);
    (
        st1.step("semi_join"@, semi_join_text(condition, left, right, l, r, r_old)),
        Ok(
            Delta {
                cte_name: st1.fresh("semi_join"@),
                columns: l.columns,
                is_deduplicated: false,
            },
        ),
    )
}

/// The outcome of differentiating an operator as a semi-join.
pub open spec fn semi_join_diff(env: DiffEnv, st: DiffState, op: OpTree) -> Outcome
    decreases env.cte_registry.depth(op), op, 0nat,
{
    match op {
        OpTree::SemiJoin { condition, left, right } => match engine::tree_diff(
            env,
            DiffState { inside_semijoin: true, ..st },
            *left,
        ) {
            (st1, Ok(l)) => match engine::tree_diff(env, st1, *right) {
                (st2, Ok(r)) => semi_join_outcome(
                    DiffState { inside_semijoin: st.inside_semijoin, ..st2 },
                    condition@,
                    *left,
                    *right,
                    l,
                    r,
                ),
                (st2, Err(e)) => (st2, Err(e)),
            },
            (st1, Err(e)) => (st1, Err(e)),
        },
        _ => (st, Err(ErrorView::InternalError("diff_semi_join called on non-SemiJoin node"@))),
    }
}

/// The query of a semi-join over the deltas of its inputs.
fn build_semi_join(
    condition: &Expr,
    left: &OpTree,
    right: &OpTree,
    l: &DiffResult,
    r: &DiffResult,
    r_old: &str,
) -> (s: String)
    ensures
        s@ == semi_join_text(condition@, *left, *right, l@, r@, r_old@),
{
    proof {
        reveal(semi_join_text);
    }
    let keys = extract_equijoin_keys_aliased(condition, left, "__pgt_pre", right, "dr");
    let rows = build_left_rows(build_snapshot_sql(left), &keys, r.cte_name.as_str());
    let hash = left_hash_query(join_texts(&wrap_cols("l.", &l.columns, "::TEXT"), ", ").as_str());
    let right_table = build_snapshot_sql(right);
    let dl_before = exists_query(
        r_old,
        "r_old",
        rewrite_join_condition(condition, left, "dl", right, "r_old").as_str(),
    );
    let dl_now = exists_query(
        right_table.as_str(),
        "r",
        rewrite_join_condition(condition, left, "dl", right, "r").as_str(),
    );
    let now = exists_query(
        right_table.as_str(),
        "r",
        rewrite_join_condition(condition, left, "l", right, "r").as_str(),
    );
    let touched = exists_query(
        r.cte_name.as_str(),
        "dr",
        rewrite_join_condition(condition, left, "l", right, "dr").as_str(),
    );
    let before = exists_query(
        r_old,
        "r_old",
        rewrite_join_condition(condition, left, "l", right, "r_old").as_str(),
    );
    let left_part = semi_left_query(
        join_texts(&wrap_cols("dl.", &l.columns, ""), ", ").as_str(),
        l.cte_name.as_str(),
        dl_before.as_str(),
        dl_now.as_str(),
    );
    let status_part = build_status_part(
        false,
        "__pgt_row_id",
        "__pgt_action",
        hash.as_str(),
        now.as_str(),
        join_texts(&wrap_cols("l.", &l.columns, ""), ", ").as_str(),
        rows.as_str(),
        touched.as_str(),
        before.as_str(),
    );
    semi_join_query(left_part.as_str(), status_part.as_str())
}

/// Adds a semi-join over the deltas of its inputs to the chain.
fn add_semi_join(
    ctx: &mut DiffContext,
    condition: &Expr,
    left: &OpTree,
    right: &OpTree,
    l: DiffResult,
    r: DiffResult,
) -> (d: DiffResult)
    ensures
        final(ctx).env() == old(ctx).env(),
        diff::yields(*final(ctx), Ok(d), semi_join_outcome(
            old(ctx).state(),
            condition@,
            *left,
            *right,
            l@,
            r@,
        )),
{
    let r_old = ctx.next_cte_name("r_old");
    let r_old_sql = right_old_query(
        col_list(without_count(&r.columns).as_slice()).as_str(),
        build_snapshot_sql(right).as_str(),
        quote_ident(right.alias()).as_str(),
        r.cte_name.as_str(),
    );
    ctx.add_materialized_cte(r_old.clone(), r_old_sql);
    let sql = build_semi_join(condition, left, right, &l, &r, r_old.as_str());
    let cte_name = ctx.next_cte_name("semi_join");
    ctx.add_cte(cte_name.clone(), sql);
    DiffResult { cte_name, columns: l.columns, is_deduplicated: false }
}

/// Differentiates a semi-join.
///
/// Below a semi-join the context is marked as such; the mark is taken back
/// once both inputs are differentiated.
pub fn diff_semi_join(ctx: &mut DiffContext, op: &OpTree) -> (r: Result<
    DiffResult,
    PgTrickleError,
>)
    requires
        old(ctx).env().cte_registry.acyclic(),
    ensures
        final(ctx).env() == old(ctx).env(),
        diff::yields(
            *final(ctx),
            r,
            semi_join_diff(old(ctx).env(), old(ctx).state(), *op),
        ),
    decreases old(ctx).env().cte_registry.depth(*op), op, 0nat,
{
    match op {
        OpTree::SemiJoin { condition, left, right } => {
            let saved = ctx.inside_semijoin;
            ctx.inside_semijoin = true;
            assert(ctx.state() == (DiffState { inside_semijoin: true, ..old(ctx).state() }));
            assert(ctx.env() == old(ctx).env());
            let l = match ctx.diff_node(left) {
                Ok(d) => d,
                Err(e) => {
                    return Err(e);
                },
            };
            let r = match ctx.diff_node(right) {
                Ok(d) => d,
                Err(e) => {
                    return Err(e);
                },
            };
            let ghost st2 = ctx.state();
            ctx.inside_semijoin = saved;
            assert(ctx.state() == (DiffState { inside_semijoin: saved, ..st2 }));
            assert(ctx.env() == old(ctx).env());
            Ok(add_semi_join(ctx, condition, left, right, l, r))
        },
        _ => Err(
            PgTrickleError::InternalError("diff_semi_join called on non-SemiJoin node".to_string()),
        ),
    }
}

// ── What the queries say ───────────────────────────────────────────────

/// A key of a left row is looked up among those of the right delta.
pub proof fn left_keys_are_looked_up_in_the_right_delta(
    key: Seq<char>,
    other: Seq<char>,
    delta: Seq<char>,
)
    ensures
        ({
            let t = delta_key_sql(key, other, delta);
            &&& text::occurs(
                t,
                key + " IN (SELECT DISTINCT "@ + other + " FROM "@ + delta + " dr)"@,
            )
        }),
{
    reveal_strlit(" dr)");
    reveal_strlit(" FROM ");
    reveal_strlit(" IN (SELECT DISTINCT ");
    let t = delta_key_sql(key, other, delta);
    let f0 = key + " IN (SELECT DISTINCT "@ + other + " FROM "@ + delta + " dr)"@;
    let k0 = 0int;
    assert(t.subrange(k0, k0 + f0.len()) =~= f0);
    assert(text::occurs_at(t, f0, k0));
}

/// The left rows are restricted by the filters.
pub proof fn left_rows_are_restricted_by_filters(
    snapshot: Seq<char>,
    filters: Seq<char>,
)
    ensures
        ({
            let t = restricted_left_sql(snapshot, filters);
            &&& text::occurs(
                t,
                "FROM "@ + snapshot + " \"__pgt_pre\" WHERE "@ + filters + ")"@,
            )
        }),
{
    reveal_strlit(")");
    reveal_strlit("FROM ");
    reveal_strlit("(SELECT * FROM ");
    reveal_strlit(" \"__pgt_pre\" WHERE ");
    let t = restricted_left_sql(snapshot, filters);
    let f0 = "FROM "@ + snapshot + " \"__pgt_pre\" WHERE "@ + filters + ")"@;
    let k0 = 10int;
    assert(t.subrange(k0, k0 + f0.len()) =~= f0);
    assert(text::occurs_at(t, f0, k0));
}

/// The right rows before the changes are the current ones without those
/// inserted and with those deleted.
pub proof fn right_rows_before_are_current_ones_without_the_changes(
    cols: Seq<char>,
    table: Seq<char>,
    alias: Seq<char>,
    delta: Seq<char>,
)
    ensures
        ({
            let t = right_old_sql(cols, table, alias, delta);
            &&& text::occurs(
                t,
                "FROM "@ + table + " "@ + alias + " EXCEPT ALL SELECT "@ + cols + " FROM "@ + delta
                    + " WHERE __pgt_action = 'I' UNION ALL SELECT "@ + cols + " FROM "@ + delta
                    + " WHERE __pgt_action = 'D'"@,
            )
        }),
{
    reveal_strlit(" ");
    reveal_strlit("FROM ");
    reveal_strlit(" FROM ");
    reveal_strlit("SELECT ");
    reveal_strlit(" EXCEPT ALL SELECT ");
    reveal_strlit(" WHERE __pgt_action = 'D'");
    reveal_strlit(" WHERE __pgt_action = 'I' UNION ALL SELECT ");
    let t = right_old_sql(cols, table, alias, delta);
    let f0 = "FROM "@ + table + " "@ + alias + " EXCEPT ALL SELECT "@ + cols + " FROM "@ + delta
        + " WHERE __pgt_action = 'I' UNION ALL SELECT "@ + cols + " FROM "@ + delta
        + " WHERE __pgt_action = 'D'"@;
    let k0 = 8int + cols.len();
    assert(t.subrange(k0, k0 + f0.len()) =~= f0);
    assert(text::occurs_at(t, f0, k0));
}

/// A changed left row comes out if it has a match: a deleted one in the right
/// rows before the changes, another in the current ones.
pub proof fn changed_left_rows_need_a_match(
    dl_cols: Seq<char>,
    delta_left: Seq<char>,
    before: Seq<char>,
    now: Seq<char>,
)
    ensures
        ({
            let t = semi_left_sql(dl_cols, delta_left, before, now);
            &&& text::occurs(
                t,
                "dl.__pgt_action,\n       "@ + dl_cols + "\nFROM "@ + delta_left
                    + " dl\nWHERE CASE WHEN dl.__pgt_action = 'D'\n           THEN "@ + before
                    + "\n           ELSE "@ + now + "\n      END"@,
            )
        }),
{
    reveal_strlit("\nFROM ");
    reveal_strlit("\n      END");
    reveal_strlit("\n           ELSE ");
    reveal_strlit("dl.__pgt_action,\n       ");
    reveal_strlit(" dl\nWHERE CASE WHEN dl.__pgt_action = 'D'\n           THEN ");
    reveal_strlit("-- Part 1: delta_left rows that match right (semi-join filter)\n-- INSERT: new left row has match in R_current  → emit INSERT\n-- DELETE: old left row had match in R_old      → emit DELETE\n-- For INSERTs we check the live right table (post-change state).\n-- For DELETEs we check R_old (pre-change state) because the matching\n-- right rows may also have been deleted in the same mutation cycle\n-- (e.g. RF2 deletes both orders AND their lineitems simultaneously).\nSELECT dl.__pgt_row_id AS __pgt_row_id,\n       dl.__pgt_action,\n       ");
    let t = semi_left_sql(dl_cols, delta_left, before, now);
    let f0 = "dl.__pgt_action,\n       "@ + dl_cols + "\nFROM "@ + delta_left
        + " dl\nWHERE CASE WHEN dl.__pgt_action = 'D'\n           THEN "@ + before
        + "\n           ELSE "@ + now + "\n      END"@;
    let k0 = 508int;
    assert(t.subrange(k0, k0 + f0.len()) =~= f0);
    assert(text::occurs_at(t, f0, k0));
}

/// Both parts are taken together.
pub proof fn both_parts_of_a_semi_join_are_taken_together(
    left_part: Seq<char>,
    status_part: Seq<char>,
)
    ensures
        ({
            let t = semi_join_sql(left_part, status_part);
            &&& text::occurs(
                t,
                left_part + "\n\nUNION ALL"@,
            )
            &&& text::occurs(
                t,
                status_part,
            )
        }),
{
    reveal_strlit("\n\nUNION ALL");
    reveal_strlit("\n\nUNION ALL\n\n-- Part 2: left rows whose semi-join status changed due to right-side delta\n-- Emit 'I' if row now matches R_current but didn't match R_old\n-- Emit 'D' if row matched R_old but no longer matches R_current\n-- Left snapshot is pre-filtered by delta-right join keys for performance.\n");
    let t = semi_join_sql(left_part, status_part);
    let f0 = left_part + "\n\nUNION ALL"@;
    let k0 = 0int;
    assert(t.subrange(k0, k0 + f0.len()) =~= f0);
    assert(text::occurs_at(t, f0, k0));
    let f1 = status_part;
    let k1 = 293int + left_part.len();
    assert(t.subrange(k1, k1 + f1.len()) =~= f1);
    assert(text::occurs_at(t, f1, k1));
}

// ── What the rows are ──────────────────────────────────────────────────

/// A changed left row keeps its identifier and its action.
pub proof fn changed_left_rows_keep_their_identifier(
    dl_cols: Seq<char>,
    delta_left: Seq<char>,
    before: Seq<char>,
    now: Seq<char>,
)
    ensures
        ({
            let t = semi_left_sql(dl_cols, delta_left, before, now);
            &&& text::occurs(
                t,
                "SELECT dl.__pgt_row_id AS __pgt_row_id,\n       dl.__pgt_action,\n"@,
            )
        }),
{
    reveal_strlit("\nFROM ");
    reveal_strlit("\n      END");
    reveal_strlit("\n           ELSE ");
    reveal_strlit(" dl\nWHERE CASE WHEN dl.__pgt_action = 'D'\n           THEN ");
    reveal_strlit("SELECT dl.__pgt_row_id AS __pgt_row_id,\n       dl.__pgt_action,\n");
    reveal_strlit("-- Part 1: delta_left rows that match right (semi-join filter)\n-- INSERT: new left row has match in R_current  → emit INSERT\n-- DELETE: old left row had match in R_old      → emit DELETE\n-- For INSERTs we check the live right table (post-change state).\n-- For DELETEs we check R_old (pre-change state) because the matching\n-- right rows may also have been deleted in the same mutation cycle\n-- (e.g. RF2 deletes both orders AND their lineitems simultaneously).\nSELECT dl.__pgt_row_id AS __pgt_row_id,\n       dl.__pgt_action,\n       ");
    let t = semi_left_sql(dl_cols, delta_left, before, now);
    let f0 = "SELECT dl.__pgt_row_id AS __pgt_row_id,\n       dl.__pgt_action,\n"@;
    let k0 = 461int;
    assert(t.subrange(k0, k0 + f0.len()) =~= f0);
    assert(text::occurs_at(t, f0, k0));
}

} // verus!
