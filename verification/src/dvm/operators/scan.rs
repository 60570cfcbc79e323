//! Base table scans.
//!
//! The delta of a scan reads the change buffer of its table once.  The buffer
//! has, per change, the action (`I`, `U` or `D`), a hash of the key and the
//! typed columns `new_<col>` and `old_<col>`.
//!
//! Changes are reduced to their net effect per key.  Keys with one change go
//! through a path without window functions; keys with more get their first and
//! last action from window functions.  A delete is emitted where the row
//! existed before the interval, an insert where it exists after it, so an
//! update gives both and an insert followed by a delete gives nothing.  With
//! `merge_safe_dedup` a delete is emitted only where the row is really gone or
//! its identifier changed, which leaves at most one row per key.

use vstd::prelude::*;
use vstd::string::*;

use crate::dvm::diff;
use crate::dvm::diff::{quote_ident, DiffContext, DiffResult};
use crate::dvm::diff::{Delta, DiffEnv, DiffState, Outcome};
use crate::dvm::parser;
use crate::dvm::parser::{names_of, Column, OpTree};
use crate::error::{ErrorView, PgTrickleError};
use crate::sql_builder;
use crate::text;
use crate::text::{copy_texts, join_texts};

verus! {

// ── Hash expressions ───────────────────────────────────────────────────

/// Each expression in parentheses and cast to text.
pub open spec fn casts(exprs: Seq<Seq<char>>) -> Seq<Seq<char>> {
    Seq::new(exprs.len(), |i: int| "("@ + exprs[i] + ")::TEXT"@)
}

/// A call of a hash function on expressions: the function itself for one
/// expression, its `_multi` form on an array otherwise.
pub open spec fn hash_call(function: Seq<char>, exprs: Seq<Seq<char>>) -> Seq<char> {
    if exprs.len() == 1 {
        function + "("@ + exprs[0] + ")"@
    } else {
        function + "_multi(ARRAY["@ + text::join(casts(exprs), ", "@) + "])"@
    }
}

/// Builds a call of a hash function on expressions.
///
/// In an array each expression is put in parentheses, so that the cast binds
/// to the whole of it.
pub fn build_hash_call(function: &str, exprs: &[String]) -> (r: String)
    ensures
        r@ == hash_call(function@, text::texts(exprs@)),
{
    let mut r = function.to_string();
    if exprs.len() == 1 {
        r.append("(");
        r.append(exprs[0].as_str());
        r.append(")");
    } else {
        let mut items: Vec<String> = Vec::new();
        let mut i: usize = 0;
        while i < exprs.len()
            invariant
                i <= exprs@.len(),
                items@.len() == i,
                forall|k: int|
                    0 <= k < i ==> (#[trigger] items@[k])@ == "("@ + exprs@[k]@ + ")::TEXT"@,
            decreases exprs@.len() - i,
        {
            let mut item = "(".to_string();
            item.append(exprs[i].as_str());
            item.append(")::TEXT");
            items.push(item);
            i += 1;
        }
        assert(text::texts(items@) =~= casts(text::texts(exprs@)));
        r.append("_multi(ARRAY[");
        r.append(join_texts(&items, ", ").as_str());
        r.append("])");
    }
    r
}

/// Builds a hash expression from a list of SQL expressions.
pub fn build_hash_expr(exprs: &[String]) -> (r: String)
    ensures
        r@ == hash_call("pgtrickle.pg_trickle_hash"@, text::texts(exprs@)),
{
    build_hash_call("pgtrickle.pg_trickle_hash", exprs)
}

/// The columns that identify a row: the primary key, or all columns of a
/// table without one.
pub open spec fn key_columns(pk_columns: Seq<String>, columns: Seq<Column>) -> Seq<Seq<char>> {
    if pk_columns.len() > 0 {
        text::texts(pk_columns)
    } else {
        parser::column_names(columns)
    }
}

/// The columns that identify a row of a table.
pub fn find_pk_columns(pk_columns: &Vec<String>, columns: &Vec<Column>) -> (r: Vec<String>)
    ensures
        text::texts(r@) == key_columns(pk_columns@, columns@),
{
    if pk_columns.len() > 0 {
        copy_texts(pk_columns)
    } else {
        names_of(columns)
    }
}

// ── Column references ──────────────────────────────────────────────────

/// A column of the change buffer: `c."<prefix><col>"`.
pub open spec fn buffer_col(prefix: Seq<char>, col: Seq<char>) -> Seq<char> {
    "c."@ + sql_builder::ident_text(prefix + col)
}

/// The hash of the key as it was before a change.
pub open spec fn old_key_hash(keys: Seq<Seq<char>>) -> Seq<char> {
    let args = Seq::new(keys.len(), |i: int| buffer_col("old_"@, keys[i]) + "::TEXT"@);
    if args.len() == 1 {
        "pgtrickle.pg_trickle_hash("@ + args[0] + ")"@
    } else {
        "pgtrickle.pg_trickle_hash_multi(ARRAY["@ + text::join(args, ", "@) + "])"@
    }
}

/// The new and the old value of each column, in turn.
pub open spec fn value_refs(cols: Seq<Seq<char>>) -> Seq<Seq<char>>
    decreases cols.len(),
{
    if cols.len() == 0 {
        Seq::empty()
    } else {
        value_refs(cols.drop_last()).push(buffer_col("new_"@, cols.last())).push(
            buffer_col("old_"@, cols.last()),
        )
    }
}

/// The new or the old value of each column, under the column's name.
pub open spec fn value_cols(prefix: Seq<char>, cols: Seq<Seq<char>>) -> Seq<Seq<char>> {
    Seq::new(
        cols.len(),
        |i: int| buffer_col(prefix, cols[i]) + " AS "@ + sql_builder::ident_text(cols[i]),
    )
}

/// A column of the change buffer.
fn buffer_column(prefix: &str, col: &str) -> (r: String)
    ensures
        r@ == buffer_col(prefix@, col@),
{
    let mut name = prefix.to_string();
    name.append(col);
    let mut r = "c.".to_string();
    r.append(quote_ident(name.as_str()).as_str());
    r
}

/// The hash of the key as it was before a change.
fn old_key_hash_expr(keys: &Vec<String>) -> (r: String)
    ensures
        r@ == old_key_hash(text::texts(keys@)),
{
    let ghost spec_args = Seq::new(
        keys@.len(),
        |i: int| buffer_col("old_"@, text::texts(keys@)[i]) + "::TEXT"@,
    );
    let mut args: Vec<String> = Vec::new();
    let mut i: usize = 0;
    while i < keys.len()
        invariant
            i <= keys.len(),
            args@.len() == i,
            forall|k: int|
                0 <= k < i ==> (#[trigger] args@[k])@ == buffer_col("old_"@, keys@[k]@)
                    + "::TEXT"@,
        decreases keys.len() - i,
    {
        let mut arg = buffer_column("old_", keys[i].as_str());
        arg.append("::TEXT");
        args.push(arg);
        i += 1;
    }
    assert(text::texts(args@) =~= spec_args);
    if args.len() == 1 {
        let mut r = "pgtrickle.pg_trickle_hash(".to_string();
        r.append(args[0].as_str());
        r.append(")");
        r
    } else {
        let mut r = "pgtrickle.pg_trickle_hash_multi(ARRAY[".to_string();
        r.append(join_texts(&args, ", ").as_str());
        r.append("])");
        r
    }
}

/// The new and the old value of each column, in turn.
fn value_ref_list(cols: &Vec<String>) -> (r: Vec<String>)
    ensures
        text::texts(r@) == value_refs(text::texts(cols@)),
{
    let ghost names = text::texts(cols@);
    let mut r: Vec<String> = Vec::new();
    let mut i: usize = 0;
    while i < cols.len()
        invariant
            i <= cols.len(),
            names == text::texts(cols@),
            text::texts(r@) == value_refs(names.take(i as int)),
        decreases cols.len() - i,
    {
        let ghost before = r@;
        r.push(buffer_column("new_", cols[i].as_str()));
        r.push(buffer_column("old_", cols[i].as_str()));
        i += 1;
        proof {
            assert(names.take(i as int).drop_last() =~= names.take(i - 1));
            assert(text::texts(r@) =~= text::texts(before).push(
                buffer_col("new_"@, names[i - 1]),
            ).push(buffer_col("old_"@, names[i - 1])));
        }
    }
    assert(names.take(names.len() as int) =~= names);
    r
}

/// The new or the old value of each column, under the column's name.
fn value_col_list(prefix: &str, cols: &Vec<String>) -> (r: Vec<String>)
    ensures
        text::texts(r@) == value_cols(prefix@, text::texts(cols@)),
{
    let mut r: Vec<String> = Vec::new();
    let mut i: usize = 0;
    while i < cols.len()
        invariant
            i <= cols.len(),
            r@.len() == i,
            forall|k: int|
                0 <= k < i ==> (#[trigger] r@[k])@ == buffer_col(prefix@, cols@[k]@) + " AS "@
                    + sql_builder::ident_text(cols@[k]@),
        decreases cols.len() - i,
    {
        let mut part = buffer_column(prefix, cols[i].as_str());
        part.append(" AS ");
        part.append(quote_ident(cols[i].as_str()).as_str());
        r.push(part);
        i += 1;
    }
    assert(text::texts(r@) =~= value_cols(prefix@, text::texts(cols@)));
    r
}

// ── Queries of the chain ───────────────────────────────────────────────

/// Changes of the interval.
pub open spec fn lsn_filter_sql(prev: Seq<char>, new: Seq<char>) -> Seq<char> {
    "c.lsn > '"@ + prev + "'::pg_lsn AND c.lsn <= '"@ + new + "'::pg_lsn"@
}

/// Changes of the interval.
fn lsn_filter_query(prev: &str, new: &str) -> (r: String)
    ensures
        r@ == lsn_filter_sql(prev@, new@),
{
    let mut r = "c.lsn > '".to_string();
    r.append(prev);
    r.append("'::pg_lsn AND c.lsn <= '");
    r.append(new);
    r.append("'::pg_lsn");
    r
}

/// Counts the changes of each key.
pub open spec fn pk_stats_sql(change_table: Seq<char>, filter: Seq<char>) -> Seq<char> {
    "SELECT c.pk_hash AS __pk_hash, count(*) AS cnt\n\
        FROM "@ + change_table + " c\n\
        WHERE "@ + filter + "\n\
        GROUP BY c.pk_hash"@
}

/// Counts the changes of each key.
fn pk_stats_query(change_table: &str, filter: &str) -> (r: String)
    ensures
        r@ == pk_stats_sql(change_table@, filter@),
{
    let mut r = "SELECT c.pk_hash AS __pk_hash, count(*) AS cnt\n\
        FROM ".to_string();
    r.append(change_table);
    r.append(" c\n\
        WHERE ");
    r.append(filter);
    r.append("\n\
        GROUP BY c.pk_hash");
    r
}

/// Keys with one change: it is both the first and the last.
pub open spec fn single_sql(
    old_hash: Seq<char>,
    values: Seq<char>,
    change_table: Seq<char>,
    pk_stats: Seq<char>,
    filter: Seq<char>,
) -> Seq<char> {
    "SELECT c.pk_hash AS __pk_hash,\n       "@ + old_hash + " AS __pk_hash_old,\n       \
        c.action,\n       \
        c.change_id,\n       "@ + values + ",\n       \
        c.action AS __first_action,\n       \
        c.action AS __last_action\n\
        FROM "@ + change_table + " c\n\
        JOIN "@ + pk_stats + " p ON p.__pk_hash = c.pk_hash AND p.cnt = 1\n\
        WHERE "@ + filter
}

/// Keys with one change: it is both the first and the last.
fn single_query(
    old_hash: &str,
    values: &str,
    change_table: &str,
    pk_stats: &str,
    filter: &str,
) -> (r: String)
    ensures
        r@ == single_sql(old_hash@, values@, change_table@, pk_stats@, filter@),
{
    let mut r = "SELECT c.pk_hash AS __pk_hash,\n       ".to_string();
    r.append(old_hash);
    r.append(" AS __pk_hash_old,\n       \
        c.action,\n       \
        c.change_id,\n       ");
    r.append(values);
    r.append(",\n       \
        c.action AS __first_action,\n       \
        c.action AS __last_action\n\
        FROM ");
    r.append(change_table);
    r.append(" c\n\
        JOIN ");
    r.append(pk_stats);
    r.append(" p ON p.__pk_hash = c.pk_hash AND p.cnt = 1\n\
        WHERE ");
    r.append(filter);
    r
}

/// Keys with several changes: window functions find the first and the last.
pub open spec fn multi_sql(
    old_hash: Seq<char>,
    values: Seq<char>,
    change_table: Seq<char>,
    pk_stats: Seq<char>,
    filter: Seq<char>,
) -> Seq<char> {
    "SELECT c.pk_hash AS __pk_hash,\n       "@ + old_hash + " AS __pk_hash_old,\n       \
        c.action,\n       \
        c.change_id,\n       "@ + values + ",\n       \
        FIRST_VALUE(c.action) OVER (\n           \
        PARTITION BY c.pk_hash ORDER BY c.change_id\n       \
        ) AS __first_action,\n       \
        LAST_VALUE(c.action) OVER (\n           \
        PARTITION BY c.pk_hash ORDER BY c.change_id\n           \
        ROWS BETWEEN UNBOUNDED PRECEDING AND UNBOUNDED FOLLOWING\n       \
        ) AS __last_action\n\
        FROM "@ + change_table + " c\n\
        JOIN "@ + pk_stats + " p ON p.__pk_hash = c.pk_hash AND p.cnt > 1\n\
        WHERE "@ + filter
}

/// Keys with several changes: window functions find the first and the last.
fn multi_query(
    old_hash: &str,
    values: &str,
    change_table: &str,
    pk_stats: &str,
    filter: &str,
) -> (r: String)
    ensures
        r@ == multi_sql(old_hash@, values@, change_table@, pk_stats@, filter@),
{
    let mut r = "SELECT c.pk_hash AS __pk_hash,\n       ".to_string();
    r.append(old_hash);
    r.append(" AS __pk_hash_old,\n       \
        c.action,\n       \
        c.change_id,\n       ");
    r.append(values);
    r.append(",\n       \
        FIRST_VALUE(c.action) OVER (\n           \
        PARTITION BY c.pk_hash ORDER BY c.change_id\n       \
        ) AS __first_action,\n       \
        LAST_VALUE(c.action) OVER (\n           \
        PARTITION BY c.pk_hash ORDER BY c.change_id\n           \
        ROWS BETWEEN UNBOUNDED PRECEDING AND UNBOUNDED FOLLOWING\n       \
        ) AS __last_action\n\
        FROM ");
    r.append(change_table);
    r.append(" c\n\
        JOIN ");
    r.append(pk_stats);
    r.append(" p ON p.__pk_hash = c.pk_hash AND p.cnt > 1\n\
        WHERE ");
    r.append(filter);
    r
}

/// Both paths together.
pub open spec fn raw_sql(single: Seq<char>, multi: Seq<char>) -> Seq<char> {
    "SELECT * FROM "@ + single + "\n\
        UNION ALL\n\
        SELECT * FROM "@ + multi
}

/// Both paths together.
fn raw_query(single: &str, multi: &str) -> (r: String)
    ensures
        r@ == raw_sql(single@, multi@),
{
    let mut r = "SELECT * FROM ".to_string();
    r.append(single);
    r.append("\n\
        UNION ALL\n\
        SELECT * FROM ");
    r.append(multi);
    r
}

/// Net effect with at most one row per key.
pub open spec fn dedup_sql(old_cols: Seq<char>, raw: Seq<char>, new_cols: Seq<char>) -> Seq<char> {
    "-- DELETE events: row existed before AND was truly deleted, OR\n\
        -- the row hash changed (keyless table update — old row must be removed).\n\
        -- For PK-based tables __pk_hash_old == __pk_hash always, so the OR\n\
        -- clause never fires → no regression.\n\
        SELECT c.__pk_hash_old AS __pgt_row_id,\n       \
        'D'::TEXT AS __pgt_action,\n       "@ + old_cols + "\n\
        FROM (\n  \
        SELECT DISTINCT ON (s.__pk_hash_old)\n         \
        s.*\n  \
        FROM "@ + raw + " s\n  \
        WHERE s.__first_action != 'I'\n    \
        AND (s.__last_action = 'D' OR s.__pk_hash_old != s.__pk_hash)\n  \
        ORDER BY s.__pk_hash_old, s.change_id\n\
        ) c\n\n\
        UNION ALL\n\n\
        -- INSERT events: row exists after (handles inserts + updates)\n\
        SELECT c.__pk_hash AS __pgt_row_id,\n       \
        'I'::TEXT AS __pgt_action,\n       "@ + new_cols + "\n\
        FROM (\n  \
        SELECT DISTINCT ON (s.__pk_hash)\n         \
        s.*\n  \
        FROM "@ + raw + " s\n  \
        WHERE s.__last_action != 'D'\n  \
        ORDER BY s.__pk_hash, s.change_id DESC\n\
        ) c"@
}

/// Net effect with at most one row per key.
fn dedup_query(old_cols: &str, raw: &str, new_cols: &str) -> (r: String)
    ensures
        r@ == dedup_sql(old_cols@, raw@, new_cols@),
{
    let mut r = "-- DELETE events: row existed before AND was truly deleted, OR\n\
        -- the row hash changed (keyless table update — old row must be removed).\n\
        -- For PK-based tables __pk_hash_old == __pk_hash always, so the OR\n\
        -- clause never fires → no regression.\n\
        SELECT c.__pk_hash_old AS __pgt_row_id,\n       \
        'D'::TEXT AS __pgt_action,\n       ".to_string();
    r.append(old_cols);
    r.append("\n\
        FROM (\n  \
        SELECT DISTINCT ON (s.__pk_hash_old)\n         \
        s.*\n  \
        FROM ");
    r.append(raw);
    r.append(" s\n  \
        WHERE s.__first_action != 'I'\n    \
        AND (s.__last_action = 'D' OR s.__pk_hash_old != s.__pk_hash)\n  \
        ORDER BY s.__pk_hash_old, s.change_id\n\
        ) c\n\n\
        UNION ALL\n\n\
        -- INSERT events: row exists after (handles inserts + updates)\n\
        SELECT c.__pk_hash AS __pgt_row_id,\n       \
        'I'::TEXT AS __pgt_action,\n       ");
    r.append(new_cols);
    r.append("\n\
        FROM (\n  \
        SELECT DISTINCT ON (s.__pk_hash)\n         \
        s.*\n  \
        FROM ");
    r.append(raw);
    r.append(" s\n  \
        WHERE s.__last_action != 'D'\n  \
        ORDER BY s.__pk_hash, s.change_id DESC\n\
        ) c");
    r
}

/// Net effect with a delete and an insert for an update.
pub open spec fn pairs_sql(old_cols: Seq<char>, raw: Seq<char>, new_cols: Seq<char>) -> Seq<char> {
    "-- DELETE events: row existed before (first_action != 'I')\n\
        -- Uses old_* columns from the earliest non-INSERT change per PK.\n\
        -- __pk_hash_old ensures the row_id matches the existing ST row,\n\
        -- which is critical for keyless tables where all-column hash changes.\n\
        SELECT c.__pk_hash_old AS __pgt_row_id,\n       \
        'D'::TEXT AS __pgt_action,\n       "@ + old_cols + "\n\
        FROM (\n  \
        SELECT DISTINCT ON (s.__pk_hash)\n         \
        s.*\n  \
        FROM "@ + raw + " s\n  \
        WHERE s.action != 'I' AND s.__first_action != 'I'\n  \
        ORDER BY s.__pk_hash, s.change_id\n\
        ) c\n\n\
        UNION ALL\n\n\
        -- INSERT events: row exists after (last_action != 'D')\n\
        -- Uses new_* columns from the latest non-DELETE change per PK.\n\
        SELECT c.__pk_hash AS __pgt_row_id,\n       \
        'I'::TEXT AS __pgt_action,\n       "@ + new_cols + "\n\
        FROM (\n  \
        SELECT DISTINCT ON (s.__pk_hash)\n         \
        s.*\n  \
        FROM "@ + raw + " s\n  \
        WHERE s.action != 'D' AND s.__last_action != 'D'\n  \
        ORDER BY s.__pk_hash, s.change_id DESC\n\
        ) c"@
}

/// Net effect with a delete and an insert for an update.
fn pairs_query(old_cols: &str, raw: &str, new_cols: &str) -> (r: String)
    ensures
        r@ == pairs_sql(old_cols@, raw@, new_cols@),
{
    let mut r = "-- DELETE events: row existed before (first_action != 'I')\n\
        -- Uses old_* columns from the earliest non-INSERT change per PK.\n\
        -- __pk_hash_old ensures the row_id matches the existing ST row,\n\
        -- which is critical for keyless tables where all-column hash changes.\n\
        SELECT c.__pk_hash_old AS __pgt_row_id,\n       \
        'D'::TEXT AS __pgt_action,\n       ".to_string();
    r.append(old_cols);
    r.append("\n\
        FROM (\n  \
        SELECT DISTINCT ON (s.__pk_hash)\n         \
        s.*\n  \
        FROM ");
    r.append(raw);
    r.append(" s\n  \
        WHERE s.action != 'I' AND s.__first_action != 'I'\n  \
        ORDER BY s.__pk_hash, s.change_id\n\
        ) c\n\n\
        UNION ALL\n\n\
        -- INSERT events: row exists after (last_action != 'D')\n\
        -- Uses new_* columns from the latest non-DELETE change per PK.\n\
        SELECT c.__pk_hash AS __pgt_row_id,\n       \
        'I'::TEXT AS __pgt_action,\n       ");
    r.append(new_cols);
    r.append("\n\
        FROM (\n  \
        SELECT DISTINCT ON (s.__pk_hash)\n         \
        s.*\n  \
        FROM ");
    r.append(raw);
    r.append(" s\n  \
        WHERE s.action != 'D' AND s.__last_action != 'D'\n  \
        ORDER BY s.__pk_hash, s.change_id DESC\n\
        ) c");
    r
}

// ── Differentiation ────────────────────────────────────────────────────

/// The chain of a scan and its delta.
pub open spec fn scan_outcome(
    env: DiffEnv,
    st: DiffState,
    table_oid: u32,
    cols: Seq<Seq<char>>,
    keys: Seq<Seq<char>>,
    alias: Seq<char>,
) -> Outcome {
    let change_table = env.change_table(table_oid);
    let filter = lsn_filter_sql(env.prev_lsn(table_oid), env.new_lsn(table_oid));
    let old_hash = old_key_hash(keys);
    let values = text::join(value_refs(cols), ",\n       "@);
    let old_cols = text::join(value_cols("old_"@, cols), ",\n       "@);
    let new_cols = text::join(value_cols("new_"@, cols), ",\n       "@);
    let pk_stats = st.fresh("pk_stats_"@ + alias);
    let st1 = st.step("pk_stats_"@ + alias, pk_stats_sql(change_table, filter));
    let single = st1.fresh("single_"@ + alias);
    let st2 = st1.step(
        "single_"@ + alias,
        single_sql(old_hash, values, change_table, pk_stats, filter),
    );
    let multi = st2.fresh("multi_raw_"@ + alias);
    let st3 = st2.step(
        "multi_raw_"@ + alias,
        multi_sql(old_hash, values, change_table, pk_stats, filter),
    );
    let raw = st3.fresh("scan_raw_"@ + alias);
    let st4 = st3.step("scan_raw_"@ + alias, raw_sql(single, multi));
    let net = if env.merge_safe_dedup {
        dedup_sql(old_cols, raw, new_cols)
    } else {
        pairs_sql(old_cols, raw, new_cols)
    };
    (
        st4.step("scan_"@ + alias, net),
        Ok(
            Delta {
                cte_name: st4.fresh("scan_"@ + alias),
                columns: cols,
                is_deduplicated: env.merge_safe_dedup,
            },
        ),
    )
}

/// The outcome of differentiating an operator as a scan.
pub open spec fn scan_diff(env: DiffEnv, st: DiffState, op: OpTree) -> Outcome {
    match op {
        OpTree::Scan { table_oid, columns, pk_columns, alias, .. } => scan_outcome(
            env,
            st,
            table_oid,
            parser::column_names(columns@),
            key_columns(pk_columns@, columns@),
            alias@,
        ),
        _ => (st, Err(ErrorView::InternalError("diff_scan called on non-Scan node"@))),
    }
}

/// A prefix followed by an alias.
fn named(prefix: &str, alias: &str) -> (r: String)
    ensures
        r@ == prefix@ + alias@,
{
    let mut r = prefix.to_string();
    r.append(alias);
    r
}

/// Differentiates a scan.
///
/// The delta has the columns of the table, and identifies rows by the hash of
/// their key.
pub fn diff_scan(ctx: &mut DiffContext, op: &OpTree) -> (r: Result<DiffResult, PgTrickleError>)
    ensures
        final(ctx).env() == old(ctx).env(),
        diff::yields(
            *final(ctx),
            r,
            scan_diff(old(ctx).env(), old(ctx).state(), *op),
        ),
{
    let (table_oid, columns, pk_columns, alias) = match op {
        OpTree::Scan { table_oid, columns, pk_columns, alias, .. } => (
            *table_oid,
            columns,
            pk_columns,
            alias,
        ),
        _ => {
            return Err(
                PgTrickleError::InternalError("diff_scan called on non-Scan node".to_string()),
            );
        },
    };
    let change_table = ctx.change_table(table_oid);
    let filter = lsn_filter_query(
        ctx.get_prev_lsn(table_oid).as_str(),
        ctx.get_new_lsn(table_oid).as_str(),
    );
    let cols = names_of(columns);
    let old_hash = old_key_hash_expr(&find_pk_columns(pk_columns, columns));
    let values = join_texts(&value_ref_list(&cols), ",\n       ");
    let old_cols = join_texts(&value_col_list("old_", &cols), ",\n       ");
    let new_cols = join_texts(&value_col_list("new_", &cols), ",\n       ");

    let pk_stats = ctx.next_cte_name(named("pk_stats_", alias).as_str());
    ctx.add_cte(pk_stats.clone(), pk_stats_query(change_table.as_str(), filter.as_str()));

    let single = ctx.next_cte_name(named("single_", alias).as_str());
    ctx.add_cte(
        single.clone(),
        single_query(
            old_hash.as_str(),
            values.as_str(),
            change_table.as_str(),
            pk_stats.as_str(),
            filter.as_str(),
        ),
    );

    let multi = ctx.next_cte_name(named("multi_raw_", alias).as_str());
    ctx.add_cte(
        multi.clone(),
        multi_query(
            old_hash.as_str(),
            values.as_str(),
            change_table.as_str(),
            pk_stats.as_str(),
            filter.as_str(),
        ),
    );

    let raw = ctx.next_cte_name(named("scan_raw_", alias).as_str());
    ctx.add_cte(raw.clone(), raw_query(single.as_str(), multi.as_str()));

    let cte_name = ctx.next_cte_name(named("scan_", alias).as_str());
    let net = if ctx.merge_safe_dedup {
        dedup_query(old_cols.as_str(), raw.as_str(), new_cols.as_str())
    } else {
        pairs_query(old_cols.as_str(), raw.as_str(), new_cols.as_str())
    };
    ctx.add_cte(cte_name.clone(), net);
    Ok(DiffResult { cte_name, columns: cols, is_deduplicated: ctx.merge_safe_dedup })
}

// ── What the queries say ───────────────────────────────────────────────

/// The changes of the interval are counted for each key.
pub proof fn changes_are_counted_by_key(
    change_table: Seq<char>,
    filter: Seq<char>,
)
    ensures
        ({
            let t = pk_stats_sql(change_table, filter);
            &&& text::occurs(
                t,
                "FROM "@ + change_table + " c\nWHERE "@ + filter + "\nGROUP BY c.pk_hash"@,
            )
        }),
{
    reveal_strlit("FROM ");
    reveal_strlit(" c\nWHERE ");
    reveal_strlit("\nGROUP BY c.pk_hash");
    reveal_strlit("SELECT c.pk_hash AS __pk_hash, count(*) AS cnt\nFROM ");
    let t = pk_stats_sql(change_table, filter);
    let f0 = "FROM "@ + change_table + " c\nWHERE "@ + filter + "\nGROUP BY c.pk_hash"@;
    let k0 = 47int;
    assert(t.subrange(k0, k0 + f0.len()) =~= f0);
    assert(text::occurs_at(t, f0, k0));
}

/// A key with one change of the interval has that change as its first and as
/// its last, with the key as it was before.
pub proof fn one_change_is_first_and_last(
    old_hash: Seq<char>,
    values: Seq<char>,
    change_table: Seq<char>,
    pk_stats: Seq<char>,
    filter: Seq<char>,
)
    ensures
        ({
            let t = single_sql(old_hash, values, change_table, pk_stats, filter);
            &&& text::occurs(
                t,
                old_hash + " AS __pk_hash_old,"@,
            )
            &&& text::occurs(
                t,
                values
                    + ",\n       c.action AS __first_action,\n       c.action AS __last_action\nFROM "@
                    + change_table + " c\nJOIN "@ + pk_stats
                    + " p ON p.__pk_hash = c.pk_hash AND p.cnt = 1\nWHERE "@ + filter,
            )
        }),
{
    reveal_strlit(" c\nJOIN ");
    reveal_strlit(" AS __pk_hash_old,");
    reveal_strlit("SELECT c.pk_hash AS __pk_hash,\n       ");
    reveal_strlit(" p ON p.__pk_hash = c.pk_hash AND p.cnt = 1\nWHERE ");
    reveal_strlit(" AS __pk_hash_old,\n       c.action,\n       c.change_id,\n       ");
    reveal_strlit(",\n       c.action AS __first_action,\n       c.action AS __last_action\nFROM ");
    let t = single_sql(old_hash, values, change_table, pk_stats, filter);
    let f0 = old_hash + " AS __pk_hash_old,"@;
    let k0 = 38int;
    assert(t.subrange(k0, k0 + f0.len()) =~= f0);
    assert(text::occurs_at(t, f0, k0));
    let f1 = values
        + ",\n       c.action AS __first_action,\n       c.action AS __last_action\nFROM "@
        + change_table + " c\nJOIN "@ + pk_stats
        + " p ON p.__pk_hash = c.pk_hash AND p.cnt = 1\nWHERE "@ + filter;
    let k1 = 101int + old_hash.len();
    assert(t.subrange(k1, k1 + f1.len()) =~= f1);
    assert(text::occurs_at(t, f1, k1));
}

/// A key with several changes of the interval has the first and the last of
/// them in the order in which they were captured.
pub proof fn several_changes_have_a_first_and_a_last(
    old_hash: Seq<char>,
    values: Seq<char>,
    change_table: Seq<char>,
    pk_stats: Seq<char>,
    filter: Seq<char>,
)
    ensures
        ({
            let t = multi_sql(old_hash, values, change_table, pk_stats, filter);
            &&& text::occurs(
                t,
                old_hash + " AS __pk_hash_old,"@,
            )
            &&& text::occurs(
                t,
                "FIRST_VALUE(c.action) OVER (\n           PARTITION BY c.pk_hash ORDER BY c.change_id\n       ) AS __first_action,"@,
            )
            &&& text::occurs(
                t,
                "LAST_VALUE(c.action) OVER (\n           PARTITION BY c.pk_hash ORDER BY c.change_id\n           ROWS BETWEEN UNBOUNDED PRECEDING AND UNBOUNDED FOLLOWING\n       ) AS __last_action\nFROM "@
                    + change_table + " c\nJOIN "@ + pk_stats
                    + " p ON p.__pk_hash = c.pk_hash AND p.cnt > 1\nWHERE "@ + filter,
            )
        }),
{
    reveal_strlit(" c\nJOIN ");
    reveal_strlit(" AS __pk_hash_old,");
    reveal_strlit("SELECT c.pk_hash AS __pk_hash,\n       ");
    reveal_strlit(" p ON p.__pk_hash = c.pk_hash AND p.cnt > 1\nWHERE ");
    reveal_strlit(" AS __pk_hash_old,\n       c.action,\n       c.change_id,\n       ");
    reveal_strlit("FIRST_VALUE(c.action) OVER (\n           PARTITION BY c.pk_hash ORDER BY c.change_id\n       ) AS __first_action,");
    reveal_strlit("LAST_VALUE(c.action) OVER (\n           PARTITION BY c.pk_hash ORDER BY c.change_id\n           ROWS BETWEEN UNBOUNDED PRECEDING AND UNBOUNDED FOLLOWING\n       ) AS __last_action\nFROM ");
    reveal_strlit(",\n       FIRST_VALUE(c.action) OVER (\n           PARTITION BY c.pk_hash ORDER BY c.change_id\n       ) AS __first_action,\n       LAST_VALUE(c.action) OVER (\n           PARTITION BY c.pk_hash ORDER BY c.change_id\n           ROWS BETWEEN UNBOUNDED PRECEDING AND UNBOUNDED FOLLOWING\n       ) AS __last_action\nFROM ");
    let t = multi_sql(old_hash, values, change_table, pk_stats, filter);
    let f0 = old_hash + " AS __pk_hash_old,"@;
    let k0 = 38int;
    assert(t.subrange(k0, k0 + f0.len()) =~= f0);
    assert(text::occurs_at(t, f0, k0));
    let f1 = "FIRST_VALUE(c.action) OVER (\n           PARTITION BY c.pk_hash ORDER BY c.change_id\n       ) AS __first_action,"@;
    let k1 = 110int + old_hash.len() + values.len();
    assert(t.subrange(k1, k1 + f1.len()) =~= f1);
    assert(text::occurs_at(t, f1, k1));
    let f2 = "LAST_VALUE(c.action) OVER (\n           PARTITION BY c.pk_hash ORDER BY c.change_id\n           ROWS BETWEEN UNBOUNDED PRECEDING AND UNBOUNDED FOLLOWING\n       ) AS __last_action\nFROM "@
        + change_table + " c\nJOIN "@ + pk_stats
        + " p ON p.__pk_hash = c.pk_hash AND p.cnt > 1\nWHERE "@ + filter;
    let k2 = 229int + old_hash.len() + values.len();
    assert(t.subrange(k2, k2 + f2.len()) =~= f2);
    assert(text::occurs_at(t, f2, k2));
}

/// Keys with one change and keys with several are taken together.
pub proof fn keys_with_one_and_with_several_changes_are_taken_together(
    single: Seq<char>,
    multi: Seq<char>,
)
    ensures
        ({
            let t = raw_sql(single, multi);
            &&& text::occurs(
                t,
                "FROM "@ + single + "\nUNION ALL\nSELECT * FROM "@ + multi,
            )
        }),
{
    reveal_strlit("FROM ");
    reveal_strlit("SELECT * FROM ");
    reveal_strlit("\nUNION ALL\nSELECT * FROM ");
    let t = raw_sql(single, multi);
    let f0 = "FROM "@ + single + "\nUNION ALL\nSELECT * FROM "@ + multi;
    let k0 = 9int;
    assert(t.subrange(k0, k0 + f0.len()) =~= f0);
    assert(text::occurs_at(t, f0, k0));
}

/// A row that was there before is deleted, with its old values, if it is gone
/// or has another identifier now; a row that is there afterwards is inserted
/// with the values of its last change.
pub proof fn net_effect_has_one_row_for_each_key(
    old_cols: Seq<char>,
    raw: Seq<char>,
    new_cols: Seq<char>,
)
    ensures
        ({
            let t = dedup_sql(old_cols, raw, new_cols);
            &&& text::occurs(
                t,
                "SELECT c.__pk_hash_old AS __pgt_row_id,\n       'D'::TEXT AS __pgt_action,\n       "@
                    + old_cols + "\nFROM ("@,
            )
            &&& text::occurs(
                t,
                "FROM "@ + raw
                    + " s\n  WHERE s.__first_action != 'I'\n    AND (s.__last_action = 'D' OR s.__pk_hash_old != s.__pk_hash)\n  ORDER BY s.__pk_hash_old, s.change_id\n"@,
            )
            &&& text::occurs(
                t,
                "SELECT c.__pk_hash AS __pgt_row_id,\n       'I'::TEXT AS __pgt_action,\n       "@
                    + new_cols + "\nFROM (\n  SELECT DISTINCT ON (s.__pk_hash)\n"@,
            )
            &&& text::occurs(
                t,
                "FROM "@ + raw
                    + " s\n  WHERE s.__last_action != 'D'\n  ORDER BY s.__pk_hash, s.change_id DESC\n"@,
            )
        }),
{
    reveal_strlit("FROM ");
    reveal_strlit("\nFROM (");
    reveal_strlit("\nFROM (\n  SELECT DISTINCT ON (s.__pk_hash)\n");
    reveal_strlit("\nFROM (\n  SELECT DISTINCT ON (s.__pk_hash)\n         s.*\n  FROM ");
    reveal_strlit("\nFROM (\n  SELECT DISTINCT ON (s.__pk_hash_old)\n         s.*\n  FROM ");
    reveal_strlit(" s\n  WHERE s.__last_action != 'D'\n  ORDER BY s.__pk_hash, s.change_id DESC\n");
    reveal_strlit("SELECT c.__pk_hash AS __pgt_row_id,\n       'I'::TEXT AS __pgt_action,\n       ");
    reveal_strlit(" s\n  WHERE s.__last_action != 'D'\n  ORDER BY s.__pk_hash, s.change_id DESC\n) c");
    reveal_strlit("SELECT c.__pk_hash_old AS __pgt_row_id,\n       'D'::TEXT AS __pgt_action,\n       ");
    reveal_strlit(" s\n  WHERE s.__first_action != 'I'\n    AND (s.__last_action = 'D' OR s.__pk_hash_old != s.__pk_hash)\n  ORDER BY s.__pk_hash_old, s.change_id\n");
    reveal_strlit(" s\n  WHERE s.__first_action != 'I'\n    AND (s.__last_action = 'D' OR s.__pk_hash_old != s.__pk_hash)\n  ORDER BY s.__pk_hash_old, s.change_id\n) c\n\nUNION ALL\n\n-- INSERT events: row exists after (handles inserts + updates)\nSELECT c.__pk_hash AS __pgt_row_id,\n       'I'::TEXT AS __pgt_action,\n       ");
    reveal_strlit("-- DELETE events: row existed before AND was truly deleted, OR\n-- the row hash changed (keyless table update — old row must be removed).\n-- For PK-based tables __pk_hash_old == __pk_hash always, so the OR\n-- clause never fires → no regression.\nSELECT c.__pk_hash_old AS __pgt_row_id,\n       'D'::TEXT AS __pgt_action,\n       ");
    let t = dedup_sql(old_cols, raw, new_cols);
    let f0 = "SELECT c.__pk_hash_old AS __pgt_row_id,\n       'D'::TEXT AS __pgt_action,\n       "@
        + old_cols + "\nFROM ("@;
    let k0 = 244int;
    assert(t.subrange(k0, k0 + f0.len()) =~= f0);
    assert(text::occurs_at(t, f0, k0));
    let f1 = "FROM "@ + raw
        + " s\n  WHERE s.__first_action != 'I'\n    AND (s.__last_action = 'D' OR s.__pk_hash_old != s.__pk_hash)\n  ORDER BY s.__pk_hash_old, s.change_id\n"@;
    let k1 = 387int + old_cols.len();
    assert(t.subrange(k1, k1 + f1.len()) =~= f1);
    assert(text::occurs_at(t, f1, k1));
    let f2 = "SELECT c.__pk_hash AS __pgt_row_id,\n       'I'::TEXT AS __pgt_action,\n       "@
        + new_cols + "\nFROM (\n  SELECT DISTINCT ON (s.__pk_hash)\n"@;
    let k2 = 612int + old_cols.len() + raw.len();
    assert(t.subrange(k2, k2 + f2.len()) =~= f2);
    assert(text::occurs_at(t, f2, k2));
    let f3 = "FROM "@ + raw
        + " s\n  WHERE s.__last_action != 'D'\n  ORDER BY s.__pk_hash, s.change_id DESC\n"@;
    let k3 = 747int + old_cols.len() + raw.len() + new_cols.len();
    assert(t.subrange(k3, k3 + f3.len()) =~= f3);
    assert(text::occurs_at(t, f3, k3));
}

/// A row that was there before is deleted with the old values of its first
/// change, and a row that is there afterwards is inserted with the new values
/// of its last; so an insert and a delete in one interval cancel each other.
pub proof fn net_effect_has_a_delete_and_an_insert_for_an_update(
    old_cols: Seq<char>,
    raw: Seq<char>,
    new_cols: Seq<char>,
)
    ensures
        ({
            let t = pairs_sql(old_cols, raw, new_cols);
            &&& text::occurs(
                t,
                "SELECT c.__pk_hash_old AS __pgt_row_id,\n       'D'::TEXT AS __pgt_action,\n       "@
                    + old_cols + "\nFROM ("@,
            )
            &&& text::occurs(
                t,
                "FROM "@ + raw
                    + " s\n  WHERE s.action != 'I' AND s.__first_action != 'I'\n  ORDER BY s.__pk_hash, s.change_id\n"@,
            )
            &&& text::occurs(
                t,
                "SELECT c.__pk_hash AS __pgt_row_id,\n       'I'::TEXT AS __pgt_action,\n       "@
                    + new_cols + "\nFROM (\n  SELECT DISTINCT ON (s.__pk_hash)\n"@,
            )
            &&& text::occurs(
                t,
                "FROM "@ + raw
                    + " s\n  WHERE s.action != 'D' AND s.__last_action != 'D'\n  ORDER BY s.__pk_hash, s.change_id DESC\n"@,
            )
        }),
{
    reveal_strlit("FROM ");
    reveal_strlit("\nFROM (");
    reveal_strlit("\nFROM (\n  SELECT DISTINCT ON (s.__pk_hash)\n");
    reveal_strlit("\nFROM (\n  SELECT DISTINCT ON (s.__pk_hash)\n         s.*\n  FROM ");
    reveal_strlit("SELECT c.__pk_hash AS __pgt_row_id,\n       'I'::TEXT AS __pgt_action,\n       ");
    reveal_strlit("SELECT c.__pk_hash_old AS __pgt_row_id,\n       'D'::TEXT AS __pgt_action,\n       ");
    reveal_strlit(" s\n  WHERE s.action != 'I' AND s.__first_action != 'I'\n  ORDER BY s.__pk_hash, s.change_id\n");
    reveal_strlit(" s\n  WHERE s.action != 'D' AND s.__last_action != 'D'\n  ORDER BY s.__pk_hash, s.change_id DESC\n");
    reveal_strlit(" s\n  WHERE s.action != 'D' AND s.__last_action != 'D'\n  ORDER BY s.__pk_hash, s.change_id DESC\n) c");
    reveal_strlit(" s\n  WHERE s.action != 'I' AND s.__first_action != 'I'\n  ORDER BY s.__pk_hash, s.change_id\n) c\n\nUNION ALL\n\n-- INSERT events: row exists after (last_action != 'D')\n-- Uses new_* columns from the latest non-DELETE change per PK.\nSELECT c.__pk_hash AS __pgt_row_id,\n       'I'::TEXT AS __pgt_action,\n       ");
    reveal_strlit("-- DELETE events: row existed before (first_action != 'I')\n-- Uses old_* columns from the earliest non-INSERT change per PK.\n-- __pk_hash_old ensures the row_id matches the existing ST row,\n-- which is critical for keyless tables where all-column hash changes.\nSELECT c.__pk_hash_old AS __pgt_row_id,\n       'D'::TEXT AS __pgt_action,\n       ");
    let t = pairs_sql(old_cols, raw, new_cols);
    let f0 = "SELECT c.__pk_hash_old AS __pgt_row_id,\n       'D'::TEXT AS __pgt_action,\n       "@
        + old_cols + "\nFROM ("@;
    let k0 = 261int;
    assert(t.subrange(k0, k0 + f0.len()) =~= f0);
    assert(text::occurs_at(t, f0, k0));
    let f1 = "FROM "@ + raw
        + " s\n  WHERE s.action != 'I' AND s.__first_action != 'I'\n  ORDER BY s.__pk_hash, s.change_id\n"@;
    let k1 = 400int + old_cols.len();
    assert(t.subrange(k1, k1 + f1.len()) =~= f1);
    assert(text::occurs_at(t, f1, k1));
    let f2 = "SELECT c.__pk_hash AS __pgt_row_id,\n       'I'::TEXT AS __pgt_action,\n       "@
        + new_cols + "\nFROM (\n  SELECT DISTINCT ON (s.__pk_hash)\n"@;
    let k2 = 632int + old_cols.len() + raw.len();
    assert(t.subrange(k2, k2 + f2.len()) =~= f2);
    assert(text::occurs_at(t, f2, k2));
    let f3 = "FROM "@ + raw
        + " s\n  WHERE s.action != 'D' AND s.__last_action != 'D'\n  ORDER BY s.__pk_hash, s.change_id DESC\n"@;
    let k3 = 767int + old_cols.len() + raw.len() + new_cols.len();
    assert(t.subrange(k3, k3 + f3.len()) =~= f3);
    assert(text::occurs_at(t, f3, k3));
}

// ── What the rows are ──────────────────────────────────────────────────

/// Changes are counted under the hash of their key.
pub proof fn changes_are_counted_under_their_key(
    change_table: Seq<char>,
    filter: Seq<char>,
)
    ensures
        ({
            let t = pk_stats_sql(change_table, filter);
            &&& text::occurs(
                t,
                "SELECT c.pk_hash AS __pk_hash, count(*) AS cnt"@,
            )
        }),
{
    reveal_strlit(" c\nWHERE ");
    reveal_strlit("\nGROUP BY c.pk_hash");
    reveal_strlit("SELECT c.pk_hash AS __pk_hash, count(*) AS cnt");
    reveal_strlit("SELECT c.pk_hash AS __pk_hash, count(*) AS cnt\nFROM ");
    let t = pk_stats_sql(change_table, filter);
    let f0 = "SELECT c.pk_hash AS __pk_hash, count(*) AS cnt"@;
    let k0 = 0int;
    assert(t.subrange(k0, k0 + f0.len()) =~= f0);
    assert(text::occurs_at(t, f0, k0));
}

/// A change keeps the hash of its key, its action and its number.
pub proof fn single_changes_keep_key_action_and_number(
    old_hash: Seq<char>,
    values: Seq<char>,
    change_table: Seq<char>,
    pk_stats: Seq<char>,
    filter: Seq<char>,
)
    ensures
        ({
            let t = single_sql(old_hash, values, change_table, pk_stats, filter);
            &&& text::occurs(
                t,
                "SELECT c.pk_hash AS __pk_hash,"@,
            )
            &&& text::occurs(
                t,
                "c.action,\n       c.change_id,"@,
            )
        }),
{
    reveal_strlit(" c\nJOIN ");
    reveal_strlit("c.action,\n       c.change_id,");
    reveal_strlit("SELECT c.pk_hash AS __pk_hash,");
    reveal_strlit("SELECT c.pk_hash AS __pk_hash,\n       ");
    reveal_strlit(" p ON p.__pk_hash = c.pk_hash AND p.cnt = 1\nWHERE ");
    reveal_strlit(" AS __pk_hash_old,\n       c.action,\n       c.change_id,\n       ");
    reveal_strlit(",\n       c.action AS __first_action,\n       c.action AS __last_action\nFROM ");
    let t = single_sql(old_hash, values, change_table, pk_stats, filter);
    let f0 = "SELECT c.pk_hash AS __pk_hash,"@;
    let k0 = 0int;
    assert(t.subrange(k0, k0 + f0.len()) =~= f0);
    assert(text::occurs_at(t, f0, k0));
    let f1 = "c.action,\n       c.change_id,"@;
    let k1 = 64int + old_hash.len();
    assert(t.subrange(k1, k1 + f1.len()) =~= f1);
    assert(text::occurs_at(t, f1, k1));
}

/// Each change keeps the hash of its key, its action, its number and its
/// values.
pub proof fn several_changes_keep_key_action_and_number(
    old_hash: Seq<char>,
    values: Seq<char>,
    change_table: Seq<char>,
    pk_stats: Seq<char>,
    filter: Seq<char>,
)
    ensures
        ({
            let t = multi_sql(old_hash, values, change_table, pk_stats, filter);
            &&& text::occurs(
                t,
                "SELECT c.pk_hash AS __pk_hash,"@,
            )
            &&& text::occurs(
                t,
                "c.action,\n       c.change_id,\n       "@ + values + ","@,
            )
        }),
{
    reveal_strlit(",");
    reveal_strlit(" c\nJOIN ");
    reveal_strlit("SELECT c.pk_hash AS __pk_hash,");
    reveal_strlit("c.action,\n       c.change_id,\n       ");
    reveal_strlit("SELECT c.pk_hash AS __pk_hash,\n       ");
    reveal_strlit(" p ON p.__pk_hash = c.pk_hash AND p.cnt > 1\nWHERE ");
    reveal_strlit(" AS __pk_hash_old,\n       c.action,\n       c.change_id,\n       ");
    reveal_strlit(",\n       FIRST_VALUE(c.action) OVER (\n           PARTITION BY c.pk_hash ORDER BY c.change_id\n       ) AS __first_action,\n       LAST_VALUE(c.action) OVER (\n           PARTITION BY c.pk_hash ORDER BY c.change_id\n           ROWS BETWEEN UNBOUNDED PRECEDING AND UNBOUNDED FOLLOWING\n       ) AS __last_action\nFROM ");
    let t = multi_sql(old_hash, values, change_table, pk_stats, filter);
    let f0 = "SELECT c.pk_hash AS __pk_hash,"@;
    let k0 = 0int;
    assert(t.subrange(k0, k0 + f0.len()) =~= f0);
    assert(text::occurs_at(t, f0, k0));
    let f1 = "c.action,\n       c.change_id,\n       "@ + values + ","@;
    let k1 = 64int + old_hash.len();
    assert(t.subrange(k1, k1 + f1.len()) =~= f1);
    assert(text::occurs_at(t, f1, k1));
}

/// One row is deleted for each old key.
pub proof fn one_row_is_deleted_for_each_old_key(
    old_cols: Seq<char>,
    raw: Seq<char>,
    new_cols: Seq<char>,
)
    ensures
        ({
            let t = dedup_sql(old_cols, raw, new_cols);
            &&& text::occurs(
                t,
                "SELECT DISTINCT ON (s.__pk_hash_old)\n         s.*"@,
            )
        }),
{
    reveal_strlit("SELECT DISTINCT ON (s.__pk_hash_old)\n         s.*");
    reveal_strlit("\nFROM (\n  SELECT DISTINCT ON (s.__pk_hash)\n         s.*\n  FROM ");
    reveal_strlit("\nFROM (\n  SELECT DISTINCT ON (s.__pk_hash_old)\n         s.*\n  FROM ");
    reveal_strlit(" s\n  WHERE s.__last_action != 'D'\n  ORDER BY s.__pk_hash, s.change_id DESC\n) c");
    reveal_strlit(" s\n  WHERE s.__first_action != 'I'\n    AND (s.__last_action = 'D' OR s.__pk_hash_old != s.__pk_hash)\n  ORDER BY s.__pk_hash_old, s.change_id\n) c\n\nUNION ALL\n\n-- INSERT events: row exists after (handles inserts + updates)\nSELECT c.__pk_hash AS __pgt_row_id,\n       'I'::TEXT AS __pgt_action,\n       ");
    reveal_strlit("-- DELETE events: row existed before AND was truly deleted, OR\n-- the row hash changed (keyless table update — old row must be removed).\n-- For PK-based tables __pk_hash_old == __pk_hash always, so the OR\n-- clause never fires → no regression.\nSELECT c.__pk_hash_old AS __pgt_row_id,\n       'D'::TEXT AS __pgt_action,\n       ");
    let t = dedup_sql(old_cols, raw, new_cols);
    let f0 = "SELECT DISTINCT ON (s.__pk_hash_old)\n         s.*"@;
    let k0 = 335int + old_cols.len();
    assert(t.subrange(k0, k0 + f0.len()) =~= f0);
    assert(text::occurs_at(t, f0, k0));
}

/// One row is deleted for each key.
pub proof fn one_row_is_deleted_for_each_key(
    old_cols: Seq<char>,
    raw: Seq<char>,
    new_cols: Seq<char>,
)
    ensures
        ({
            let t = pairs_sql(old_cols, raw, new_cols);
            &&& text::occurs(
                t,
                "SELECT DISTINCT ON (s.__pk_hash)\n         s.*"@,
            )
        }),
{
    reveal_strlit("SELECT DISTINCT ON (s.__pk_hash)\n         s.*");
    reveal_strlit("\nFROM (\n  SELECT DISTINCT ON (s.__pk_hash)\n         s.*\n  FROM ");
    reveal_strlit(" s\n  WHERE s.action != 'D' AND s.__last_action != 'D'\n  ORDER BY s.__pk_hash, s.change_id DESC\n) c");
    reveal_strlit(" s\n  WHERE s.action != 'I' AND s.__first_action != 'I'\n  ORDER BY s.__pk_hash, s.change_id\n) c\n\nUNION ALL\n\n-- INSERT events: row exists after (last_action != 'D')\n-- Uses new_* columns from the latest non-DELETE change per PK.\nSELECT c.__pk_hash AS __pgt_row_id,\n       'I'::TEXT AS __pgt_action,\n       ");
    reveal_strlit("-- DELETE events: row existed before (first_action != 'I')\n-- Uses old_* columns from the earliest non-INSERT change per PK.\n-- __pk_hash_old ensures the row_id matches the existing ST row,\n-- which is critical for keyless tables where all-column hash changes.\nSELECT c.__pk_hash_old AS __pgt_row_id,\n       'D'::TEXT AS __pgt_action,\n       ");
    let t = pairs_sql(old_cols, raw, new_cols);
    let f0 = "SELECT DISTINCT ON (s.__pk_hash)\n         s.*"@;
    let k0 = 352int + old_cols.len();
    assert(t.subrange(k0, k0 + f0.len()) =~= f0);
    assert(text::occurs_at(t, f0, k0));
}

} // verus!
