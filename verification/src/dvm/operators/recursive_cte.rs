//! Recursive common table expressions.
//!
//! One of three strategies is chosen.
//!
//! - Where the storage table does not have the columns of the expression, the
//!   result is computed anew and compared with the storage table.
//! - Otherwise, where the sources of both terms only have inserts, the new rows
//!   are propagated through the recursive term until nothing is added.
//! - Otherwise deletions are propagated too, through the storage table. What
//!   can be derived anew from the rows that are left is kept.
//!
//! A recursive term that refers to the expression more than once is refused.

use vstd::prelude::*;
use vstd::string::*;

use crate::dvm::diff;
use crate::dvm::diff::{col_list, equate_cols, quote_ident, wrap_cols};
use crate::dvm::diff::{CteKind, Delta, DiffContext, DiffEnv, DiffResult, DiffState, Outcome};
use crate::dvm::engine;
use crate::dvm::operators::recursive_sql;
use crate::dvm::operators::recursive_sql::{
    collect_self_ref_aliases, generate_cascade_propagation, generate_nonlinear_seeds,
    generate_query_sql, generate_seed_from_existing,
};
use crate::dvm::parser::OpTree;
use crate::error::{ErrorView, PgTrickleError};
use crate::sql_builder;
use crate::text;
use crate::text::{copy_texts, join_texts, texts_eq, usize_text};

verus! {

// ── Queries ────────────────────────────────────────────────────────────

/// Whether a change buffer has updates or deletes after a log position and up
/// to another.
pub open spec fn deletes_present_sql(
    change_table: Seq<char>,
    prev: Seq<char>,
    new: Seq<char>,
) -> Seq<char> {
    "SELECT EXISTS(SELECT 1 FROM "@ + change_table
        + " WHERE (action = 'D' OR action = 'U') AND lsn > '"@ + prev
        + "'::pg_lsn AND lsn <= '"@ + new + "'::pg_lsn)"@
}

/// Whether a change buffer has updates or deletes after a log position and up
/// to another.
fn deletes_present_query(change_table: &str, prev: &str, new: &str) -> (r: String)
    ensures
        r@ == deletes_present_sql(change_table@, prev@, new@),
{
    let mut r = "SELECT EXISTS(SELECT 1 FROM ".to_string();
    r.append(change_table);
    r.append(" WHERE (action = 'D' OR action = 'U') AND lsn > '");
    r.append(prev);
    r.append("'::pg_lsn AND lsn <= '");
    r.append(new);
    r.append("'::pg_lsn)");
    r
}

/// The inserted rows of a delta.
pub open spec fn inserted_sql(cols: Seq<char>, delta: Seq<char>) -> Seq<char> {
    "SELECT "@ + cols + " FROM "@ + delta + " WHERE __pgs_action = 'I'"@
}

/// The inserted rows of a delta.
fn inserted_query(cols: &str, delta: &str) -> (r: String)
    ensures
        r@ == inserted_sql(cols@, delta@),
{
    let mut r = "SELECT ".to_string();
    r.append(cols);
    r.append(" FROM ");
    r.append(delta);
    r.append(" WHERE __pgs_action = 'I'");
    r
}

/// The deleted rows of a delta.
pub open spec fn deleted_sql(cols: Seq<char>, delta: Seq<char>) -> Seq<char> {
    "SELECT "@ + cols + " FROM "@ + delta + " WHERE __pgs_action = 'D'"@
}

/// The deleted rows of a delta.
fn deleted_query(cols: &str, delta: &str) -> (r: String)
    ensures
        r@ == deleted_sql(cols@, delta@),
{
    let mut r = "SELECT ".to_string();
    r.append(cols);
    r.append(" FROM ");
    r.append(delta);
    r.append(" WHERE __pgs_action = 'D'");
    r
}

/// Derived rows as inserts, with row ids.
pub open spec fn new_rows_sql(cols: Seq<char>, delta: Seq<char>) -> Seq<char> {
    "SELECT pgstream.pg_stream_hash(row_to_json(sub)::text || '/' || row_number() OVER ()::text) AS __pgs_row_id,\n\
        'I'::text AS __pgs_action,\n"@ + cols + "\n\
        FROM "@ + delta + " sub"@
}

/// Derived rows as inserts, with row ids.
fn new_rows_query(cols: &str, delta: &str) -> (r: String)
    ensures
        r@ == new_rows_sql(cols@, delta@),
{
    let mut r = "SELECT pgstream.pg_stream_hash(row_to_json(sub)::text || '/' || row_number() OVER ()::text) AS __pgs_row_id,\n\
        'I'::text AS __pgs_action,\n".to_string();
    r.append(cols);
    r.append("\n\
        FROM ");
    r.append(delta);
    r.append(" sub");
    r
}

/// The recursive expression itself.
pub open spec fn fixpoint_sql(
    alias: Seq<char>,
    base: Seq<char>,
    union: Seq<char>,
    rec: Seq<char>,
    cols: Seq<char>,
) -> Seq<char> {
    "WITH RECURSIVE "@ + alias + " AS (\n"@ + base + "\n"@ + union + "\n"@ + rec + "\n\
        )\n\
        SELECT "@ + cols + " FROM "@ + alias
}

/// The recursive expression itself.
fn fixpoint_query(alias: &str, base: &str, union: &str, rec: &str, cols: &str) -> (r: String)
    ensures
        r@ == fixpoint_sql(alias@, base@, union@, rec@, cols@),
{
    let mut r = "WITH RECURSIVE ".to_string();
    r.append(alias);
    r.append(" AS (\n");
    r.append(base);
    r.append("\n");
    r.append(union);
    r.append("\n");
    r.append(rec);
    r.append("\n\
        )\n\
        SELECT ");
    r.append(cols);
    r.append(" FROM ");
    r.append(alias);
    r
}

/// The rows of the defining query with row ids.
pub open spec fn recomputed_sql(query: Seq<char>) -> Seq<char> {
    "SELECT pgstream.pg_stream_hash(row_to_json(sub)::text || '/' || row_number() OVER ()::text) AS __pgs_row_id, sub.*\n\
        FROM ("@ + query + ") sub"@
}

/// The rows of the defining query with row ids.
fn recomputed_query(query: &str) -> (r: String)
    ensures
        r@ == recomputed_sql(query@),
{
    let mut r = "SELECT pgstream.pg_stream_hash(row_to_json(sub)::text || '/' || row_number() OVER ()::text) AS __pgs_row_id, sub.*\n\
        FROM (".to_string();
    r.append(query);
    r.append(") sub");
    r
}

/// Rows that are computed and not stored.
pub open spec fn appeared_sql(cols: Seq<char>, recomp: Seq<char>, storage: Seq<char>) -> Seq<char> {
    "SELECT n.__pgs_row_id, 'I'::text AS __pgs_action, "@ + cols + "\n\
        FROM "@ + recomp + " n\n\
        LEFT JOIN "@ + storage + " s ON s.__pgs_row_id = n.__pgs_row_id\n\
        WHERE s.__pgs_row_id IS NULL"@
}

/// Rows that are computed and not stored.
fn appeared_query(cols: &str, recomp: &str, storage: &str) -> (r: String)
    ensures
        r@ == appeared_sql(cols@, recomp@, storage@),
{
    let mut r = "SELECT n.__pgs_row_id, 'I'::text AS __pgs_action, ".to_string();
    r.append(cols);
    r.append("\n\
        FROM ");
    r.append(recomp);
    r.append(" n\n\
        LEFT JOIN ");
    r.append(storage);
    r.append(" s ON s.__pgs_row_id = n.__pgs_row_id\n\
        WHERE s.__pgs_row_id IS NULL");
    r
}

/// Rows that are stored and not computed.
pub open spec fn vanished_sql(cols: Seq<char>, storage: Seq<char>, recomp: Seq<char>) -> Seq<char> {
    "SELECT s.__pgs_row_id, 'D'::text AS __pgs_action, "@ + cols + "\n\
        FROM "@ + storage + " s\n\
        LEFT JOIN "@ + recomp + " n ON n.__pgs_row_id = s.__pgs_row_id\n\
        WHERE n.__pgs_row_id IS NULL"@
}

/// Rows that are stored and not computed.
fn vanished_query(cols: &str, storage: &str, recomp: &str) -> (r: String)
    ensures
        r@ == vanished_sql(cols@, storage@, recomp@),
{
    let mut r = "SELECT s.__pgs_row_id, 'D'::text AS __pgs_action, ".to_string();
    r.append(cols);
    r.append("\n\
        FROM ");
    r.append(storage);
    r.append(" s\n\
        LEFT JOIN ");
    r.append(recomp);
    r.append(" n ON n.__pgs_row_id = s.__pgs_row_id\n\
        WHERE n.__pgs_row_id IS NULL");
    r
}

/// Inserts and deletes together.
pub open spec fn both_changes_sql(ins: Seq<char>, del: Seq<char>) -> Seq<char> {
    "SELECT * FROM "@ + ins + "\n\
        UNION ALL\n\
        SELECT * FROM "@ + del
}

/// Inserts and deletes together.
fn both_changes_query(ins: &str, del: &str) -> (r: String)
    ensures
        r@ == both_changes_sql(ins@, del@),
{
    let mut r = "SELECT * FROM ".to_string();
    r.append(ins);
    r.append("\n\
        UNION ALL\n\
        SELECT * FROM ");
    r.append(del);
    r
}

/// Deleted rows and the stored rows that derive from them.
pub open spec fn del_cascade_sql(
    cols: Seq<char>,
    seed: Seq<char>,
    propagation: Seq<char>,
) -> Seq<char> {
    "SELECT "@ + cols + " FROM "@ + seed + "\n\
        UNION ALL\n"@ + propagation
}

/// Deleted rows and the stored rows that derive from them.
fn del_cascade_query(cols: &str, seed: &str, propagation: &str) -> (r: String)
    ensures
        r@ == del_cascade_sql(cols@, seed@, propagation@),
{
    let mut r = "SELECT ".to_string();
    r.append(cols);
    r.append(" FROM ");
    r.append(seed);
    r.append("\n\
        UNION ALL\n");
    r.append(propagation);
    r
}

/// Rows of the cascade that can still be derived.
pub open spec fn rederived_sql(cols: Seq<char>, cascade: Seq<char>, full: Seq<char>) -> Seq<char> {
    "SELECT "@ + cols + " FROM "@ + cascade + "\n\
        INTERSECT\n\
        SELECT "@ + cols + " FROM "@ + full
}

/// Rows of the cascade that can still be derived.
fn rederived_query(cols: &str, cascade: &str, full: &str) -> (r: String)
    ensures
        r@ == rederived_sql(cols@, cascade@, full@),
{
    let mut r = "SELECT ".to_string();
    r.append(cols);
    r.append(" FROM ");
    r.append(cascade);
    r.append("\n\
        INTERSECT\n\
        SELECT ");
    r.append(cols);
    r.append(" FROM ");
    r.append(full);
    r
}

/// Rows of the cascade that can no longer be derived.
pub open spec fn net_deleted_sql(cols: Seq<char>, cascade: Seq<char>, kept: Seq<char>) -> Seq<char> {
    "SELECT "@ + cols + " FROM "@ + cascade + "\n\
        EXCEPT\n\
        SELECT "@ + cols + " FROM "@ + kept
}

/// Rows of the cascade that can no longer be derived.
fn net_deleted_query(cols: &str, cascade: &str, kept: &str) -> (r: String)
    ensures
        r@ == net_deleted_sql(cols@, cascade@, kept@),
{
    let mut r = "SELECT ".to_string();
    r.append(cols);
    r.append(" FROM ");
    r.append(cascade);
    r.append("\n\
        EXCEPT\n\
        SELECT ");
    r.append(cols);
    r.append(" FROM ");
    r.append(kept);
    r
}

/// Deletes with the row ids of the storage table.
pub open spec fn stored_deletes_sql(
    cols: Seq<char>,
    net: Seq<char>,
    storage: Seq<char>,
    matching: Seq<char>,
) -> Seq<char> {
    "SELECT s.__pgs_row_id, 'D'::text AS __pgs_action, "@ + cols + "\n\
        FROM "@ + net + " d\n\
        JOIN "@ + storage + " s ON "@ + matching
}

/// Deletes with the row ids of the storage table.
fn stored_deletes_query(cols: &str, net: &str, storage: &str, matching: &str) -> (r: String)
    ensures
        r@ == stored_deletes_sql(cols@, net@, storage@, matching@),
{
    let mut r = "SELECT s.__pgs_row_id, 'D'::text AS __pgs_action, ".to_string();
    r.append(cols);
    r.append("\n\
        FROM ");
    r.append(net);
    r.append(" d\n\
        JOIN ");
    r.append(storage);
    r.append(" s ON ");
    r.append(matching);
    r
}

// ── Choice of strategy ─────────────────────────────────────────────────

/// Whether one of some sources has updates or deletes.
pub open spec fn any_deletes(env: DiffEnv, oids: Seq<u32>) -> bool {
    exists|i: int|
        0 <= i < oids.len() && env.sources_with_deletes@.contains(#[trigger] oids[i])
}

/// Whether the storage table has just the columns of the expression.
pub open spec fn columns_match(env: DiffEnv, columns: Seq<Seq<char>>) -> bool {
    match env.st_user_columns {
        Some(cols) => text::texts(cols@) == columns,
        None => false,
    }
}

/// The text that finds out whether a source has updates or deletes.
///
/// Its answers make up `sources_with_deletes`.  The interval goes from the last
/// refresh to this one, whether or not the context leaves placeholders.
pub fn delete_check_sql(ctx: &DiffContext, oid: u32) -> (r: String)
    ensures
        r@ == deletes_present_sql(
            ctx.env().change_table(oid),
            ctx.env().prev_frontier.lsn(oid),
            ctx.env().new_frontier.lsn(oid),
        ),
{
    deletes_present_query(
        ctx.change_table(oid).as_str(),
        ctx.prev_frontier.get_lsn(oid).as_str(),
        ctx.new_frontier.get_lsn(oid).as_str(),
    )
}

/// Whether one of some sources has updates or deletes.
pub fn check_for_delete_changes(ctx: &DiffContext, source_oids: &[u32]) -> (r: bool)
    ensures
        r == any_deletes(ctx.env(), source_oids@),
{
    let mut i: usize = 0;
    while i < source_oids.len()
        invariant
            i <= source_oids.len(),
            forall|k: int|
                0 <= k < i ==> !ctx.env().sources_with_deletes@.contains(
                    #[trigger] source_oids@[k],
                ),
        decreases source_oids.len() - i,
    {
        let mut j: usize = 0;
        while j < ctx.sources_with_deletes.len()
            invariant
                i < source_oids.len(),
                j <= ctx.sources_with_deletes.len(),
                forall|k: int|
                    0 <= k < j ==> ctx.sources_with_deletes@[k] != source_oids@[i as int],
            decreases ctx.sources_with_deletes.len() - j,
        {
            if ctx.sources_with_deletes[j] == source_oids[i] {
                assert(ctx.env().sources_with_deletes@.contains(source_oids@[i as int]));
                return true;
            }
            j += 1;
        }
        i += 1;
    }
    false
}

/// Why a recursive term with several self-references is refused.
pub open spec fn nonlinear_text(alias: Seq<char>, refs: Seq<Seq<char>>) -> Seq<char> {
    "Non-linear recursive CTE \""@ + alias + "\" has "@ + text::decimal(refs.len())
        + " self-references ("@ + text::join(refs, ", "@)
        + "). PostgreSQL restricts the recursive term to reference the CTE at most once. Rewrite using a linear form (single self-reference) instead."@
}

/// The error for a recursive term with several self-references.
fn nonlinear_refused(alias: &str, refs: &Vec<String>) -> (r: PgTrickleError)
    ensures
        r@ == ErrorView::UnsupportedOperator(nonlinear_text(alias@, text::texts(refs@))),
{
    let mut m = "Non-linear recursive CTE \"".to_string();
    m.append(alias);
    m.append("\" has ");
    m.append(usize_text(refs.len()).as_str());
    m.append(" self-references (");
    m.append(join_texts(refs, ", ").as_str());
    m.append(
        "). PostgreSQL restricts the recursive term to reference the CTE at most once. Rewrite using a linear form (single self-reference) instead.",
    );
    PgTrickleError::UnsupportedOperator(m)
}

/// A name made of a prefix and the alias of the expression.
pub open spec fn named(prefix: Seq<char>, alias: Seq<char>) -> Seq<char> {
    prefix + alias
}

/// A name made of a prefix and the alias of the expression.
fn build_named(prefix: &str, alias: &str) -> (r: String)
    ensures
        r@ == named(prefix@, alias@),
{
    let mut r = prefix.to_string();
    r.append(alias);
    r
}

/// A CTE name for a prefix and the alias of the expression.
fn next_named(ctx: &mut DiffContext, prefix: &str, alias: &str) -> (r: String)
    ensures
        final(ctx).env() == old(ctx).env(),
        final(ctx).state() == old(ctx).state().bumped(),
        r@ == old(ctx).state().fresh(named(prefix@, alias@)),
{
    let name = build_named(prefix, alias);
    ctx.next_cte_name(name.as_str())
}

// ── Propagation of inserts ─────────────────────────────────────────────

/// The members of the recursive expression that derives new rows: the
/// inserted rows of the base term, the rows that inserts derive with stored
/// ones, the seeds for several self-references, and the recursive term.
pub open spec fn insert_members(
    inserted: Seq<char>,
    existing: Option<Seq<char>>,
    seeds: Seq<Seq<char>>,
    propagation: Seq<char>,
) -> Seq<Seq<char>> {
    match existing {
        Some(e) => (seq![inserted, e] + seeds).push(propagation),
        None => (seq![inserted] + seeds).push(propagation),
    }
}

/// The outcome of propagating inserts.
///
/// The name of the recursive CTE is given out even where there is no query
/// for the recursive term.
pub open spec fn inserts_outcome(
    env: DiffEnv,
    st: DiffState,
    prefixes: (Seq<char>, Seq<char>),
    alias: Seq<char>,
    columns: Seq<Seq<char>>,
    base_cte: Seq<char>,
    recursive: OpTree,
    storage: Seq<char>,
) -> Outcome {
    let cols = diff::cols_text(columns);
    let delta = st.fresh(named(prefixes.0, alias));
    let st1 = st.bumped();
    match recursive_sql::change_query(env, recursive, storage) {
        Err(e) => (st1, Err(e)),
        Ok(existing) => match recursive_sql::nonlinear_seeds(
            recursive,
            recursive_sql::self_ref_aliases(recursive),
            base_cte,
            storage,
            columns,
        ) {
            Err(e) => (st1, Err(e)),
            Ok(seeds) => match recursive_sql::query(recursive, Some(delta)) {
                Err(e) => (st1, Err(e)),
                Ok(propagation) => {
                    let members = insert_members(
                        inserted_sql(cols, base_cte),
                        existing,
                        seeds,
                        propagation,
                    );
                    let st2 = st1.with_cte(
                        delta,
                        text::join(members, "\nUNION ALL\n"@),
                        CteKind::Recursive,
                    );
                    (
                        st2.step(named(prefixes.1, alias), new_rows_sql(cols, delta)),
                        Ok(
                            Delta {
                                cte_name: st2.fresh(named(prefixes.1, alias)),
                                columns,
                                is_deduplicated: false,
                            },
                        ),
                    )
                },
            },
        },
    }
}

/// The members of the recursive expression that derives new rows.
fn build_insert_members(
    inserted: String,
    existing: Option<String>,
    seeds: Vec<String>,
    propagation: String,
) -> (r: Vec<String>)
    ensures
        text::texts(r@) == insert_members(
            inserted@,
            text::opt_text(existing),
            text::texts(seeds@),
            propagation@,
        ),
{
    let mut r: Vec<String> = Vec::new();
    r.push(inserted);
    match existing {
        Some(e) => {
            r.push(e);
            assert(text::texts(r@) =~= seq![inserted@, e@]);
        },
        None => {
            assert(text::texts(r@) =~= seq![inserted@]);
        },
    }
    let ghost first = text::texts(r@);
    let mut i: usize = 0;
    while i < seeds.len()
        invariant
            i <= seeds.len(),
            text::texts(r@) =~= first + text::texts(seeds@).take(i as int),
        decreases seeds.len() - i,
    {
        let ghost before = r@;
        r.push(seeds[i].clone());
        assert(text::texts(r@) =~= text::texts(before).push(text::texts(seeds@)[i as int]));
        i += 1;
    }
    assert(text::texts(seeds@).take(seeds@.len() as int) =~= text::texts(seeds@));
    let ghost before = r@;
    r.push(propagation);
    assert(text::texts(r@) =~= text::texts(before).push(propagation@));
    r
}

/// Adds the propagation of inserts to the chain.
fn add_inserts(
    ctx: &mut DiffContext,
    prefixes: (&str, &str),
    alias: &str,
    columns: &Vec<String>,
    base_cte: &str,
    recursive: &OpTree,
    st_table: &str,
) -> (r: Result<DiffResult, PgTrickleError>)
    ensures
        final(ctx).env() == old(ctx).env(),
        diff::yields(
            *final(ctx),
            r,
            inserts_outcome(
                old(ctx).env(),
                old(ctx).state(),
                (prefixes.0@, prefixes.1@),
                alias@,
                text::texts(columns@),
                base_cte@,
                *recursive,
                st_table@,
            ),
        ),
{
    let cols = col_list(columns.as_slice());
    let delta = next_named(ctx, prefixes.0, alias);
    let existing = match generate_seed_from_existing(ctx, recursive, st_table) {
        Ok(s) => s,
        Err(e) => {
            return Err(e);
        },
    };
    let aliases = collect_self_ref_aliases(recursive);
    let seeds = match generate_nonlinear_seeds(
        recursive,
        &aliases,
        base_cte,
        st_table,
        columns.as_slice(),
    ) {
        Ok(s) => s,
        Err(e) => {
            return Err(e);
        },
    };
    let propagation = match generate_query_sql(recursive, Some(delta.as_str())) {
        Ok(s) => s,
        Err(e) => {
            return Err(e);
        },
    };
    let members = build_insert_members(
        inserted_query(cols.as_str(), base_cte),
        existing,
        seeds,
        propagation,
    );
    ctx.add_recursive_cte(delta.clone(), join_texts(&members, "\nUNION ALL\n"));

    let cte_name = next_named(ctx, prefixes.1, alias);
    ctx.add_cte(cte_name.clone(), new_rows_query(cols.as_str(), delta.as_str()));
    Ok(DiffResult { cte_name, columns: copy_texts(columns), is_deduplicated: false })
}

/// The failure of a strategy that needs the storage table.
pub open spec fn no_storage(strategy: Seq<char>) -> ErrorView {
    ErrorView::InternalError("st_qualified_name required for "@ + strategy)
}

/// The storage table, or the failure of a strategy that needs it.
fn required_storage(ctx: &DiffContext, strategy: &str) -> (r: Result<String, PgTrickleError>)
    ensures
        match ctx.env().st_qualified_name {
            Some(name) => r is Ok && r->Ok_0@ == name@,
            None => r is Err && r->Err_0@ == no_storage(strategy@),
        },
{
    match &ctx.st_qualified_name {
        Some(name) => Ok(name.clone()),
        None => {
            let mut m = "st_qualified_name required for ".to_string();
            m.append(strategy);
            Err(PgTrickleError::InternalError(m))
        },
    }
}

/// The outcome of propagating inserts where there are only inserts.
pub open spec fn semi_naive_outcome(
    env: DiffEnv,
    st: DiffState,
    alias: Seq<char>,
    columns: Seq<Seq<char>>,
    base_cte: Seq<char>,
    recursive: OpTree,
) -> Outcome {
    match env.st_qualified_name {
        Some(storage) => inserts_outcome(
            env,
            st,
            ("rc_snv_"@, "rc_final_"@),
            alias,
            columns,
            base_cte,
            recursive,
            storage@,
        ),
        None => (st, Err(no_storage("recursive CTE semi-naive diff"@))),
    }
}

/// The delta of a recursive expression whose sources only have inserts.
///
/// A recursive CTE starts from the inserted rows of the base term and from
/// what inserts derive together with stored rows, and applies the recursive
/// term to what it has derived.
pub fn generate_semi_naive_delta(
    ctx: &mut DiffContext,
    alias: &str,
    columns: &Vec<String>,
    base_delta: &DiffResult,
    recursive: &OpTree,
) -> (r: Result<DiffResult, PgTrickleError>)
    ensures
        final(ctx).env() == old(ctx).env(),
        diff::yields(
            *final(ctx),
            r,
            semi_naive_outcome(
                old(ctx).env(),
                old(ctx).state(),
                alias@,
                text::texts(columns@),
                base_delta@.cte_name,
                *recursive,
            ),
        ),
{
    let storage = match required_storage(ctx, "recursive CTE semi-naive diff") {
        Ok(s) => s,
        Err(e) => {
            return Err(e);
        },
    };
    add_inserts(
        ctx,
        ("rc_snv_", "rc_final_"),
        alias,
        columns,
        base_delta.cte_name.as_str(),
        recursive,
        storage.as_str(),
    )
}

// ── Recomputation ──────────────────────────────────────────────────────

/// The recursive expression itself.
pub open spec fn fixpoint(
    alias: Seq<char>,
    columns: Seq<Seq<char>>,
    base: OpTree,
    union: Seq<char>,
    recursive: OpTree,
) -> recursive_sql::Sql {
    match recursive_sql::query(base, None) {
        Err(e) => Err(e),
        Ok(b) => match recursive_sql::query(recursive, Some(alias)) {
            Err(e) => Err(e),
            Ok(rec) => Ok(
                fixpoint_sql(
                    sql_builder::ident_text(alias),
                    b,
                    union,
                    rec,
                    diff::cols_text(columns),
                ),
            ),
        },
    }
}

/// The query that computes the expression anew and its columns: the defining
/// query where it and its columns are known, else the terms of the expression.
pub open spec fn recomputation(
    env: DiffEnv,
    alias: Seq<char>,
    columns: Seq<Seq<char>>,
    base: OpTree,
    recursive: OpTree,
    union_all: bool,
) -> Result<(Seq<char>, Seq<Seq<char>>), ErrorView> {
    match (env.defining_query, env.st_user_columns) {
        (Some(q), Some(cols)) => Ok((q@, text::texts(cols@))),
        _ => match fixpoint(alias, columns, base, union_word(union_all), recursive) {
            Err(e) => Err(e),
            Ok(q) => Ok((q, columns)),
        },
    }
}

/// The outcome of comparing a query with the storage table.
pub open spec fn compared_outcome(
    st: DiffState,
    alias: Seq<char>,
    query: Seq<char>,
    columns: Seq<Seq<char>>,
    storage: Seq<char>,
) -> Outcome {
    let recomp = st.fresh(named("rc_recomp_"@, alias));
    let st1 = st.step(named("rc_recomp_"@, alias), recomputed_sql(query));
    let ins = st1.fresh(named("rc_ins_"@, alias));
    let st2 = st1.step(
        named("rc_ins_"@, alias),
        appeared_sql(text::join(diff::wrapped("n."@, columns, ""@), ", "@), recomp, storage),
    );
    let del = st2.fresh(named("rc_del_"@, alias));
    let st3 = st2.step(
        named("rc_del_"@, alias),
        vanished_sql(text::join(diff::wrapped("s."@, columns, ""@), ", "@), storage, recomp),
    );
    (
        st3.step(named("rc_delta_"@, alias), both_changes_sql(ins, del)),
        Ok(
            Delta {
                cte_name: st3.fresh(named("rc_delta_"@, alias)),
                columns,
                is_deduplicated: false,
            },
        ),
    )
}

/// The outcome of computing the expression anew.
pub open spec fn recomputation_outcome(
    env: DiffEnv,
    st: DiffState,
    alias: Seq<char>,
    columns: Seq<Seq<char>>,
    base: OpTree,
    recursive: OpTree,
    union_all: bool,
) -> Outcome {
    match env.st_qualified_name {
        None => (st, Err(no_storage("recursive CTE recomputation diff"@))),
        Some(storage) => match recomputation(env, alias, columns, base, recursive, union_all) {
            Err(e) => (st, Err(e)),
            Ok((query, out_cols)) => compared_outcome(st, alias, query, out_cols, storage@),
        },
    }
}

/// The recursive expression itself.
fn build_fixpoint(
    alias: &str,
    columns: &Vec<String>,
    base: &OpTree,
    union: &str,
    recursive: &OpTree,
) -> (r: Result<String, PgTrickleError>)
    ensures
        recursive_sql::sql_view(r) == fixpoint(
            alias@,
            text::texts(columns@),
            *base,
            union@,
            *recursive,
        ),
{
    let b = match generate_query_sql(base, None) {
        Ok(s) => s,
        Err(e) => {
            return Err(e);
        },
    };
    let rec = match generate_query_sql(recursive, Some(alias)) {
        Ok(s) => s,
        Err(e) => {
            return Err(e);
        },
    };
    Ok(
        fixpoint_query(
            quote_ident(alias).as_str(),
            b.as_str(),
            union,
            rec.as_str(),
            col_list(columns.as_slice()).as_str(),
        ),
    )
}

/// Adds the comparison of a query with the storage table to the chain.
fn add_compared(
    ctx: &mut DiffContext,
    alias: &str,
    query: &str,
    columns: Vec<String>,
    storage: &str,
) -> (d: DiffResult)
    ensures
        final(ctx).env() == old(ctx).env(),
        diff::yields(
            *final(ctx),
            Ok(d),
            compared_outcome(old(ctx).state(), alias@, query@, text::texts(columns@), storage@),
        ),
{
    let recomp = next_named(ctx, "rc_recomp_", alias);
    ctx.add_cte(recomp.clone(), recomputed_query(query));

    let ins = next_named(ctx, "rc_ins_", alias);
    let n_cols = join_texts(&wrap_cols("n.", &columns, ""), ", ");
    ctx.add_cte(ins.clone(), appeared_query(n_cols.as_str(), recomp.as_str(), storage));

    let del = next_named(ctx, "rc_del_", alias);
    let s_cols = join_texts(&wrap_cols("s.", &columns, ""), ", ");
    ctx.add_cte(del.clone(), vanished_query(s_cols.as_str(), storage, recomp.as_str()));

    let cte_name = next_named(ctx, "rc_delta_", alias);
    ctx.add_cte(cte_name.clone(), both_changes_query(ins.as_str(), del.as_str()));
    DiffResult { cte_name, columns, is_deduplicated: false }
}

/// The delta of a recursive expression that is computed anew and compared with
/// the storage table.
///
/// The defining query is run where it is known: it has the columns of the
/// storage table, while the expression may have more.
pub fn generate_recomputation_delta(
    ctx: &mut DiffContext,
    alias: &str,
    columns: &Vec<String>,
    base: &OpTree,
    recursive: &OpTree,
    union_all: bool,
) -> (r: Result<DiffResult, PgTrickleError>)
    ensures
        final(ctx).env() == old(ctx).env(),
        diff::yields(
            *final(ctx),
            r,
            recomputation_outcome(
                old(ctx).env(),
                old(ctx).state(),
                alias@,
                text::texts(columns@),
                *base,
                *recursive,
                union_all,
            ),
        ),
{
    let storage = match required_storage(ctx, "recursive CTE recomputation diff") {
        Ok(s) => s,
        Err(e) => {
            return Err(e);
        },
    };
    let known = match (&ctx.defining_query, &ctx.st_user_columns) {
        (Some(q), Some(cols)) => Some((q.clone(), copy_texts(cols))),
        _ => None,
    };
    let (query, out_cols) = match known {
        Some(k) => k,
        None => match build_fixpoint(
            alias,
            columns,
            base,
            if union_all {
                "UNION ALL"
            } else {
                "UNION"
            },
            recursive,
        ) {
            Ok(q) => (q, copy_texts(columns)),
            Err(e) => {
                return Err(e);
            },
        },
    };
    Ok(add_compared(ctx, alias, query.as_str(), out_cols, storage.as_str()))
}

// ── Deletion and rederivation ──────────────────────────────────────────

/// The outcome of propagating inserts and deletes.
pub open spec fn dred_outcome(
    env: DiffEnv,
    st: DiffState,
    alias: Seq<char>,
    columns: Seq<Seq<char>>,
    base_cte: Seq<char>,
    base: OpTree,
    recursive: OpTree,
    union_all: bool,
) -> Outcome {
    match env.st_qualified_name {
        None => (st, Err(no_storage("recursive CTE DRed diff"@))),
        Some(storage) => match inserts_outcome(
            env,
            st,
            ("dred_ins_"@, "dred_ifin_"@),
            alias,
            columns,
            base_cte,
            recursive,
            storage@,
        ) {
            (st1, Err(e)) => (st1, Err(e)),
            (st1, Ok(ins)) => deletes_outcome(
                st1,
                alias,
                columns,
                base_cte,
                base,
                recursive,
                union_all,
                storage@,
                ins.cte_name,
            ),
        },
    }
}

/// The outcome of propagating deletes once inserts were propagated.
///
/// The deleted rows of the base term start a cascade through the storage
/// table.  The rows of the cascade that the expression still derives are kept;
/// the others are deleted.
pub open spec fn deletes_outcome(
    st: DiffState,
    alias: Seq<char>,
    columns: Seq<Seq<char>>,
    base_cte: Seq<char>,
    base: OpTree,
    recursive: OpTree,
    union_all: bool,
    storage: Seq<char>,
    ins_cte: Seq<char>,
) -> Outcome {
    let cols = diff::cols_text(columns);
    let seed = st.fresh(named("dred_dseed_"@, alias));
    let st1 = st.step(named("dred_dseed_"@, alias), deleted_sql(cols, base_cte));
    let cascade = st1.fresh(named("dred_dcasc_"@, alias));
    let st2 = st1.bumped();
    match recursive_sql::cascade_query(recursive, cascade, storage) {
        Err(e) => (st2, Err(e)),
        Ok(propagation) => {
            let st3 = st2.with_cte(
                cascade,
                del_cascade_sql(cols, seed, propagation),
                CteKind::Recursive,
            );
            match fixpoint(alias, columns, base, union_word(union_all), recursive) {
                Err(e) => (st3, Err(e)),
                Ok(full) => net_outcome(st3, alias, columns, full, cascade, storage, ins_cte),
            }
        },
    }
}

/// How the terms of the expression are put together.
pub open spec fn union_word(union_all: bool) -> Seq<char> {
    if union_all {
        "UNION ALL"@
    } else {
        "UNION"@
    }
}

/// The outcome of deleting what a cascade holds and the expression no longer
/// derives.
pub open spec fn net_outcome(
    st: DiffState,
    alias: Seq<char>,
    columns: Seq<Seq<char>>,
    full_sql: Seq<char>,
    cascade: Seq<char>,
    storage: Seq<char>,
    ins_cte: Seq<char>,
) -> Outcome {
    let cols = diff::cols_text(columns);
    let full = st.fresh(named("dred_rfull_"@, alias));
    let st1 = st.step(named("dred_rfull_"@, alias), full_sql);
    let kept = st1.fresh(named("dred_rdrv_"@, alias));
    let st2 = st1.step(named("dred_rdrv_"@, alias), rederived_sql(cols, cascade, full));
    let net = st2.fresh(named("dred_ndel_"@, alias));
    let st3 = st2.step(named("dred_ndel_"@, alias), net_deleted_sql(cols, cascade, kept));
    let del = st3.fresh(named("dred_dfin_"@, alias));
    let st4 = st3.step(
        named("dred_dfin_"@, alias),
        stored_deletes_sql(
            text::join(diff::wrapped("s."@, columns, ""@), ", "@),
            net,
            storage,
            text::join(diff::equalities("d."@, "s."@, columns), " AND "@),
        ),
    );
    (
        st4.step(named("dred_comb_"@, alias), both_changes_sql(ins_cte, del)),
        Ok(
            Delta {
                cte_name: st4.fresh(named("dred_comb_"@, alias)),
                columns,
                is_deduplicated: false,
            },
        ),
    )
}

/// Adds the deletion of what a cascade holds and the expression no longer
/// derives to the chain.
fn add_net(
    ctx: &mut DiffContext,
    alias: &str,
    columns: &Vec<String>,
    full_sql: String,
    cascade: &str,
    storage: &str,
    ins_cte: &str,
) -> (d: DiffResult)
    ensures
        final(ctx).env() == old(ctx).env(),
        diff::yields(
            *final(ctx),
            Ok(d),
            net_outcome(
                old(ctx).state(),
                alias@,
                text::texts(columns@),
                full_sql@,
                cascade@,
                storage@,
                ins_cte@,
            ),
        ),
{
    let cols = col_list(columns.as_slice());
    let full = next_named(ctx, "dred_rfull_", alias);
    ctx.add_cte(full.clone(), full_sql);

    let kept = next_named(ctx, "dred_rdrv_", alias);
    ctx.add_cte(kept.clone(), rederived_query(cols.as_str(), cascade, full.as_str()));

    let net = next_named(ctx, "dred_ndel_", alias);
    ctx.add_cte(net.clone(), net_deleted_query(cols.as_str(), cascade, kept.as_str()));

    let del = next_named(ctx, "dred_dfin_", alias);
    let s_cols = join_texts(&wrap_cols("s.", columns, ""), ", ");
    let matching = join_texts(&equate_cols("d.", "s.", columns), " AND ");
    ctx.add_cte(
        del.clone(),
        stored_deletes_query(s_cols.as_str(), net.as_str(), storage, matching.as_str()),
    );

    let cte_name = next_named(ctx, "dred_comb_", alias);
    ctx.add_cte(cte_name.clone(), both_changes_query(ins_cte, del.as_str()));
    DiffResult { cte_name, columns: copy_texts(columns), is_deduplicated: false }
}

/// Adds the propagation of deletes to the chain.
fn add_deletes(
    ctx: &mut DiffContext,
    alias: &str,
    columns: &Vec<String>,
    base_cte: &str,
    base: &OpTree,
    recursive: &OpTree,
    union_all: bool,
    storage: &str,
    ins_cte: &str,
) -> (r: Result<DiffResult, PgTrickleError>)
    ensures
        final(ctx).env() == old(ctx).env(),
        diff::yields(
            *final(ctx),
            r,
            deletes_outcome(
                old(ctx).state(),
                alias@,
                text::texts(columns@),
                base_cte@,
                *base,
                *recursive,
                union_all,
                storage@,
                ins_cte@,
            ),
        ),
{
    let cols = col_list(columns.as_slice());
    let seed = next_named(ctx, "dred_dseed_", alias);
    ctx.add_cte(seed.clone(), deleted_query(cols.as_str(), base_cte));

    let cascade = next_named(ctx, "dred_dcasc_", alias);
    let propagation = match generate_cascade_propagation(recursive, cascade.as_str(), storage) {
        Ok(s) => s,
        Err(e) => {
            return Err(e);
        },
    };
    ctx.add_recursive_cte(
        cascade.clone(),
        del_cascade_query(cols.as_str(), seed.as_str(), propagation.as_str()),
    );

    let union = if union_all {
        "UNION ALL"
    } else {
        "UNION"
    };
    let full = match build_fixpoint(alias, columns, base, union, recursive) {
        Ok(s) => s,
        Err(e) => {
            return Err(e);
        },
    };
    Ok(add_net(ctx, alias, columns, full, cascade.as_str(), storage, ins_cte))
}

/// The outcome of propagating inserts as a part of propagating deletes.
pub open spec fn ins_only_outcome(
    env: DiffEnv,
    st: DiffState,
    alias: Seq<char>,
    columns: Seq<Seq<char>>,
    base_cte: Seq<char>,
    recursive: OpTree,
) -> Outcome {
    match env.st_qualified_name {
        Some(storage) => inserts_outcome(
            env,
            st,
            ("dred_ins_"@, "dred_ifin_"@),
            alias,
            columns,
            base_cte,
            recursive,
            storage@,
        ),
        None => (st, Err(no_storage("DRed insert propagation"@))),
    }
}

/// Propagates inserts as a part of propagating deletes.
pub fn generate_semi_naive_ins_only(
    ctx: &mut DiffContext,
    alias: &str,
    columns: &Vec<String>,
    base_delta: &DiffResult,
    recursive: &OpTree,
) -> (r: Result<DiffResult, PgTrickleError>)
    ensures
        final(ctx).env() == old(ctx).env(),
        diff::yields(
            *final(ctx),
            r,
            ins_only_outcome(
                old(ctx).env(),
                old(ctx).state(),
                alias@,
                text::texts(columns@),
                base_delta@.cte_name,
                *recursive,
            ),
        ),
{
    let storage = match required_storage(ctx, "DRed insert propagation") {
        Ok(s) => s,
        Err(e) => {
            return Err(e);
        },
    };
    add_inserts(
        ctx,
        ("dred_ins_", "dred_ifin_"),
        alias,
        columns,
        base_delta.cte_name.as_str(),
        recursive,
        storage.as_str(),
    )
}

/// The delta of a recursive expression whose sources have updates or deletes.
///
/// Inserts are propagated as for sources that only have inserts.  Deleted
/// rows of the base term take the stored rows with them that derive from
/// them, except for those that the expression still derives.
pub fn generate_dred_delta(
    ctx: &mut DiffContext,
    alias: &str,
    columns: &Vec<String>,
    base_delta: &DiffResult,
    base: &OpTree,
    recursive: &OpTree,
    union_all: bool,
) -> (r: Result<DiffResult, PgTrickleError>)
    ensures
        final(ctx).env() == old(ctx).env(),
        diff::yields(
            *final(ctx),
            r,
            dred_outcome(
                old(ctx).env(),
                old(ctx).state(),
                alias@,
                text::texts(columns@),
                base_delta@.cte_name,
                *base,
                *recursive,
                union_all,
            ),
        ),
{
    let storage = match required_storage(ctx, "recursive CTE DRed diff") {
        Ok(s) => s,
        Err(e) => {
            return Err(e);
        },
    };
    let ins = match generate_semi_naive_ins_only(ctx, alias, columns, base_delta, recursive) {
        Ok(d) => d,
        Err(e) => {
            return Err(e);
        },
    };
    add_deletes(
        ctx,
        alias,
        columns,
        base_delta.cte_name.as_str(),
        base,
        recursive,
        union_all,
        storage.as_str(),
        ins.cte_name.as_str(),
    )
}

// ── Differentiation ────────────────────────────────────────────────────

/// The outcome of differentiating an operator as a recursive expression.
pub open spec fn recursive_cte_diff(env: DiffEnv, st: DiffState, op: OpTree) -> Outcome
    decreases env.cte_registry.depth(op), op, 0nat,
{
    match op {
        OpTree::RecursiveCte { alias, columns, base, recursive, union_all } => {
            let refs = recursive_sql::self_ref_aliases(*recursive);
            let cols = text::texts(columns@);
            if refs.len() > 1 {
                (st, Err(ErrorView::UnsupportedOperator(nonlinear_text(alias@, refs))))
            } else if !columns_match(env, cols) {
                recomputation_outcome(env, st, alias@, cols, *base, *recursive, union_all)
            } else {
                match engine::tree_diff(env, st, *base) {
                    (st1, Err(e)) => (st1, Err(e)),
                    (st1, Ok(b)) => if any_deletes(env, op.spec_sources()) {
                        dred_outcome(
                            env,
                            st1,
                            alias@,
                            cols,
                            b.cte_name,
                            *base,
                            *recursive,
                            union_all,
                        )
                    } else {
                        semi_naive_outcome(env, st1, alias@, cols, b.cte_name, *recursive)
                    },
                }
            }
        },
        _ => (
            st,
            Err(ErrorView::InternalError("diff_recursive_cte called on non-RecursiveCte node"@)),
        ),
    }
}

/// Differentiates a recursive expression.
pub fn diff_recursive_cte(ctx: &mut DiffContext, op: &OpTree) -> (r: Result<
    DiffResult,
    PgTrickleError,
>)
    requires
        old(ctx).env().cte_registry.acyclic(),
    ensures
        final(ctx).env() == old(ctx).env(),
        diff::yields(
            *final(ctx),
            r,
            recursive_cte_diff(old(ctx).env(), old(ctx).state(), *op),
        ),
    decreases old(ctx).env().cte_registry.depth(*op), op, 0nat,
{
    match op {
        OpTree::RecursiveCte { alias, columns, base, recursive, union_all } => {
            let refs = collect_self_ref_aliases(recursive);
            if refs.len() > 1 {
                return Err(nonlinear_refused(alias.as_str(), &refs));
            }
            let matching = match &ctx.st_user_columns {
                Some(cols) => texts_eq(cols, columns),
                None => false,
            };
            if !matching {
                return generate_recomputation_delta(
                    ctx,
                    alias.as_str(),
                    columns,
                    base,
                    recursive,
                    *union_all,
                );
            }
            let b = match ctx.diff_node(base) {
                Ok(d) => d,
                Err(e) => {
                    return Err(e);
                },
            };
            let oids = op.source_oids();
            if check_for_delete_changes(ctx, oids.as_slice()) {
                generate_dred_delta(ctx, alias.as_str(), columns, &b, base, recursive, *union_all)
            } else {
                generate_semi_naive_delta(ctx, alias.as_str(), columns, &b, recursive)
            }
        },
        _ => Err(
            PgTrickleError::InternalError(
                "diff_recursive_cte called on non-RecursiveCte node".to_string(),
            ),
        ),
    }
}

// ── What the queries say ───────────────────────────────────────────────

/// Updates and deletes are looked for after the start of the interval and up to
/// its end.
pub proof fn updates_and_deletes_of_the_interval_are_looked_for(
    change_table: Seq<char>,
    prev: Seq<char>,
    new: Seq<char>,
)
    ensures
        ({
            let t = deletes_present_sql(change_table, prev, new);
            &&& text::occurs(
                t,
                "FROM "@ + change_table + " WHERE (action = 'D' OR action = 'U') AND lsn > '"@
                    + prev + "'::pg_lsn AND lsn <= '"@ + new + "'::pg_lsn)"@,
            )
        }),
{
    reveal_strlit("FROM ");
    reveal_strlit("'::pg_lsn)");
    reveal_strlit("'::pg_lsn AND lsn <= '");
    reveal_strlit("SELECT EXISTS(SELECT 1 FROM ");
    reveal_strlit(" WHERE (action = 'D' OR action = 'U') AND lsn > '");
    let t = deletes_present_sql(change_table, prev, new);
    let f0 = "FROM "@ + change_table + " WHERE (action = 'D' OR action = 'U') AND lsn > '"@ + prev
        + "'::pg_lsn AND lsn <= '"@ + new + "'::pg_lsn)"@;
    let k0 = 23int;
    assert(t.subrange(k0, k0 + f0.len()) =~= f0);
    assert(text::occurs_at(t, f0, k0));
}

/// The inserted rows of a delta are those with the action of an insert.
pub proof fn inserted_rows_of_a_delta(
    cols: Seq<char>,
    delta: Seq<char>,
)
    ensures
        ({
            let t = inserted_sql(cols, delta);
            &&& text::occurs(
                t,
                "SELECT "@ + cols + " FROM "@ + delta + " WHERE __pgs_action = 'I'"@,
            )
        }),
{
    reveal_strlit(" FROM ");
    reveal_strlit("SELECT ");
    reveal_strlit(" WHERE __pgs_action = 'I'");
    let t = inserted_sql(cols, delta);
    let f0 = "SELECT "@ + cols + " FROM "@ + delta + " WHERE __pgs_action = 'I'"@;
    let k0 = 0int;
    assert(t.subrange(k0, k0 + f0.len()) =~= f0);
    assert(text::occurs_at(t, f0, k0));
}

/// The deleted rows of a delta are those with the action of a delete.
pub proof fn deleted_rows_of_a_delta(
    cols: Seq<char>,
    delta: Seq<char>,
)
    ensures
        ({
            let t = deleted_sql(cols, delta);
            &&& text::occurs(
                t,
                "SELECT "@ + cols + " FROM "@ + delta + " WHERE __pgs_action = 'D'"@,
            )
        }),
{
    reveal_strlit(" FROM ");
    reveal_strlit("SELECT ");
    reveal_strlit(" WHERE __pgs_action = 'D'");
    let t = deleted_sql(cols, delta);
    let f0 = "SELECT "@ + cols + " FROM "@ + delta + " WHERE __pgs_action = 'D'"@;
    let k0 = 0int;
    assert(t.subrange(k0, k0 + f0.len()) =~= f0);
    assert(text::occurs_at(t, f0, k0));
}

/// The rows that were derived are inserted.
pub proof fn derived_rows_are_inserted(
    cols: Seq<char>,
    delta: Seq<char>,
)
    ensures
        ({
            let t = new_rows_sql(cols, delta);
            &&& text::occurs(
                t,
                "'I'::text AS __pgs_action,\n"@ + cols + "\nFROM "@ + delta + " sub"@,
            )
        }),
{
    reveal_strlit(" sub");
    reveal_strlit("\nFROM ");
    reveal_strlit("'I'::text AS __pgs_action,\n");
    reveal_strlit("SELECT pgstream.pg_stream_hash(row_to_json(sub)::text || '/' || row_number() OVER ()::text) AS __pgs_row_id,\n'I'::text AS __pgs_action,\n");
    let t = new_rows_sql(cols, delta);
    let f0 = "'I'::text AS __pgs_action,\n"@ + cols + "\nFROM "@ + delta + " sub"@;
    let k0 = 109int;
    assert(t.subrange(k0, k0 + f0.len()) =~= f0);
    assert(text::occurs_at(t, f0, k0));
}

/// The expression starts from its base term and goes on with its recursive
/// term.
pub proof fn an_expression_is_its_base_and_what_derives_from_it(
    alias: Seq<char>,
    base: Seq<char>,
    union: Seq<char>,
    rec: Seq<char>,
    cols: Seq<char>,
)
    ensures
        ({
            let t = fixpoint_sql(alias, base, union, rec, cols);
            &&& text::occurs(
                t,
                "WITH RECURSIVE "@ + alias + " AS (\n"@ + base + "\n"@ + union + "\n"@ + rec
                    + "\n)\nSELECT "@ + cols + " FROM "@ + alias,
            )
        }),
{
    reveal_strlit("\n");
    reveal_strlit(" AS (\n");
    reveal_strlit(" FROM ");
    reveal_strlit("\n)\nSELECT ");
    reveal_strlit("WITH RECURSIVE ");
    let t = fixpoint_sql(alias, base, union, rec, cols);
    let f0 = "WITH RECURSIVE "@ + alias + " AS (\n"@ + base + "\n"@ + union + "\n"@ + rec
        + "\n)\nSELECT "@ + cols + " FROM "@ + alias;
    let k0 = 0int;
    assert(t.subrange(k0, k0 + f0.len()) =~= f0);
    assert(text::occurs_at(t, f0, k0));
}

/// The query is run anew.
pub proof fn the_query_is_run_anew(
    query: Seq<char>,
)
    ensures
        ({
            let t = recomputed_sql(query);
            &&& text::occurs(
                t,
                "FROM ("@ + query + ") sub"@,
            )
        }),
{
    reveal_strlit(") sub");
    reveal_strlit("FROM (");
    reveal_strlit("SELECT pgstream.pg_stream_hash(row_to_json(sub)::text || '/' || row_number() OVER ()::text) AS __pgs_row_id, sub.*\nFROM (");
    let t = recomputed_sql(query);
    let f0 = "FROM ("@ + query + ") sub"@;
    let k0 = 115int;
    assert(t.subrange(k0, k0 + f0.len()) =~= f0);
    assert(text::occurs_at(t, f0, k0));
}

/// A row of the new result that is not stored is inserted.
pub proof fn rows_that_are_not_stored_appear(
    cols: Seq<char>,
    recomp: Seq<char>,
    storage: Seq<char>,
)
    ensures
        ({
            let t = appeared_sql(cols, recomp, storage);
            &&& text::occurs(
                t,
                "'I'::text AS __pgs_action, "@ + cols + "\nFROM "@ + recomp + " n\nLEFT JOIN "@
                    + storage
                    + " s ON s.__pgs_row_id = n.__pgs_row_id\nWHERE s.__pgs_row_id IS NULL"@,
            )
        }),
{
    reveal_strlit("\nFROM ");
    reveal_strlit(" n\nLEFT JOIN ");
    reveal_strlit("'I'::text AS __pgs_action, ");
    reveal_strlit("SELECT n.__pgs_row_id, 'I'::text AS __pgs_action, ");
    reveal_strlit(" s ON s.__pgs_row_id = n.__pgs_row_id\nWHERE s.__pgs_row_id IS NULL");
    let t = appeared_sql(cols, recomp, storage);
    let f0 = "'I'::text AS __pgs_action, "@ + cols + "\nFROM "@ + recomp + " n\nLEFT JOIN "@
        + storage + " s ON s.__pgs_row_id = n.__pgs_row_id\nWHERE s.__pgs_row_id IS NULL"@;
    let k0 = 23int;
    assert(t.subrange(k0, k0 + f0.len()) =~= f0);
    assert(text::occurs_at(t, f0, k0));
}

/// A stored row that is not in the new result is deleted.
pub proof fn stored_rows_that_do_not_come_out_vanish(
    cols: Seq<char>,
    storage: Seq<char>,
    recomp: Seq<char>,
)
    ensures
        ({
            let t = vanished_sql(cols, storage, recomp);
            &&& text::occurs(
                t,
                "'D'::text AS __pgs_action, "@ + cols + "\nFROM "@ + storage + " s\nLEFT JOIN "@
                    + recomp
                    + " n ON n.__pgs_row_id = s.__pgs_row_id\nWHERE n.__pgs_row_id IS NULL"@,
            )
        }),
{
    reveal_strlit("\nFROM ");
    reveal_strlit(" s\nLEFT JOIN ");
    reveal_strlit("'D'::text AS __pgs_action, ");
    reveal_strlit("SELECT s.__pgs_row_id, 'D'::text AS __pgs_action, ");
    reveal_strlit(" n ON n.__pgs_row_id = s.__pgs_row_id\nWHERE n.__pgs_row_id IS NULL");
    let t = vanished_sql(cols, storage, recomp);
    let f0 = "'D'::text AS __pgs_action, "@ + cols + "\nFROM "@ + storage + " s\nLEFT JOIN "@
        + recomp + " n ON n.__pgs_row_id = s.__pgs_row_id\nWHERE n.__pgs_row_id IS NULL"@;
    let k0 = 23int;
    assert(t.subrange(k0, k0 + f0.len()) =~= f0);
    assert(text::occurs_at(t, f0, k0));
}

/// Inserts and deletes are taken together.
pub proof fn inserts_and_deletes_are_taken_together(
    ins: Seq<char>,
    del: Seq<char>,
)
    ensures
        ({
            let t = both_changes_sql(ins, del);
            &&& text::occurs(
                t,
                "FROM "@ + ins + "\nUNION ALL\nSELECT * FROM "@ + del,
            )
        }),
{
    reveal_strlit("FROM ");
    reveal_strlit("SELECT * FROM ");
    reveal_strlit("\nUNION ALL\nSELECT * FROM ");
    let t = both_changes_sql(ins, del);
    let f0 = "FROM "@ + ins + "\nUNION ALL\nSELECT * FROM "@ + del;
    let k0 = 9int;
    assert(t.subrange(k0, k0 + f0.len()) =~= f0);
    assert(text::occurs_at(t, f0, k0));
}

/// A cascade starts from its seed and goes on by its propagation.
pub proof fn deletions_go_on_from_their_seed(
    cols: Seq<char>,
    seed: Seq<char>,
    propagation: Seq<char>,
)
    ensures
        ({
            let t = del_cascade_sql(cols, seed, propagation);
            &&& text::occurs(
                t,
                "SELECT "@ + cols + " FROM "@ + seed + "\nUNION ALL\n"@ + propagation,
            )
        }),
{
    reveal_strlit(" FROM ");
    reveal_strlit("SELECT ");
    reveal_strlit("\nUNION ALL\n");
    let t = del_cascade_sql(cols, seed, propagation);
    let f0 = "SELECT "@ + cols + " FROM "@ + seed + "\nUNION ALL\n"@ + propagation;
    let k0 = 0int;
    assert(t.subrange(k0, k0 + f0.len()) =~= f0);
    assert(text::occurs_at(t, f0, k0));
}

/// A row of the cascade is kept if the expression still derives it.
pub proof fn rows_that_still_derive_are_kept(
    cols: Seq<char>,
    cascade: Seq<char>,
    full: Seq<char>,
)
    ensures
        ({
            let t = rederived_sql(cols, cascade, full);
            &&& text::occurs(
                t,
                "SELECT "@ + cols + " FROM "@ + cascade + "\nINTERSECT\nSELECT "@ + cols + " FROM "@
                    + full,
            )
        }),
{
    reveal_strlit(" FROM ");
    reveal_strlit("SELECT ");
    reveal_strlit("\nINTERSECT\nSELECT ");
    let t = rederived_sql(cols, cascade, full);
    let f0 = "SELECT "@ + cols + " FROM "@ + cascade + "\nINTERSECT\nSELECT "@ + cols + " FROM "@
        + full;
    let k0 = 0int;
    assert(t.subrange(k0, k0 + f0.len()) =~= f0);
    assert(text::occurs_at(t, f0, k0));
}

/// What is deleted is the cascade without the rows that are kept.
pub proof fn the_rest_of_the_cascade_is_deleted(
    cols: Seq<char>,
    cascade: Seq<char>,
    kept: Seq<char>,
)
    ensures
        ({
            let t = net_deleted_sql(cols, cascade, kept);
            &&& text::occurs(
                t,
                "SELECT "@ + cols + " FROM "@ + cascade + "\nEXCEPT\nSELECT "@ + cols + " FROM "@
                    + kept,
            )
        }),
{
    reveal_strlit(" FROM ");
    reveal_strlit("SELECT ");
    reveal_strlit("\nEXCEPT\nSELECT ");
    let t = net_deleted_sql(cols, cascade, kept);
    let f0 = "SELECT "@ + cols + " FROM "@ + cascade + "\nEXCEPT\nSELECT "@ + cols + " FROM "@
        + kept;
    let k0 = 0int;
    assert(t.subrange(k0, k0 + f0.len()) =~= f0);
    assert(text::occurs_at(t, f0, k0));
}

/// A delete has the identifier of the stored row with its values.
pub proof fn deletes_have_the_identifiers_of_the_stored_rows(
    cols: Seq<char>,
    net: Seq<char>,
    storage: Seq<char>,
    matching: Seq<char>,
)
    ensures
        ({
            let t = stored_deletes_sql(cols, net, storage, matching);
            &&& text::occurs(
                t,
                "SELECT s.__pgs_row_id, 'D'::text AS __pgs_action, "@ + cols + "\nFROM "@ + net
                    + " d\nJOIN "@ + storage + " s ON "@ + matching,
            )
        }),
{
    reveal_strlit("\nFROM ");
    reveal_strlit(" s ON ");
    reveal_strlit(" d\nJOIN ");
    reveal_strlit("SELECT s.__pgs_row_id, 'D'::text AS __pgs_action, ");
    let t = stored_deletes_sql(cols, net, storage, matching);
    let f0 = "SELECT s.__pgs_row_id, 'D'::text AS __pgs_action, "@ + cols + "\nFROM "@ + net
        + " d\nJOIN "@ + storage + " s ON "@ + matching;
    let k0 = 0int;
    assert(t.subrange(k0, k0 + f0.len()) =~= f0);
    assert(text::occurs_at(t, f0, k0));
}

// ── What the rows are ──────────────────────────────────────────────────

/// A row that is computed anew is identified by its values and its place.
pub proof fn recomputed_rows_are_told_apart_by_their_values(
    query: Seq<char>,
)
    ensures
        ({
            let t = recomputed_sql(query);
            &&& text::occurs(
                t,
                "pgstream.pg_stream_hash(row_to_json(sub)::text || '/' || row_number() OVER ()::text) AS __pgs_row_id"@,
            )
        }),
{
    reveal_strlit(") sub");
    reveal_strlit("pgstream.pg_stream_hash(row_to_json(sub)::text || '/' || row_number() OVER ()::text) AS __pgs_row_id");
    reveal_strlit("SELECT pgstream.pg_stream_hash(row_to_json(sub)::text || '/' || row_number() OVER ()::text) AS __pgs_row_id, sub.*\nFROM (");
    let t = recomputed_sql(query);
    let f0 = "pgstream.pg_stream_hash(row_to_json(sub)::text || '/' || row_number() OVER ()::text) AS __pgs_row_id"@;
    let k0 = 7int;
    assert(t.subrange(k0, k0 + f0.len()) =~= f0);
    assert(text::occurs_at(t, f0, k0));
}

/// A new row is identified by its values and its place.
pub proof fn new_rows_are_told_apart_by_their_values(
    cols: Seq<char>,
    delta: Seq<char>,
)
    ensures
        ({
            let t = new_rows_sql(cols, delta);
            &&& text::occurs(
                t,
                "pgstream.pg_stream_hash(row_to_json(sub)::text || '/' || row_number() OVER ()::text) AS __pgs_row_id"@,
            )
        }),
{
    reveal_strlit(" sub");
    reveal_strlit("\nFROM ");
    reveal_strlit("pgstream.pg_stream_hash(row_to_json(sub)::text || '/' || row_number() OVER ()::text) AS __pgs_row_id");
    reveal_strlit("SELECT pgstream.pg_stream_hash(row_to_json(sub)::text || '/' || row_number() OVER ()::text) AS __pgs_row_id,\n'I'::text AS __pgs_action,\n");
    let t = new_rows_sql(cols, delta);
    let f0 = "pgstream.pg_stream_hash(row_to_json(sub)::text || '/' || row_number() OVER ()::text) AS __pgs_row_id"@;
    let k0 = 7int;
    assert(t.subrange(k0, k0 + f0.len()) =~= f0);
    assert(text::occurs_at(t, f0, k0));
}

/// A row that appeared has the identifier of the new row.
pub proof fn appeared_rows_have_the_new_identifier(
    cols: Seq<char>,
    recomp: Seq<char>,
    storage: Seq<char>,
)
    ensures
        ({
            let t = appeared_sql(cols, recomp, storage);
            &&& text::occurs(
                t,
                "SELECT n.__pgs_row_id,"@,
            )
        }),
{
    reveal_strlit("\nFROM ");
    reveal_strlit(" n\nLEFT JOIN ");
    reveal_strlit("SELECT n.__pgs_row_id,");
    reveal_strlit("SELECT n.__pgs_row_id, 'I'::text AS __pgs_action, ");
    reveal_strlit(" s ON s.__pgs_row_id = n.__pgs_row_id\nWHERE s.__pgs_row_id IS NULL");
    let t = appeared_sql(cols, recomp, storage);
    let f0 = "SELECT n.__pgs_row_id,"@;
    let k0 = 0int;
    assert(t.subrange(k0, k0 + f0.len()) =~= f0);
    assert(text::occurs_at(t, f0, k0));
}

/// A row that vanished has the identifier of the stored row.
pub proof fn vanished_rows_have_the_stored_identifier(
    cols: Seq<char>,
    storage: Seq<char>,
    recomp: Seq<char>,
)
    ensures
        ({
            let t = vanished_sql(cols, storage, recomp);
            &&& text::occurs(
                t,
                "SELECT s.__pgs_row_id,"@,
            )
        }),
{
    reveal_strlit("\nFROM ");
    reveal_strlit(" s\nLEFT JOIN ");
    reveal_strlit("SELECT s.__pgs_row_id,");
    reveal_strlit("SELECT s.__pgs_row_id, 'D'::text AS __pgs_action, ");
    reveal_strlit(" n ON n.__pgs_row_id = s.__pgs_row_id\nWHERE n.__pgs_row_id IS NULL");
    let t = vanished_sql(cols, storage, recomp);
    let f0 = "SELECT s.__pgs_row_id,"@;
    let k0 = 0int;
    assert(t.subrange(k0, k0 + f0.len()) =~= f0);
    assert(text::occurs_at(t, f0, k0));
}

} // verus!
