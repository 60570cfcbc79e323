//! References to common table expressions.
//!
//! However often a common table expression is referred to, its body is
//! differentiated once: the delta is recorded and read again.  Where a
//! reference has column names of its own, a CTE renames the columns.

use std::rc::Rc;

use vstd::prelude::*;
use vstd::string::*;

use crate::dvm::diff;
use crate::dvm::diff::{quote_ident, Delta, DiffContext, DiffEnv, DiffResult, DiffState, Outcome};
use crate::dvm::engine;
use crate::dvm::parser;
use crate::dvm::parser::{CteRegistry, OpTree};
use crate::error::{ErrorView, PgTrickleError};
use crate::sql_builder;
use crate::text;
use crate::text::{copy_texts, join_texts, text_eq, texts_eq, usize_text};

verus! {

/// `Rc::clone` gives another pointer to the same registry.
#[verifier::external_body]
fn share_registry(registry: &Rc<CteRegistry>) -> (r: Rc<CteRegistry>)
    ensures
        r == *registry,
{
    Rc::clone(registry)
}

// ── Renaming ───────────────────────────────────────────────────────────

/// A delta with its columns renamed.
pub open spec fn rename_sql(cols: Seq<char>, child: Seq<char>) -> Seq<char> {
    "SELECT __pgs_row_id, __pgs_action, "@ + cols + "\n\
        FROM "@ + child
}

/// A delta with its columns renamed.
fn rename_query(cols: &str, child: &str) -> (r: String)
    ensures
        r@ == rename_sql(cols@, child@),
{
    let mut r = "SELECT __pgs_row_id, __pgs_action, ".to_string();
    r.append(cols);
    r.append("\n\
        FROM ");
    r.append(child);
    r
}

/// A column under a new name; nothing but the column where the name is its own.
pub open spec fn rename_col(src: Seq<char>, dst: Seq<char>) -> Seq<char> {
    if src == dst {
        sql_builder::ident_text(dst)
    } else {
        sql_builder::ident_text(src) + " AS "@ + sql_builder::ident_text(dst)
    }
}

/// Columns under new names, as far as there are both columns and names.
pub open spec fn rename_list(src: Seq<Seq<char>>, dst: Seq<Seq<char>>) -> Seq<Seq<char>> {
    Seq::new(
        if src.len() <= dst.len() {
            src.len()
        } else {
            dst.len()
        },
        |i: int| rename_col(src[i], dst[i]),
    )
}

/// The columns that a reference puts out: its own names, those of the
/// definition, or those of the body.
pub open spec fn effective_columns(
    own: Seq<Seq<char>>,
    defined: Seq<Seq<char>>,
    body: Seq<Seq<char>>,
) -> Seq<Seq<char>> {
    if own.len() > 0 {
        own
    } else if defined.len() > 0 {
        defined
    } else {
        body
    }
}

/// The outcome of a reference over the delta of the body.
pub open spec fn cte_scan_outcome(
    st: DiffState,
    alias: Seq<char>,
    own: Seq<Seq<char>>,
    defined: Seq<Seq<char>>,
    base: Delta,
) -> Outcome {
    let columns = effective_columns(own, defined, base.columns);
    if columns == base.columns {
        (st, Ok(base))
    } else {
        (
            st.step(
                "ctescan_"@ + alias,
                rename_sql(text::join(rename_list(base.columns, columns), ", "@), base.cte_name),
            ),
            Ok(
                Delta {
                    cte_name: st.fresh("ctescan_"@ + alias),
                    columns,
                    is_deduplicated: base.is_deduplicated,
                },
            ),
        )
    }
}

/// The message for a reference to an expression that is not registered.
pub open spec fn missing_text(name: Seq<char>, id: usize) -> Seq<char> {
    "CTE '"@ + name + "' (id="@ + text::decimal(id as nat) + ") not found in registry"@
}

/// The outcome of differentiating an operator as a reference.
///
/// The registry is meant to have no cycle: a body then goes less deep than a
/// reference to it.
pub open spec fn cte_scan_diff(env: DiffEnv, st: DiffState, op: OpTree) -> Outcome
    decreases env.cte_registry.depth(op), op, 0nat,
{
    match op {
        OpTree::CteScan { cte_id, cte_name, alias, cte_def_aliases, column_aliases, .. } => {
            let found = match diff::recorded(st.deltas, cte_id) {
                Some(d) => (st, Ok(d)),
                None => if cte_id >= env.cte_registry.entries@.len() {
                    (st, Err(ErrorView::InternalError(missing_text(cte_name@, cte_id))))
                } else {
                    let body = env.cte_registry.entries@[cte_id as int].1;
                    if env.cte_registry.depth(body) < env.cte_registry.depth(op) {
                        match engine::tree_diff(env, st, body) {
                            (st1, Ok(d)) => (
                                DiffState { deltas: st1.deltas.push((cte_id, d)), ..st1 },
                                Ok(d),
                            ),
                            (st1, Err(e)) => (st1, Err(e)),
                        }
                    } else {
                        arbitrary()
                    }
                },
            };
            match found {
                (st1, Ok(base)) => cte_scan_outcome(
                    st1,
                    alias@,
                    text::texts(column_aliases@),
                    text::texts(cte_def_aliases@),
                    base,
                ),
                (st1, Err(e)) => (st1, Err(e)),
            }
        },
        _ => (st, Err(ErrorView::InternalError("diff_cte_scan called on non-CteScan node"@))),
    }
}

// ── Differentiation ────────────────────────────────────────────────────

/// Columns under new names.
fn build_rename_list(src: &Vec<String>, dst: &Vec<String>) -> (r: Vec<String>)
    ensures
        text::texts(r@) == rename_list(text::texts(src@), text::texts(dst@)),
{
    let len: usize = if src.len() <= dst.len() {
        src.len()
    } else {
        dst.len()
    };
    let mut r: Vec<String> = Vec::new();
    let mut i: usize = 0;
    while i < len
        invariant
            i <= len <= src.len(),
            len <= dst.len(),
            r@.len() == i,
            forall|k: int| 0 <= k < i ==> (#[trigger] r@[k])@ == rename_col(src@[k]@, dst@[k]@),
        decreases len - i,
    {
        let dst_ident = quote_ident(dst[i].as_str());
        if text_eq(src[i].as_str(), dst[i].as_str()) {
            r.push(dst_ident);
        } else {
            let mut part = quote_ident(src[i].as_str());
            part.append(" AS ");
            part.append(dst_ident.as_str());
            r.push(part);
        }
        i += 1;
    }
    assert(text::texts(r@) =~= rename_list(text::texts(src@), text::texts(dst@)));
    r
}

/// The message for a reference to an expression that is not registered.
fn missing_message(name: &str, id: usize) -> (r: String)
    ensures
        r@ == missing_text(name@, id),
{
    let mut r = "CTE '".to_string();
    r.append(name);
    r.append("' (id=");
    r.append(usize_text(id).as_str());
    r.append(") not found in registry");
    r
}

/// The columns that a reference puts out.
fn choose_columns(own: &Vec<String>, defined: &Vec<String>, body: &Vec<String>) -> (r: Vec<String>)
    ensures
        text::texts(r@) == effective_columns(
            text::texts(own@),
            text::texts(defined@),
            text::texts(body@),
        ),
{
    if own.len() > 0 {
        copy_texts(own)
    } else if defined.len() > 0 {
        copy_texts(defined)
    } else {
        copy_texts(body)
    }
}

/// Differentiates a reference to a common table expression.
///
/// The delta of the body is read where it is recorded, and computed and
/// recorded where it is not.
pub fn diff_cte_scan(ctx: &mut DiffContext, op: &OpTree) -> (r: Result<
    DiffResult,
    PgTrickleError,
>)
    requires
        old(ctx).env().cte_registry.acyclic(),
    ensures
        final(ctx).env() == old(ctx).env(),
        diff::yields(
            *final(ctx),
            r,
            cte_scan_diff(old(ctx).env(), old(ctx).state(), *op),
        ),
    decreases old(ctx).env().cte_registry.depth(*op), op, 0nat,
{
    match op {
        OpTree::CteScan { cte_id, cte_name, alias, cte_def_aliases, column_aliases, .. } => {
            let known = match ctx.get_cte_delta(*cte_id) {
                Some(d) => Some(d.clone()),
                None => None,
            };
            let base = match known {
                Some(d) => d,
                None => {
                    let registry = share_registry(&ctx.cte_registry);
                    let body = match registry.get(*cte_id) {
                        Some(entry) => &entry.1,
                        None => {
                            return Err(
                                PgTrickleError::InternalError(
                                    missing_message(cte_name.as_str(), *cte_id),
                                ),
                            );
                        },
                    };
                    proof {
                        parser::lemma_body_is_shallower(ctx.env().cte_registry, *cte_id as int);
                    }
                    let d = match ctx.diff_node(body) {
                        Ok(d) => d,
                        Err(e) => {
                            return Err(e);
                        },
                    };
                    ctx.set_cte_delta(*cte_id, d.clone());
                    d
                },
            };
            let columns = choose_columns(column_aliases, cte_def_aliases, &base.columns);
            if texts_eq(&columns, &base.columns) {
                return Ok(base);
            }
            let cols = join_texts(&build_rename_list(&base.columns, &columns), ", ");
            let mut prefix = "ctescan_".to_string();
            prefix.append(alias.as_str());
            let name = ctx.next_cte_name(prefix.as_str());
            ctx.add_cte(name.clone(), rename_query(cols.as_str(), base.cte_name.as_str()));
            Ok(DiffResult { cte_name: name, columns, is_deduplicated: base.is_deduplicated })
        },
        _ => Err(
            PgTrickleError::InternalError("diff_cte_scan called on non-CteScan node".to_string()),
        ),
    }
}

// ── What the rows are ──────────────────────────────────────────────────

/// A renamed row keeps its identifier and its action.
pub proof fn renamed_rows_keep_identifier_and_action(
    cols: Seq<char>,
    child: Seq<char>,
)
    ensures
        ({
            let t = rename_sql(cols, child);
            &&& text::occurs(
                t,
                "SELECT __pgs_row_id, __pgs_action, "@ + cols + "\nFROM "@ + child,
            )
        }),
{
    reveal_strlit("\nFROM ");
    reveal_strlit("SELECT __pgs_row_id, __pgs_action, ");
    let t = rename_sql(cols, child);
    let f0 = "SELECT __pgs_row_id, __pgs_action, "@ + cols + "\nFROM "@ + child;
    let k0 = 0int;
    assert(t.subrange(k0, k0 + f0.len()) =~= f0);
    assert(text::occurs_at(t, f0, k0));
}

/// An expression that is not registered is told by its name.
pub proof fn a_missing_expression_is_told_by_name(
    name: Seq<char>,
    id: usize,
)
    ensures
        ({
            let t = missing_text(name, id);
            &&& text::occurs(
                t,
                "CTE '"@ + name + "' "@,
            )
        }),
{
    reveal_strlit("' ");
    reveal_strlit("CTE '");
    reveal_strlit("' (id=");
    reveal_strlit(") not found in registry");
    let t = missing_text(name, id);
    let f0 = "CTE '"@ + name + "' "@;
    let k0 = 0int;
    assert(t.subrange(k0, k0 + f0.len()) =~= f0);
    assert(text::occurs_at(t, f0, k0));
}

} // verus!
