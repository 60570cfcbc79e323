//! Laws of the columns of deltas.
//!
//! The columns of a delta, and whether it has at most one row per row
//! identifier, depend on the operator tree and the settings alone, not on what
//! was differentiated before.

use vstd::prelude::*;

use crate::dvm::diff;
use crate::dvm::diff::{Delta, DiffEnv, DiffState, Outcome};
use crate::dvm::engine;
use crate::dvm::operators::anti_join;
use crate::dvm::operators::cte_scan;
use crate::dvm::operators::distinct;
use crate::dvm::operators::filter;
use crate::dvm::operators::full_join;
use crate::dvm::operators::join;
use crate::dvm::operators::outer_join;
use crate::dvm::operators::recursive_cte;
use crate::dvm::operators::scalar_subquery;
use crate::dvm::operators::scan;
use crate::dvm::operators::semi_join;
use crate::dvm::operators::window;
use crate::dvm::parser;
use crate::dvm::parser::OpTree;
use crate::text;

verus! {

/// The columns of a delta, and whether it has at most one row per row
/// identifier.
pub type Shape = (Seq<Seq<char>>, bool);

/// The columns of a join: those of the left input before those of the right,
/// each with the alias of its input before it.
pub open spec fn side_by_side(
    left: OpTree,
    right: OpTree,
    l: Seq<Seq<char>>,
    r: Seq<Seq<char>>,
) -> Seq<Seq<char>> {
    diff::side_names(left.spec_alias(), l) + diff::side_names(right.spec_alias(), r)
}

/// The columns of a recursive expression.  Where they are not those of the
/// stream table and the defining query is known, the whole query is compared.
pub open spec fn recursive_columns(env: DiffEnv, columns: Seq<Seq<char>>) -> Seq<Seq<char>> {
    if recursive_cte::columns_match(env, columns) {
        columns
    } else {
        match (env.defining_query, env.st_user_columns) {
            (Some(_), Some(cols)) => text::texts(cols@),
            _ => columns,
        }
    }
}

/// The shape of the delta of an operator.
pub open spec fn shape(env: DiffEnv, op: OpTree) -> Shape
    decreases env.cte_registry.depth(op), op,
{
    match op {
        OpTree::Scan { columns, .. } => (parser::column_names(columns@), env.merge_safe_dedup),
        OpTree::Filter { child, .. } => shape(env, *child),
        OpTree::InnerJoin { left, right, .. } => (
            side_by_side(*left, *right, shape(env, *left).0, shape(env, *right).0),
            false,
        ),
        OpTree::LeftJoin { left, right, .. } => (
            side_by_side(*left, *right, shape(env, *left).0, shape(env, *right).0),
            false,
        ),
        OpTree::FullJoin { left, right, .. } => (
            side_by_side(*left, *right, shape(env, *left).0, shape(env, *right).0),
            false,
        ),
        OpTree::SemiJoin { left, .. } => (shape(env, *left).0, false),
        OpTree::AntiJoin { left, .. } => (shape(env, *left).0, false),
        OpTree::Distinct { child } => (shape(env, *child).0.push("__pgs_count"@), false),
        OpTree::CteScan { cte_id, cte_def_aliases, column_aliases, .. } => {
            let body = env.cte_registry.entries@[cte_id as int].1;
            if cte_id < env.cte_registry.entries@.len() && env.cte_registry.depth(body)
                < env.cte_registry.depth(op) {
                let inner = shape(env, body);
                (
                    cte_scan::effective_columns(
                        text::texts(column_aliases@),
                        text::texts(cte_def_aliases@),
                        inner.0,
                    ),
                    inner.1,
                )
            } else {
                arbitrary()
            }
        },
        OpTree::RecursiveCte { columns, .. } => (
            recursive_columns(env, text::texts(columns@)),
            false,
        ),
        OpTree::Window { window_exprs, pass_through, .. } => (
            parser::pass_through_names(pass_through@) + parser::window_names(window_exprs@),
            false,
        ),
        OpTree::ScalarSubquery { alias, child, .. } => (shape(env, *child).0.push(alias@), false),
        _ => (Seq::empty(), false),
    }
}

/// Whether a delta has a shape.
pub open spec fn shaped(d: Delta, s: Shape) -> bool {
    d.columns == s.0 && d.is_deduplicated == s.1
}

/// Whether recorded deltas have the shapes of the expressions they are of.
pub open spec fn all_shaped(env: DiffEnv, deltas: Seq<(usize, Delta)>) -> bool {
    forall|i: int|
        0 <= i < deltas.len() ==> {
            let (id, d) = #[trigger] deltas[i];
            id < env.cte_registry.entries@.len() && shaped(
                d,
                shape(env, env.cte_registry.entries@[id as int].1),
            )
        }
}

/// Whether the delta of an outcome has the shape of an operator, and the
/// recorded ones have theirs.
#[verifier::opaque]
pub open spec fn has_shape(env: DiffEnv, o: Outcome, op: OpTree) -> bool {
    all_shaped(env, o.0.deltas) && (o.1 matches Ok(d) ==> shaped(d, shape(env, op)))
}

/// After an outcome with the right shape the recorded deltas have theirs.
proof fn lemma_deltas(env: DiffEnv, o: Outcome, op: OpTree)
    requires
        has_shape(env, o, op),
    ensures
        all_shaped(env, o.0.deltas),
{
    reveal(has_shape);
}

// ── Operators ──────────────────────────────────────────────────────────

/// Scans.
proof fn lemma_scan(env: DiffEnv, st: DiffState, op: OpTree)
    requires
        op is Scan,
        all_shaped(env, st.deltas),
    ensures
        has_shape(env, scan::scan_diff(env, st, op), op),
{
    reveal(has_shape);
}

/// Filters, given the delta of their input.
proof fn lemma_filter(env: DiffEnv, st: DiffState, op: OpTree)
    requires
        op is Filter,
        has_shape(env, engine::tree_diff(env, st, *op->Filter_child), *op->Filter_child),
    ensures
        has_shape(env, filter::filter_diff(env, st, op), op),
{
    reveal(has_shape);
    reveal_with_fuel(engine::tree_diff, 1);
}

/// Inner joins, given the deltas of their inputs.
proof fn lemma_inner_join(env: DiffEnv, st: DiffState, op: OpTree)
    requires
        op is InnerJoin,
        has_shape(env, engine::tree_diff(env, st, *op->InnerJoin_left), *op->InnerJoin_left),
        engine::tree_diff(env, st, *op->InnerJoin_left).1 is Ok ==> has_shape(
            env,
            engine::tree_diff(
                env,
                engine::tree_diff(env, st, *op->InnerJoin_left).0,
                *op->InnerJoin_right,
            ),
            *op->InnerJoin_right,
        ),
    ensures
        has_shape(env, join::inner_join_diff(env, st, op), op),
{
    reveal(has_shape);
    reveal_with_fuel(engine::tree_diff, 1);
}

/// Left joins, given the deltas of their inputs.
proof fn lemma_left_join(env: DiffEnv, st: DiffState, op: OpTree)
    requires
        op is LeftJoin,
        has_shape(env, engine::tree_diff(env, st, *op->LeftJoin_left), *op->LeftJoin_left),
        engine::tree_diff(env, st, *op->LeftJoin_left).1 is Ok ==> has_shape(
            env,
            engine::tree_diff(
                env,
                engine::tree_diff(env, st, *op->LeftJoin_left).0,
                *op->LeftJoin_right,
            ),
            *op->LeftJoin_right,
        ),
    ensures
        has_shape(env, outer_join::left_join_diff(env, st, op), op),
{
    reveal(has_shape);
    reveal_with_fuel(engine::tree_diff, 1);
}

/// Full joins, given the deltas of their inputs.
proof fn lemma_full_join(env: DiffEnv, st: DiffState, op: OpTree)
    requires
        op is FullJoin,
        has_shape(env, engine::tree_diff(env, st, *op->FullJoin_left), *op->FullJoin_left),
        engine::tree_diff(env, st, *op->FullJoin_left).1 is Ok ==> has_shape(
            env,
            engine::tree_diff(
                env,
                engine::tree_diff(env, st, *op->FullJoin_left).0,
                *op->FullJoin_right,
            ),
            *op->FullJoin_right,
        ),
    ensures
        has_shape(env, full_join::full_join_diff(env, st, op), op),
{
    reveal(has_shape);
    reveal_with_fuel(engine::tree_diff, 1);
}

/// Semi-joins, given the deltas of their inputs.
proof fn lemma_semi_join(env: DiffEnv, st: DiffState, op: OpTree)
    requires
        op is SemiJoin,
        ({
            let inside = DiffState { inside_semijoin: true, ..st };
            let i = engine::tree_diff(env, inside, *op->SemiJoin_left);
            let j = engine::tree_diff(env, i.0, *op->SemiJoin_right);
            has_shape(env, i, *op->SemiJoin_left) && (i.1 is Ok ==> has_shape(
                env,
                j,
                *op->SemiJoin_right,
            ))
        }),
    ensures
        has_shape(env, semi_join::semi_join_diff(env, st, op), op),
{
    reveal(has_shape);
    reveal_with_fuel(engine::tree_diff, 1);
}

/// Anti-joins, given the deltas of their inputs.
proof fn lemma_anti_join(env: DiffEnv, st: DiffState, op: OpTree)
    requires
        op is AntiJoin,
        has_shape(env, engine::tree_diff(env, st, *op->AntiJoin_left), *op->AntiJoin_left),
        engine::tree_diff(env, st, *op->AntiJoin_left).1 is Ok ==> has_shape(
            env,
            engine::tree_diff(
                env,
                engine::tree_diff(env, st, *op->AntiJoin_left).0,
                *op->AntiJoin_right,
            ),
            *op->AntiJoin_right,
        ),
    ensures
        has_shape(env, anti_join::anti_join_diff(env, st, op), op),
{
    reveal(has_shape);
    reveal_with_fuel(engine::tree_diff, 1);
}

/// `DISTINCT`, given the delta of its input.
proof fn lemma_distinct(env: DiffEnv, st: DiffState, op: OpTree)
    requires
        op is Distinct,
        has_shape(env, engine::tree_diff(env, st, *op->Distinct_child), *op->Distinct_child),
    ensures
        has_shape(env, distinct::distinct_diff(env, st, op), op),
{
    reveal(has_shape);
    reveal_with_fuel(engine::tree_diff, 1);
}

/// Recursive expressions, given the delta of the base term.
proof fn lemma_recursive_cte(env: DiffEnv, st: DiffState, op: OpTree)
    requires
        op is RecursiveCte,
        all_shaped(env, st.deltas),
        has_shape(env, engine::tree_diff(env, st, *op->RecursiveCte_base), *op->RecursiveCte_base),
    ensures
        has_shape(env, recursive_cte::recursive_cte_diff(env, st, op), op),
{
    reveal(has_shape);
    reveal_with_fuel(engine::tree_diff, 1);
}

/// Window functions, given the delta of their input.
proof fn lemma_window(env: DiffEnv, st: DiffState, op: OpTree)
    requires
        op is Window,
        has_shape(env, engine::tree_diff(env, st, *op->Window_child), *op->Window_child),
    ensures
        has_shape(env, window::window_diff(env, st, op), op),
{
    reveal(has_shape);
    reveal_with_fuel(engine::tree_diff, 1);
}

/// Scalar subqueries, given the deltas of their inputs.
proof fn lemma_scalar_subquery(env: DiffEnv, st: DiffState, op: OpTree)
    requires
        op is ScalarSubquery,
        has_shape(
            env,
            engine::tree_diff(env, st, *op->ScalarSubquery_child),
            *op->ScalarSubquery_child,
        ),
        engine::tree_diff(env, st, *op->ScalarSubquery_child).1 is Ok ==> has_shape(
            env,
            engine::tree_diff(
                env,
                engine::tree_diff(env, st, *op->ScalarSubquery_child).0,
                *op->ScalarSubquery_subquery,
            ),
            *op->ScalarSubquery_subquery,
        ),
    ensures
        has_shape(env, scalar_subquery::scalar_subquery_diff(env, st, op), op),
{
    reveal(has_shape);
    reveal_with_fuel(engine::tree_diff, 1);
}

/// A recorded delta has the shape of the expression.
proof fn lemma_recorded(env: DiffEnv, deltas: Seq<(usize, Delta)>, id: usize)
    requires
        all_shaped(env, deltas),
        diff::recorded(deltas, id) is Some,
    ensures
        id < env.cte_registry.entries@.len(),
        shaped(
            diff::recorded(deltas, id)->0,
            shape(env, env.cte_registry.entries@[id as int].1),
        ),
    decreases deltas.len(),
{
    if deltas.last().0 == id {
        assert(deltas[deltas.len() - 1] == deltas.last());
    } else {
        let rest = deltas.drop_last();
        assert forall|i: int| 0 <= i < rest.len() implies {
            let (id, d) = #[trigger] rest[i];
            id < env.cte_registry.entries@.len() && shaped(
                d,
                shape(env, env.cte_registry.entries@[id as int].1),
            )
        } by {
            assert(deltas[i] == rest[i]);
        }
        lemma_recorded(env, rest, id);
    }
}

/// References to common table expressions, given the delta of the body.
proof fn lemma_cte_scan(env: DiffEnv, st: DiffState, op: OpTree)
    requires
        env.cte_registry.acyclic(),
        all_shaped(env, st.deltas),
        op is CteScan,
        op->CteScan_cte_id < env.cte_registry.entries@.len() ==> has_shape(
            env,
            engine::tree_diff(
                env,
                st,
                env.cte_registry.entries@[op->CteScan_cte_id as int].1,
            ),
            env.cte_registry.entries@[op->CteScan_cte_id as int].1,
        ),
    ensures
        has_shape(env, cte_scan::cte_scan_diff(env, st, op), op),
{
    reveal(has_shape);
    reveal_with_fuel(engine::tree_diff, 1);
    let id = op->CteScan_cte_id;
    if id < env.cte_registry.entries@.len() {
        parser::lemma_body_is_shallower(env.cte_registry, id as int);
    }
    if diff::recorded(st.deltas, id) is Some {
        lemma_recorded(env, st.deltas, id);
    }
}

/// Operator trees.
proof fn lemma_tree(env: DiffEnv, st: DiffState, op: OpTree)
    requires
        env.cte_registry.acyclic(),
        all_shaped(env, st.deltas),
    ensures
        has_shape(env, engine::tree_diff(env, st, op), op),
    decreases env.cte_registry.depth(op), op,
{
    reveal_with_fuel(engine::tree_diff, 1);
    match op {
        OpTree::Scan { .. } => {
            lemma_scan(env, st, op);
        },
        OpTree::Filter { child, .. } => {
            lemma_tree(env, st, *child);
            lemma_filter(env, st, op);
        },
        OpTree::InnerJoin { left, right, .. } => {
            let st0 = st;
            lemma_tree(env, st0, *left);
            let i = engine::tree_diff(env, st0, *left);
            lemma_deltas(env, i, *left);
            lemma_tree(env, i.0, *right);
            lemma_inner_join(env, st, op);
        },
        OpTree::LeftJoin { left, right, .. } => {
            let st0 = st;
            lemma_tree(env, st0, *left);
            let i = engine::tree_diff(env, st0, *left);
            lemma_deltas(env, i, *left);
            lemma_tree(env, i.0, *right);
            lemma_left_join(env, st, op);
        },
        OpTree::FullJoin { left, right, .. } => {
            let st0 = st;
            lemma_tree(env, st0, *left);
            let i = engine::tree_diff(env, st0, *left);
            lemma_deltas(env, i, *left);
            lemma_tree(env, i.0, *right);
            lemma_full_join(env, st, op);
        },
        OpTree::SemiJoin { left, right, .. } => {
            let st0 = DiffState { inside_semijoin: true, ..st };
            lemma_tree(env, st0, *left);
            let i = engine::tree_diff(env, st0, *left);
            lemma_deltas(env, i, *left);
            lemma_tree(env, i.0, *right);
            lemma_semi_join(env, st, op);
        },
        OpTree::AntiJoin { left, right, .. } => {
            let st0 = st;
            lemma_tree(env, st0, *left);
            let i = engine::tree_diff(env, st0, *left);
            lemma_deltas(env, i, *left);
            lemma_tree(env, i.0, *right);
            lemma_anti_join(env, st, op);
        },
        OpTree::Distinct { child, .. } => {
            lemma_tree(env, st, *child);
            lemma_distinct(env, st, op);
        },
        OpTree::CteScan { cte_id, .. } => {
            if cte_id < env.cte_registry.entries@.len() {
                parser::lemma_body_is_shallower(env.cte_registry, cte_id as int);
                lemma_tree(env, st, env.cte_registry.entries@[cte_id as int].1);
            }
            lemma_cte_scan(env, st, op);
        },
        OpTree::RecursiveCte { base, .. } => {
            lemma_tree(env, st, *base);
            lemma_recursive_cte(env, st, op);
        },
        OpTree::Window { child, .. } => {
            lemma_tree(env, st, *child);
            lemma_window(env, st, op);
        },
        OpTree::ScalarSubquery { child, subquery, .. } => {
            let st0 = st;
            lemma_tree(env, st0, *child);
            let i = engine::tree_diff(env, st0, *child);
            lemma_deltas(env, i, *child);
            lemma_tree(env, i.0, *subquery);
            lemma_scalar_subquery(env, st, op);
        },
        _ => {
            reveal(has_shape);
        },
    }
}

// ── Laws ───────────────────────────────────────────────────────────────

/// The delta of a tree has the columns that the tree and the settings
/// determine, and so has every recorded delta if it had them before.
pub proof fn delta_has_shape(env: DiffEnv, st: DiffState, op: OpTree)
    requires
        env.cte_registry.acyclic(),
        all_shaped(env, st.deltas),
    ensures
        all_shaped(env, engine::tree_diff(env, st, op).0.deltas),
        engine::tree_diff(env, st, op).1 matches Ok(d) ==> shaped(d, shape(env, op)),
{
    lemma_tree(env, st, op);
    reveal(has_shape);
}

} // verus!
