//! Differentiation of operator trees.

use vstd::prelude::*;

use crate::dvm::diff;
use crate::dvm::diff::{DiffContext, DiffEnv, DiffResult, DiffState, Outcome};
use crate::dvm::operators::anti_join;
use crate::dvm::operators::anti_join::diff_anti_join;
use crate::dvm::operators::cte_scan;
use crate::dvm::operators::cte_scan::diff_cte_scan;
use crate::dvm::operators::distinct;
use crate::dvm::operators::distinct::diff_distinct;
use crate::dvm::operators::filter;
use crate::dvm::operators::filter::diff_filter;
use crate::dvm::operators::full_join;
use crate::dvm::operators::full_join::diff_full_join;
use crate::dvm::operators::join;
use crate::dvm::operators::join::diff_inner_join;
use crate::dvm::operators::outer_join;
use crate::dvm::operators::outer_join::diff_left_join;
use crate::dvm::operators::recursive_cte;
use crate::dvm::operators::recursive_cte::diff_recursive_cte;
use crate::dvm::operators::scalar_subquery;
use crate::dvm::operators::scalar_subquery::diff_scalar_subquery;
use crate::dvm::operators::scan;
use crate::dvm::operators::scan::diff_scan;
use crate::dvm::operators::semi_join;
use crate::dvm::operators::semi_join::diff_semi_join;
use crate::dvm::operators::window;
use crate::dvm::operators::window::diff_window;
use crate::dvm::parser::OpTree;
use crate::error::{ErrorView, PgTrickleError};

verus! {

/// The outcome of differentiating an operator tree.
///
/// Inputs are differentiated from left to right, each from the state that the
/// one before left behind; the first failure ends it.
#[verifier::opaque]
pub open spec fn tree_diff(env: DiffEnv, st: DiffState, op: OpTree) -> Outcome
    decreases env.cte_registry.depth(op), op, 1nat,
{
    match op {
        OpTree::Scan { .. } => scan::scan_diff(env, st, op),
        OpTree::Filter { .. } => filter::filter_diff(env, st, op),
        OpTree::InnerJoin { .. } => join::inner_join_diff(env, st, op),
        OpTree::LeftJoin { .. } => outer_join::left_join_diff(env, st, op),
        OpTree::FullJoin { .. } => full_join::full_join_diff(env, st, op),
        OpTree::SemiJoin { .. } => semi_join::semi_join_diff(env, st, op),
        OpTree::AntiJoin { .. } => anti_join::anti_join_diff(env, st, op),
        OpTree::Distinct { .. } => distinct::distinct_diff(env, st, op),
        OpTree::CteScan { .. } => cte_scan::cte_scan_diff(env, st, op),
        OpTree::RecursiveCte { .. } => recursive_cte::recursive_cte_diff(env, st, op),
        OpTree::Window { .. } => window::window_diff(env, st, op),
        OpTree::ScalarSubquery { .. } => scalar_subquery::scalar_subquery_diff(env, st, op),
        _ => (st, Err(ErrorView::UnsupportedOperator(op.spec_kind()))),
    }
}

impl DiffContext {
    /// Differentiates an operator tree.
    ///
    /// Adds the CTEs of the tree to the chain and returns the one that holds
    /// its delta.  Operators without a differentiation are refused.
    pub fn diff_node(&mut self, op: &OpTree) -> (r: Result<DiffResult, PgTrickleError>)
        requires
            old(self).env().cte_registry.acyclic(),
        ensures
            final(self).env() == old(self).env(),
            diff::yields(
                *final(self),
                r,
                tree_diff(old(self).env(), old(self).state(), *op),
            ),
        decreases old(self).env().cte_registry.depth(*op), op, 1nat,
    {
        reveal_with_fuel(tree_diff, 1);
        match op {
            OpTree::Scan { .. } => diff_scan(self, op),
            OpTree::Filter { .. } => diff_filter(self, op),
            OpTree::InnerJoin { .. } => diff_inner_join(self, op),
            OpTree::LeftJoin { .. } => diff_left_join(self, op),
            OpTree::FullJoin { .. } => diff_full_join(self, op),
            OpTree::SemiJoin { .. } => diff_semi_join(self, op),
            OpTree::AntiJoin { .. } => diff_anti_join(self, op),
            OpTree::Distinct { .. } => diff_distinct(self, op),
            OpTree::CteScan { .. } => diff_cte_scan(self, op),
            OpTree::RecursiveCte { .. } => diff_recursive_cte(self, op),
            OpTree::Window { .. } => diff_window(self, op),
            OpTree::ScalarSubquery { .. } => diff_scalar_subquery(self, op),
            _ => Err(PgTrickleError::UnsupportedOperator(op.node_kind().to_string())),
        }
    }
}

} // verus!
