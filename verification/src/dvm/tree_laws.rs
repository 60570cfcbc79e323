//! What holds of every operator tree: its nodes, its sources and its columns.
//!
//! A node of a tree is named by a path from the top, and what is computed of a
//! tree is related to the nodes that occur in it.

use vstd::prelude::*;

use crate::dvm::operators::join_common;
use crate::dvm::operators::recursive_sql;
use crate::dvm::parser::OpTree;
use crate::text;

verus! {

// ── Nodes ──────────────────────────────────────────────────────────────

/// The inputs of an operator, from left to right.
pub open spec fn inputs(op: OpTree) -> Seq<OpTree> {
    match op {
        OpTree::Scan { .. } => Seq::empty(),
        OpTree::Filter { child, .. } => seq![*child],
        OpTree::Project { child, .. } => seq![*child],
        OpTree::InnerJoin { left, right, .. } => seq![*left, *right],
        OpTree::LeftJoin { left, right, .. } => seq![*left, *right],
        OpTree::FullJoin { left, right, .. } => seq![*left, *right],
        OpTree::SemiJoin { left, right, .. } => seq![*left, *right],
        OpTree::AntiJoin { left, right, .. } => seq![*left, *right],
        OpTree::Aggregate { child, .. } => seq![*child],
        OpTree::Distinct { child } => seq![*child],
        OpTree::Subquery { child, .. } => seq![*child],
        OpTree::CteScan { .. } => Seq::empty(),
        OpTree::RecursiveCte { base, recursive, .. } => seq![*base, *recursive],
        OpTree::RecursiveSelfRef { .. } => Seq::empty(),
        OpTree::Window { child, .. } => seq![*child],
        OpTree::ScalarSubquery { subquery, child, .. } => seq![*subquery, *child],
    }
}

/// The node at the end of a path, where each number picks an input.
pub open spec fn node_at(op: OpTree, path: Seq<int>) -> Option<OpTree>
    decreases path.len(),
{
    if path.len() == 0 {
        Some(op)
    } else if 0 <= path[0] < inputs(op).len() {
        node_at(inputs(op)[path[0]], path.drop_first())
    } else {
        None
    }
}

/// Whether a node occurs in a tree.
pub open spec fn occurs_in(node: OpTree, op: OpTree) -> bool {
    exists|path: Seq<int>| #[trigger] node_at(op, path) == Some(node)
}

/// A node of an input is a node of the operator.
proof fn lemma_node_below(op: OpTree, i: int, path: Seq<int>)
    requires
        0 <= i < inputs(op).len(),
    ensures
        node_at(op, seq![i] + path) == node_at(inputs(op)[i], path),
{
    let whole = seq![i] + path;
    assert(whole.drop_first() =~= path);
}

/// What occurs in an input occurs in the operator.
proof fn lemma_occurs_below(node: OpTree, op: OpTree, i: int)
    requires
        0 <= i < inputs(op).len(),
        occurs_in(node, inputs(op)[i]),
    ensures
        occurs_in(node, op),
{
    let path = choose|path: Seq<int>| #[trigger] node_at(inputs(op)[i], path) == Some(node);
    lemma_node_below(op, i, path);
    assert(node_at(op, seq![i] + path) == Some(node));
}

/// An operator occurs in itself.
proof fn lemma_occurs_here(op: OpTree)
    ensures
        occurs_in(op, op),
{
    assert(node_at(op, Seq::empty()) == Some(op));
}

// ── Sources ────────────────────────────────────────────────────────────

/// Whether a scalar subquery lists the tables that its subquery reads.
pub open spec fn lists_its_tables(op: OpTree) -> bool {
    op matches OpTree::ScalarSubquery { subquery, subquery_source_oids, .. } ==> forall|oid: u32|
        subquery.spec_sources().contains(oid) ==> #[trigger] subquery_source_oids@.contains(oid)
}

/// The sources of an input are sources of the operator, on whichever side the
/// input stands.
pub proof fn input_sources_are_sources(op: OpTree, i: int, oid: u32)
    requires
        0 <= i < inputs(op).len(),
        lists_its_tables(op),
        inputs(op)[i].spec_sources().contains(oid),
    ensures
        op.spec_sources().contains(oid),
{
    let all = op.spec_sources();
    let part = inputs(op)[i].spec_sources();
    let k = part.index_of(oid);
    assert(part[k] == oid);
    if inputs(op).len() == 1 {
        assert(all == part);
    } else if op is ScalarSubquery {
        let child = inputs(op)[1].spec_sources();
        let listed = op->ScalarSubquery_subquery_source_oids@;
        if i == 1 {
            assert(all[k] == oid);
        } else {
            assert(listed.contains(oid));
            let j = listed.index_of(oid);
            assert(all[child.len() + j] == oid);
        }
    } else {
        let left = inputs(op)[0].spec_sources();
        assert(all == left + inputs(op)[1].spec_sources());
        if i == 0 {
            assert(all[k] == oid);
        } else {
            assert(all[left.len() + k] == oid);
        }
    }
}

/// Every table that is scanned anywhere in a tree is one of its sources.
pub proof fn every_scan_is_a_source(op: OpTree, path: Seq<int>)
    requires
        node_at(op, path) matches Some(OpTree::Scan { .. }),
        forall|node: OpTree| #[trigger] occurs_in(node, op) ==> lists_its_tables(node),
    ensures
        op.spec_sources().contains((node_at(op, path)->0)->Scan_table_oid),
    decreases path.len(),
{
    if path.len() == 0 {
        let oid = op->Scan_table_oid;
        assert(op.spec_sources()[0] == oid);
    } else {
        let i = path[0];
        let below = inputs(op)[i];
        assert forall|node: OpTree| #[trigger] occurs_in(node, below) implies lists_its_tables(
            node,
        ) by {
            lemma_occurs_below(node, op, i);
        }
        every_scan_is_a_source(below, path.drop_first());
        lemma_occurs_here(op);
        input_sources_are_sources(op, i, (node_at(op, path)->0)->Scan_table_oid);
    }
}

/// Whether a node reads a table: by a scan, or by the list of a scalar
/// subquery.
pub open spec fn reads_table(node: OpTree, oid: u32) -> bool {
    match node {
        OpTree::Scan { table_oid, .. } => table_oid == oid,
        OpTree::ScalarSubquery { subquery_source_oids, .. } => subquery_source_oids@.contains(oid),
        _ => false,
    }
}

/// Every source of a tree is a table that some node of it reads.
pub proof fn every_source_is_read(op: OpTree, oid: u32)
    requires
        op.spec_sources().contains(oid),
    ensures
        exists|node: OpTree| #[trigger] occurs_in(node, op) && reads_table(node, oid),
    decreases op,
{
    let all = op.spec_sources();
    let k = all.index_of(oid);
    lemma_occurs_here(op);
    if !reads_table(op, oid) {
        match op {
            OpTree::Filter { child, .. } => below_reads(op, *child, 0, oid),
            OpTree::Project { child, .. } => below_reads(op, *child, 0, oid),
            OpTree::Aggregate { child, .. } => below_reads(op, *child, 0, oid),
            OpTree::Distinct { child } => below_reads(op, *child, 0, oid),
            OpTree::Subquery { child, .. } => below_reads(op, *child, 0, oid),
            OpTree::Window { child, .. } => below_reads(op, *child, 0, oid),
            OpTree::InnerJoin { left, right, .. } => either_reads(op, *left, *right, oid),
            OpTree::LeftJoin { left, right, .. } => either_reads(op, *left, *right, oid),
            OpTree::FullJoin { left, right, .. } => either_reads(op, *left, *right, oid),
            OpTree::SemiJoin { left, right, .. } => either_reads(op, *left, *right, oid),
            OpTree::AntiJoin { left, right, .. } => either_reads(op, *left, *right, oid),
            OpTree::RecursiveCte { base, recursive, .. } => {
                either_reads(op, *base, *recursive, oid)
            },
            OpTree::ScalarSubquery { child, subquery_source_oids, .. } => {
                let n = child.spec_sources().len();
                if k < n {
                    assert(child.spec_sources()[k] == oid);
                    below_reads(op, *child, 1, oid);
                } else {
                    assert(subquery_source_oids@[k - n] == oid);
                }
            },
            OpTree::Scan { table_oid, .. } => {
                assert(all[k] == table_oid);
            },
            _ => {},
        }
    }
}

/// A node of an input reads a table that is a source of the input.
proof fn below_reads(op: OpTree, below: OpTree, i: int, oid: u32)
    requires
        0 <= i < inputs(op).len(),
        inputs(op)[i] == below,
        decreases_to!(op => below),
        below.spec_sources().contains(oid),
    ensures
        exists|node: OpTree| #[trigger] occurs_in(node, op) && reads_table(node, oid),
    decreases op, 0nat,
{
    every_source_is_read(below, oid);
    let node = choose|node: OpTree| #[trigger] occurs_in(node, below) && reads_table(node, oid);
    lemma_occurs_below(node, op, i);
}

/// A node of one of two inputs reads a table that is a source of either.
proof fn either_reads(op: OpTree, left: OpTree, right: OpTree, oid: u32)
    requires
        inputs(op) == seq![left, right],
        decreases_to!(op => left),
        decreases_to!(op => right),
        (left.spec_sources() + right.spec_sources()).contains(oid),
    ensures
        exists|node: OpTree| #[trigger] occurs_in(node, op) && reads_table(node, oid),
    decreases op, 1nat,
{
    let both = left.spec_sources() + right.spec_sources();
    let k = both.index_of(oid);
    let n = left.spec_sources().len();
    if k < n {
        assert(left.spec_sources()[k] == oid);
        below_reads(op, left, 0, oid);
    } else {
        assert(right.spec_sources()[k - n] == oid);
        below_reads(op, right, 1, oid);
    }
}

/// The sources of trees, one tree after the other.
pub open spec fn sources_of_all(ops: Seq<OpTree>) -> Seq<u32>
    decreases ops.len(),
{
    if ops.len() == 0 {
        Seq::empty()
    } else {
        sources_of_all(ops.drop_last()) + ops.last().spec_sources()
    }
}

/// The sources of an operator that reads no table itself are those of its
/// inputs, in their order and as often as they stand there.
pub proof fn sources_are_those_of_the_inputs(op: OpTree)
    requires
        !(op is Scan),
        !(op is ScalarSubquery),
    ensures
        op.spec_sources() == sources_of_all(inputs(op)),
{
    reveal_with_fuel(sources_of_all, 3);
    let ins = inputs(op);
    if ins.len() == 1 {
        assert(ins.drop_last() =~= Seq::empty());
        assert(Seq::<u32>::empty() + ins[0].spec_sources() =~= ins[0].spec_sources());
    } else if ins.len() == 2 {
        assert(ins.drop_last() =~= seq![ins[0]]);
        assert(ins.drop_last().drop_last() =~= Seq::empty());
        assert(Seq::<u32>::empty() + ins[0].spec_sources() =~= ins[0].spec_sources());
    }
}

/// A tree without scans and scalar subqueries has no sources, and one that
/// scans a table has some.
pub proof fn trees_without_scans_have_no_sources(op: OpTree)
    requires
        forall|node: OpTree| #[trigger]
            occurs_in(node, op) ==> !(node is Scan) && !(node is ScalarSubquery),
    ensures
        op.spec_sources().len() == 0,
{
    if op.spec_sources().len() > 0 {
        let oid = op.spec_sources()[0];
        assert(op.spec_sources().contains(oid));
        every_source_is_read(op, oid);
    }
}

// ── Self-references ────────────────────────────────────────────────────

/// The aliases of the self-references of trees, one tree after the other.
pub open spec fn self_refs_of_all(ops: Seq<OpTree>) -> Seq<Seq<char>>
    decreases ops.len(),
{
    if ops.len() == 0 {
        Seq::empty()
    } else {
        self_refs_of_all(ops.drop_last()) + recursive_sql::self_ref_aliases(ops.last())
    }
}

/// A term refers to the expression that it defines where a self-reference
/// stands in it, from left to right.  Only what stands in a recursive
/// expression below refers to that one instead.
pub proof fn self_references_are_those_of_the_inputs(op: OpTree)
    ensures
        op is RecursiveSelfRef ==> recursive_sql::self_ref_aliases(op) == seq![
            op->RecursiveSelfRef_alias@,
        ],
        op is RecursiveCte ==> recursive_sql::self_ref_aliases(op).len() == 0,
        !(op is RecursiveSelfRef) && !(op is RecursiveCte) ==> recursive_sql::self_ref_aliases(op)
            == self_refs_of_all(inputs(op)),
{
    reveal_with_fuel(self_refs_of_all, 3);
    let ins = inputs(op);
    let none = Seq::<Seq<char>>::empty();
    if ins.len() == 1 {
        assert(ins.drop_last() =~= Seq::empty());
        assert(none + recursive_sql::self_ref_aliases(ins[0]) =~= recursive_sql::self_ref_aliases(
            ins[0],
        ));
    } else if ins.len() == 2 {
        assert(ins.drop_last() =~= seq![ins[0]]);
        assert(ins.drop_last().drop_last() =~= Seq::empty());
        assert(none + recursive_sql::self_ref_aliases(ins[0]) =~= recursive_sql::self_ref_aliases(
            ins[0],
        ));
    }
}

/// A term counts each self-reference of its inputs.
pub proof fn self_references_add_up(op: OpTree)
    ensures
        op is RecursiveSelfRef ==> recursive_sql::self_refs(op) == 1,
        op is RecursiveCte ==> recursive_sql::self_refs(op) == 0,
        inputs(op).len() == 0 && !(op is RecursiveSelfRef) ==> recursive_sql::self_refs(op) == 0,
        inputs(op).len() == 1 ==> recursive_sql::self_refs(op) == recursive_sql::self_refs(
            inputs(op)[0],
        ),
        inputs(op).len() == 2 && !(op is RecursiveCte) ==> recursive_sql::self_refs(op)
            == recursive_sql::self_refs(inputs(op)[0]) + recursive_sql::self_refs(inputs(op)[1]),
{
}

// ── Names of tables ────────────────────────────────────────────────────

/// Whether a condition above an operator can name the tables below it.
pub open spec fn lets_names_through(op: OpTree) -> bool {
    op is Filter || op is Project || op is Subquery || op is InnerJoin || op is LeftJoin
        || op is FullJoin
}

/// Whether a path ends at a scan and only leads through operators that let
/// names through.
pub open spec fn shows_scan(op: OpTree, path: Seq<int>) -> bool
    decreases path.len(),
{
    if path.len() == 0 {
        op is Scan
    } else {
        lets_names_through(op) && 0 <= path[0] < inputs(op).len() && shows_scan(
            inputs(op)[path[0]],
            path.drop_first(),
        )
    }
}

/// Whether a path ends at a scan of a table with an alias and only leads
/// through operators that let names through.
pub open spec fn shows_alias(op: OpTree, path: Seq<int>, alias: Seq<char>) -> bool {
    &&& shows_scan(op, path)
    &&& node_at(op, path) matches Some(OpTree::Scan { alias: a, .. })
    &&& a@ == alias
}

/// A table with an alias can be named if a path shows it.
pub proof fn shown_alias_is_a_source(op: OpTree, path: Seq<int>, alias: Seq<char>)
    requires
        shows_alias(op, path, alias),
    ensures
        join_common::has_source(op, alias),
    decreases path.len(),
{
    if path.len() > 0 {
        shown_alias_is_a_source(inputs(op)[path[0]], path.drop_first(), alias);
    }
}

/// A table with an alias can be named only if a path shows it.
pub proof fn source_alias_is_shown(op: OpTree, alias: Seq<char>) -> (path: Seq<int>)
    requires
        join_common::has_source(op, alias),
    ensures
        shows_alias(op, path, alias),
    decreases op,
{
    match op {
        OpTree::Filter { child, .. } => {
            let p = source_alias_is_shown(*child, alias);
            path_below(op, 0, p, alias)
        },
        OpTree::Project { child, .. } => {
            let p = source_alias_is_shown(*child, alias);
            path_below(op, 0, p, alias)
        },
        OpTree::Subquery { child, .. } => {
            let p = source_alias_is_shown(*child, alias);
            path_below(op, 0, p, alias)
        },
        OpTree::InnerJoin { left, right, .. } => if join_common::has_source(*left, alias) {
            let p = source_alias_is_shown(*left, alias);
            path_below(op, 0, p, alias)
        } else {
            let p = source_alias_is_shown(*right, alias);
            path_below(op, 1, p, alias)
        },
        OpTree::LeftJoin { left, right, .. } => if join_common::has_source(*left, alias) {
            let p = source_alias_is_shown(*left, alias);
            path_below(op, 0, p, alias)
        } else {
            let p = source_alias_is_shown(*right, alias);
            path_below(op, 1, p, alias)
        },
        OpTree::FullJoin { left, right, .. } => if join_common::has_source(*left, alias) {
            let p = source_alias_is_shown(*left, alias);
            path_below(op, 0, p, alias)
        } else {
            let p = source_alias_is_shown(*right, alias);
            path_below(op, 1, p, alias)
        },
        _ => Seq::empty(),
    }
}

/// A path that shows an alias below an operator shows it from the operator.
proof fn path_below(op: OpTree, i: int, path: Seq<int>, alias: Seq<char>) -> (whole: Seq<int>)
    requires
        lets_names_through(op),
        0 <= i < inputs(op).len(),
        shows_alias(inputs(op)[i], path, alias),
    ensures
        shows_alias(op, whole, alias),
{
    let whole = seq![i] + path;
    assert(whole.drop_first() =~= path);
    whole
}

/// A tree is simple if and only if nothing but filters, projections and
/// subqueries with one input each stand above its scan: then, and only then,
/// its columns keep their names.
pub proof fn simple_trees_have_one_scan(op: OpTree, alias: Seq<char>)
    ensures
        op is Scan ==> join_common::simple_child(op),
        op is Filter || op is Project || op is Subquery ==> join_common::simple_child(op)
            == join_common::simple_child(inputs(op)[0]),
        inputs(op).len() != 1 && !(op is Scan) ==> !join_common::simple_child(op),
        inputs(op).len() == 1 && !lets_names_through(op) ==> !join_common::simple_child(op),
        join_common::simple_source(op, alias) <==> join_common::has_source(op, alias)
            && join_common::simple_child(op),
    decreases op,
{
    match op {
        OpTree::Filter { child, .. } => simple_trees_have_one_scan(*child, alias),
        OpTree::Project { child, .. } => simple_trees_have_one_scan(*child, alias),
        OpTree::Subquery { child, .. } => simple_trees_have_one_scan(*child, alias),
        _ => {},
    }
}

// ── Columns and aliases ────────────────────────────────────────────────

/// The columns that an operator puts out, in terms of those of its inputs:
/// operators that only choose rows keep them, joins put those of the left
/// before those of the right, joins on existence keep those of the left, and a
/// list of names that is given replaces them.
pub proof fn columns_follow_from_inputs(op: OpTree)
    ensures
        op is Filter || op is Distinct || op is SemiJoin || op is AntiJoin ==> op.spec_columns()
            == inputs(op)[0].spec_columns(),
        op is InnerJoin || op is LeftJoin || op is FullJoin ==> op.spec_columns() == inputs(
            op,
        )[0].spec_columns() + inputs(op)[1].spec_columns(),
        op matches OpTree::Project { aliases, .. } ==> op.spec_columns() == text::texts(aliases@),
        op matches OpTree::RecursiveCte { columns, .. } ==> op.spec_columns() == text::texts(
            columns@,
        ),
        op matches OpTree::RecursiveSelfRef { columns, .. } ==> op.spec_columns() == text::texts(
            columns@,
        ),
        op matches OpTree::Subquery { column_aliases, child, .. } ==> op.spec_columns() == if
            column_aliases@.len() == 0 {
            child.spec_columns()
        } else {
            text::texts(column_aliases@)
        },
        op matches OpTree::CteScan { columns, cte_def_aliases, column_aliases, .. } ==> {
            &&& column_aliases@.len() > 0 ==> op.spec_columns() == text::texts(column_aliases@)
            &&& column_aliases@.len() == 0 && cte_def_aliases@.len() > 0 ==> op.spec_columns()
                == text::texts(cte_def_aliases@)
            &&& column_aliases@.len() == 0 && cte_def_aliases@.len() == 0 ==> op.spec_columns()
                == text::texts(columns@)
        },
        op matches OpTree::Window { window_exprs, pass_through, .. } ==> {
            &&& op.spec_columns().len() == pass_through@.len() + window_exprs@.len()
            &&& forall|i: int|
                0 <= i < pass_through@.len() ==> #[trigger] op.spec_columns()[i]
                    == pass_through@[i].1@
            &&& forall|i: int|
                0 <= i < window_exprs@.len() ==> op.spec_columns()[pass_through@.len() + i] == (
                #[trigger] window_exprs@[i]).alias@
        },
        op matches OpTree::ScalarSubquery { alias, child, .. } ==> op.spec_columns().drop_last()
            == child.spec_columns() && op.spec_columns().last() == alias@,
{
    if op is ScalarSubquery {
        let child = op->ScalarSubquery_child;
        assert(op.spec_columns().drop_last() =~= child.spec_columns());
    }
}

/// An operator that only chooses or computes rows is known under the name of
/// its input, a named one under its own, and no two kinds of joins share one.
pub proof fn aliases_follow_from_inputs(a: OpTree, b: OpTree)
    ensures
        a is Filter || a is Project || a is Distinct ==> a.spec_alias() == inputs(
            a,
        )[0].spec_alias(),
        a matches OpTree::Scan { alias, .. } ==> a.spec_alias() == alias@,
        a matches OpTree::Subquery { alias, .. } ==> a.spec_alias() == alias@,
        a matches OpTree::CteScan { alias, .. } ==> a.spec_alias() == alias@,
        a matches OpTree::RecursiveCte { alias, .. } ==> a.spec_alias() == alias@,
        a matches OpTree::RecursiveSelfRef { alias, .. } ==> a.spec_alias() == alias@,
        a is InnerJoin && b is LeftJoin ==> a.spec_alias() != b.spec_alias(),
        a is InnerJoin && b is FullJoin ==> a.spec_alias() != b.spec_alias(),
        a is LeftJoin && b is FullJoin ==> a.spec_alias() != b.spec_alias(),
        a is SemiJoin && b is AntiJoin ==> a.spec_alias() != b.spec_alias(),
{
    reveal_strlit("join");
    reveal_strlit("left_join");
    reveal_strlit("full_join");
    reveal_strlit("semi_join");
    reveal_strlit("anti_join");
    assert("join"@.len() == 4 && "left_join"@.len() == 9 && "full_join"@.len() == 9);
    assert("left_join"@[0] == 'l' && "full_join"@[0] == 'f');
    assert("semi_join"@[0] == 's' && "anti_join"@[0] == 'a');
}

/// Operators are told apart by their names.
pub proof fn operators_have_their_names(op: OpTree)
    ensures
        op is Scan <==> op.spec_kind() == "scan"@,
        op is Filter <==> op.spec_kind() == "filter"@,
        op is Project <==> op.spec_kind() == "project"@,
        op is InnerJoin <==> op.spec_kind() == "inner_join"@,
        op is LeftJoin <==> op.spec_kind() == "left_join"@,
        op is FullJoin <==> op.spec_kind() == "full_join"@,
        op is SemiJoin <==> op.spec_kind() == "semi_join"@,
        op is AntiJoin <==> op.spec_kind() == "anti_join"@,
        op is Aggregate <==> op.spec_kind() == "aggregate"@,
        op is Distinct <==> op.spec_kind() == "distinct"@,
        op is Subquery <==> op.spec_kind() == "subquery"@,
        op is CteScan <==> op.spec_kind() == "cte_scan"@,
        op is RecursiveCte <==> op.spec_kind() == "recursive_cte"@,
        op is RecursiveSelfRef <==> op.spec_kind() == "recursive_self_ref"@,
        op is Window <==> op.spec_kind() == "window"@,
        op is ScalarSubquery <==> op.spec_kind() == "scalar_subquery"@,
{
    reveal_strlit("scan");
    reveal_strlit("filter");
    reveal_strlit("project");
    reveal_strlit("inner_join");
    reveal_strlit("left_join");
    reveal_strlit("full_join");
    reveal_strlit("semi_join");
    reveal_strlit("anti_join");
    reveal_strlit("aggregate");
    reveal_strlit("distinct");
    reveal_strlit("subquery");
    reveal_strlit("cte_scan");
    reveal_strlit("recursive_cte");
    reveal_strlit("recursive_self_ref");
    reveal_strlit("window");
    reveal_strlit("scalar_subquery");
    assert("scan"@.len() == 4 && "filter"@.len() == 6 && "window"@.len() == 6
        && "project"@.len() == 7);
    assert("distinct"@.len() == 8 && "subquery"@.len() == 8 && "cte_scan"@.len() == 8);
    assert("left_join"@.len() == 9 && "full_join"@.len() == 9 && "semi_join"@.len() == 9
        && "anti_join"@.len() == 9 && "aggregate"@.len() == 9 && "inner_join"@.len() == 10);
    assert("recursive_cte"@.len() == 13 && "scalar_subquery"@.len() == 15
        && "recursive_self_ref"@.len() == 18);
    assert("filter"@[0] == 'f' && "window"@[0] == 'w');
    assert("left_join"@[0] == 'l' && "full_join"@[0] == 'f' && "semi_join"@[0] == 's'
        && "anti_join"@[1] == 'n' && "aggregate"@[1] == 'g' && "anti_join"@[0] == 'a'
        && "aggregate"@[0] == 'a');
    assert("distinct"@[0] == 'd' && "subquery"@[0] == 's' && "cte_scan"@[0] == 'c');
}

} // verus!
