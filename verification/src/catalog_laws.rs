//! What holds of the catalog and the dependency graph that is built from it:
//! names are read back and only names are read, rows become records and nodes
//! column by column, dependencies become edges, and schedules are those that
//! were asked for.

use vstd::prelude::*;

use crate::catalog;
use crate::catalog::{CdcMode, StreamTableRow};
use crate::dag;
use crate::dag::{DagNode, DependencyRow, Duration, NodeId, RefreshMode, StStatus, TableRow};
use crate::error::ErrorView;
use crate::graph;
use crate::graph::Edge;
use crate::hooks;
use crate::schedule;
use crate::text;

verus! {

// ── Names ──────────────────────────────────────────────────────────────

/// Only the names of statuses are read as statuses, each as the one with that
/// name; any other text is refused, and the refusal shows it.
pub proof fn only_names_of_statuses_are_read(s: Seq<char>)
    ensures
        match StStatus::parsed(s) {
            Ok(status) => status.name() == s,
            Err(e) => (forall|status: StStatus| #[trigger] status.name() != s)
                && e is InvalidArgument && text::ends(e->InvalidArgument_0, s),
        },
{
    assert(("unknown status: "@ + s).subrange(
        "unknown status: "@.len() as int,
        ("unknown status: "@ + s).len() as int,
    ) =~= s);
}

/// Only the names of capture modes are read as such.
pub proof fn only_names_of_capture_modes_are_read(s: Seq<char>)
    ensures
        match CdcMode::parsed(s) {
            Ok(mode) => mode.name() == s,
            Err(e) => (forall|mode: CdcMode| #[trigger] mode.name() != s) && e is InvalidArgument
                && text::ends(e->InvalidArgument_0, s),
        },
{
    assert(("unknown CDC mode: "@ + s).subrange(
        "unknown CDC mode: "@.len() as int,
        ("unknown CDC mode: "@ + s).len() as int,
    ) =~= s);
}

/// Only the names of refresh modes are read as such, but for the older name of
/// the differential mode.
pub proof fn only_names_of_refresh_modes_are_read(s: Seq<char>)
    ensures
        match RefreshMode::parsed(s) {
            Ok(mode) => mode.name() == s || (mode == RefreshMode::Differential && s
                == "INCREMENTAL"@),
            Err(e) => (forall|mode: RefreshMode| #[trigger] mode.name() != s) && s
                != "INCREMENTAL"@ && e is InvalidArgument && text::occurs(
                e->InvalidArgument_0,
                s,
            ),
        },
        RefreshMode::parsed("INCREMENTAL"@) == Ok::<RefreshMode, ErrorView>(
            RefreshMode::Differential,
        ),
{
    reveal_strlit("INCREMENTAL");
    reveal_strlit("FULL");
    assert("INCREMENTAL"@.len() == 11 && "FULL"@.len() == 4);
    let a = "unknown refresh mode: "@;
    let t = a + s + ". Must be 'FULL' or 'DIFFERENTIAL'"@;
    assert(t.subrange(a.len() as int, (a.len() + s.len()) as int) =~= s);
    assert(text::occurs_at(t, s, a.len() as int));
}

// ── Rows of the catalog ────────────────────────────────────────────────

/// Whether the columns that must have a value have one, and the others can be
/// read.
pub open spec fn complete(row: StreamTableRow) -> bool {
    &&& row.pgs_id is Ok && row.pgs_id->Ok_0 is Some
    &&& row.pgs_relid is Ok && row.pgs_relid->Ok_0 is Some
    &&& row.pgs_name is Ok && row.pgs_name->Ok_0 is Some
    &&& row.pgs_schema is Ok && row.pgs_schema->Ok_0 is Some
    &&& row.defining_query is Ok && row.defining_query->Ok_0 is Some
    &&& row.schedule is Ok && row.refresh_mode is Ok && row.status is Ok
    &&& row.is_populated is Ok && row.data_timestamp is Ok && row.consecutive_errors is Ok
    &&& row.needs_reinit is Ok && row.frontier is Ok
}

/// A row is a record if and only if its columns are complete and its mode and
/// status are known.
pub proof fn complete_rows_are_records(row: StreamTableRow)
    ensures
        catalog::row_failure(row) is None <==> complete(row) && catalog::row_mode(row) is Ok
            && catalog::row_status(row) is Ok,
{
}

/// The failure of a row is that of its first column that fails: a column that
/// cannot be read, or one that must have a value and has none, which the
/// failure names.
pub proof fn the_first_failure_is_told(row: StreamTableRow)
    ensures
        row.pgs_id is Err ==> catalog::row_failure(row) == Some(
            ErrorView::SpiError(row.pgs_id->Err_0@),
        ),
        row.pgs_id == Ok::<Option<i64>, String>(None) ==> catalog::row_failure(row) == Some(
            ErrorView::InternalError("pgs_id"@ + " is NULL"@),
        ),
        ({
            let told = row.pgs_id is Ok && row.pgs_id->Ok_0 is Some;
            &&& told && row.pgs_relid is Err ==> catalog::row_failure(row) == Some(
                ErrorView::SpiError(row.pgs_relid->Err_0@),
            )
            &&& told && row.pgs_relid == Ok::<Option<u32>, String>(None) ==> catalog::row_failure(
                row,
            ) == Some(ErrorView::InternalError("pgs_relid"@ + " is NULL"@))
        }),
        ({
            let told = row.pgs_id is Ok && row.pgs_id->Ok_0 is Some && row.pgs_relid is Ok
                && row.pgs_relid->Ok_0 is Some;
            let name = row.pgs_name is Ok && row.pgs_name->Ok_0 is Some;
            let schema = row.pgs_schema is Ok && row.pgs_schema->Ok_0 is Some;
            let query = row.defining_query is Ok && row.defining_query->Ok_0 is Some;
            &&& told && row.pgs_name == Ok::<Option<String>, String>(None)
                ==> catalog::row_failure(row) == Some(
                ErrorView::InternalError("pgs_name"@ + " is NULL"@),
            )
            &&& told && name && row.pgs_schema == Ok::<Option<String>, String>(None)
                ==> catalog::row_failure(row) == Some(
                ErrorView::InternalError("pgs_schema"@ + " is NULL"@),
            )
            &&& told && name && schema && row.defining_query == Ok::<Option<String>, String>(None)
                ==> catalog::row_failure(row) == Some(
                ErrorView::InternalError("defining_query"@ + " is NULL"@),
            )
            &&& told && name && schema && query && row.schedule is Err ==> catalog::row_failure(
                row,
            ) == Some(ErrorView::SpiError(row.schedule->Err_0@))
        }),
{
}

/// A record has what its row has, column by column, and what stands for a
/// column that has no value: a differential mode, a status of initializing,
/// flags that are off, and no errors.
pub proof fn records_have_what_their_rows_have(row: StreamTableRow)
    requires
        catalog::row_failure(row) is None,
    ensures
        ({
            let r = catalog::row_record(row);
            &&& row.pgs_id == Ok::<Option<i64>, String>(Some(r.pgs_id))
            &&& row.pgs_relid == Ok::<Option<u32>, String>(Some(r.pgs_relid))
            &&& row.pgs_name->Ok_0->0@ == r.pgs_name
            &&& row.pgs_schema->Ok_0->0@ == r.pgs_schema
            &&& row.defining_query->Ok_0->0@ == r.defining_query
            &&& row.schedule->Ok_0 is None ==> r.schedule is None
            &&& row.schedule->Ok_0 is Some ==> r.schedule == Some(row.schedule->Ok_0->0@)
            &&& row.refresh_mode->Ok_0 is Some ==> RefreshMode::parsed(
                text::uppercase(row.refresh_mode->Ok_0->0@),
            ) == Ok::<RefreshMode, ErrorView>(r.refresh_mode)
            &&& row.refresh_mode->Ok_0 is None ==> RefreshMode::parsed(
                text::uppercase(RefreshMode::Differential.name()),
            ) == Ok::<RefreshMode, ErrorView>(r.refresh_mode)
            &&& row.status->Ok_0 is Some ==> r.status.name() == row.status->Ok_0->0@
            &&& row.status->Ok_0 is None ==> r.status == StStatus::Initializing
            &&& row.is_populated->Ok_0 is Some ==> r.is_populated == row.is_populated->Ok_0->0
            &&& row.is_populated->Ok_0 is None ==> !r.is_populated
            &&& r.data_timestamp == row.data_timestamp->Ok_0
            &&& row.consecutive_errors->Ok_0 is Some ==> r.consecutive_errors
                == row.consecutive_errors->Ok_0->0
            &&& row.consecutive_errors->Ok_0 is None ==> r.consecutive_errors == 0
            &&& row.needs_reinit->Ok_0 is Some ==> r.needs_reinit == row.needs_reinit->Ok_0->0
            &&& row.needs_reinit->Ok_0 is None ==> !r.needs_reinit
            &&& row.frontier->Ok_0 is Some ==> r.frontier == Some(row.frontier->Ok_0->0@)
            &&& row.frontier->Ok_0 is None ==> r.frontier is None
        }),
{
    complete_rows_are_records(row);
    dag::status_reads_back(StStatus::Initializing);
    if row.status->Ok_0 is Some {
        only_names_of_statuses_are_read(row.status->Ok_0->0@);
    }
}

/// The records of rows that come together are those of the rows: in their
/// order, and rows that fail give failures in their order.
pub proof fn rows_are_read_apart(a: Seq<StreamTableRow>, b: Seq<StreamTableRow>)
    ensures
        catalog::records(a + b) == catalog::records(a) + catalog::records(b),
        catalog::failures(a + b) == catalog::failures(a) + catalog::failures(b),
    decreases b.len(),
{
    if b.len() == 0 {
        assert(a + b =~= a);
        assert(catalog::records(a) + catalog::records(b) =~= catalog::records(a));
        assert(catalog::failures(a) + catalog::failures(b) =~= catalog::failures(a));
    } else {
        rows_are_read_apart(a, b.drop_last());
        assert((a + b).drop_last() =~= a + b.drop_last());
        assert((a + b).last() == b.last());
        assert(catalog::records(a + b) =~= catalog::records(a) + catalog::records(b));
        assert(catalog::failures(a + b) =~= catalog::failures(a) + catalog::failures(b));
    }
}

/// One row gives its record, or its failure and no record.
pub proof fn one_row_gives_its_record(row: StreamTableRow)
    ensures
        catalog::row_failure(row) is None ==> catalog::records(seq![row]) == seq![
            catalog::row_record(row),
        ] && catalog::failures(seq![row]).len() == 0,
        catalog::row_failure(row) is Some ==> catalog::failures(seq![row]) == seq![
            catalog::row_failure(row)->0,
        ] && catalog::records(seq![row]).len() == 0,
{
    reveal_with_fuel(catalog::records, 2);
    reveal_with_fuel(catalog::failures, 2);
    assert(seq![row].drop_last() =~= Seq::empty());
    assert(catalog::records(seq![row]) =~= (if catalog::row_failure(row) is None {
        seq![catalog::row_record(row)]
    } else {
        Seq::empty()
    }));
    assert(catalog::failures(seq![row]) =~= (match catalog::row_failure(row) {
        Some(e) => seq![e],
        None => Seq::empty(),
    }));
}

// ── Nodes and edges ────────────────────────────────────────────────────

/// A node has what its row has: its number, its name behind that of its
/// schema, its schedule in whole seconds where it is a length of time, never
/// below zero, and its status, which is an error where it is not known.
pub proof fn nodes_have_what_their_rows_have(node: DagNode, row: TableRow)
    requires
        dag::describes(node, row),
    ensures
        row.pgs_id is Some ==> node.id == NodeId::StreamTable(row.pgs_id->0),
        row.pgs_schema is Some && row.pgs_name is Some ==> node.name@ == row.pgs_schema->0@ + "."@
            + row.pgs_name->0@,
        row.schedule is None || row.schedule_secs is None ==> node.schedule is None
            && node.effective_schedule.secs == 0 && node.effective_schedule.nanos == 0,
        row.schedule is Some && row.schedule_secs is Some ==> {
            &&& node.schedule == Some(node.effective_schedule)
            &&& node.effective_schedule.nanos == 0
            &&& row.schedule_secs->0 >= 0 ==> node.effective_schedule.secs == row.schedule_secs->0
            &&& row.schedule_secs->0 < 0 ==> node.effective_schedule.secs == 0
        },
        row.schedule is Some ==> node.schedule_raw is Some && node.schedule_raw->0@
            == row.schedule->0@,
        row.schedule is None ==> node.schedule_raw is None,
        row.status is Some ==> node.status.name() == row.status->0@ || (node.status
            == StStatus::Error && forall|s: StStatus| #[trigger] s.name() != row.status->0@),
{
    if row.status is Some {
        only_names_of_statuses_are_read(row.status->0@);
    }
}

/// A dependency leads to the stream table that reads, from the stream table
/// that is read where it is one, and else from the base table.
pub proof fn edges_lead_from_sources_to_readers(row: DependencyRow)
    ensures
        row.pgs_id is Some ==> dag::row_edge(row).1 == NodeId::StreamTable(row.pgs_id->0),
        row.source_pgs_id is Some ==> dag::row_edge(row).0 == NodeId::StreamTable(
            row.source_pgs_id->0,
        ),
        row.source_pgs_id is None && row.source_relid is Some ==> dag::row_edge(row).0
            == NodeId::BaseTable(row.source_relid->0),
        dag::row_edge(row).1 is StreamTable,
{
}

/// A node that was added is found, in place of one with the same number, and
/// the others are found as before.
pub proof fn added_nodes_are_found(nodes: Seq<DagNode>, node: DagNode, id: NodeId)
    requires
        dag::ids_of(nodes).no_duplicates(),
    ensures
        dag::lookup(dag::with_node(nodes, node), node.id) == Some(node),
        id != node.id ==> dag::lookup(dag::with_node(nodes, node), id) == dag::lookup(nodes, id),
    decreases nodes.len(),
{
    reveal_with_fuel(dag::lookup, 2);
    if nodes.len() == 0 {
        assert(seq![node].drop_last() =~= Seq::empty());
    } else {
        let rest = nodes.drop_first();
        assert(nodes =~= seq![nodes.first()] + rest);
        assert forall|i: int, j: int|
            0 <= i < rest.len() && 0 <= j < rest.len() && i != j implies dag::ids_of(rest)[i]
            != dag::ids_of(rest)[j] by {
            assert(dag::ids_of(nodes)[i + 1] == rest[i].id);
            assert(dag::ids_of(nodes)[j + 1] == rest[j].id);
        }
        lemma_lookup_first(nodes.first(), rest, id);
        if nodes.first().id == node.id {
            lemma_lookup_first(node, rest, id);
            lemma_lookup_first(node, rest, node.id);
            if dag::lookup(rest, node.id) is Some {
                let k = lemma_found(rest, node.id);
                assert(dag::ids_of(nodes)[k + 1] == node.id);
                assert(dag::ids_of(nodes)[0] == node.id);
            }
        } else {
            added_nodes_are_found(rest, node, id);
            lemma_lookup_first(nodes.first(), dag::with_node(rest, node), id);
            lemma_lookup_first(nodes.first(), dag::with_node(rest, node), node.id);
        }
    }
}

/// A node that is found stands in the list.
proof fn lemma_found(nodes: Seq<DagNode>, id: NodeId) -> (k: int)
    requires
        dag::lookup(nodes, id) is Some,
    ensures
        0 <= k < nodes.len(),
        nodes[k].id == id,
    decreases nodes.len(),
{
    if nodes.last().id == id {
        nodes.len() - 1
    } else {
        lemma_found(nodes.drop_last(), id)
    }
}

/// A node at the front is found unless a later one has the same number.
proof fn lemma_lookup_first(first: DagNode, rest: Seq<DagNode>, id: NodeId)
    ensures
        dag::lookup(seq![first] + rest, id) == (match dag::lookup(rest, id) {
            Some(n) => Some(n),
            None => if first.id == id {
                Some(first)
            } else {
                None
            },
        }),
    decreases rest.len(),
{
    reveal_with_fuel(dag::lookup, 2);
    if rest.len() == 0 {
        assert(seq![first] + rest =~= seq![first]);
        assert(seq![first].drop_last() =~= Seq::empty());
    } else {
        assert((seq![first] + rest).drop_last() =~= seq![first] + rest.drop_last());
        lemma_lookup_first(first, rest.drop_last(), id);
    }
}

/// The graph of a catalog has an edge for each dependency, in their order, and
/// the node of each row, the later one where two have the same number.
pub proof fn graphs_have_every_row(
    added: Seq<DagNode>,
    node: DagNode,
    rows: Seq<DependencyRow>,
    i: int,
)
    requires
        dag::ids_of(dag::nodes_added(added)).no_duplicates(),
    ensures
        dag::row_edges(rows).len() == rows.len(),
        0 <= i < rows.len() ==> dag::row_edges(rows)[i] == dag::row_edge(rows[i]),
        dag::lookup(dag::nodes_added(added.push(node)), node.id) == Some(node),
        dag::nodes_added(Seq::empty()).len() == 0,
{
    assert(added.push(node).drop_last() =~= added);
    added_nodes_are_found(dag::nodes_added(added), node, node.id);
}

/// A node that is found has the number that was asked for, and is one of the
/// nodes; where none is found, none has that number.
pub proof fn found_nodes_are_those_asked_for(nodes: Seq<DagNode>, id: NodeId)
    ensures
        match dag::lookup(nodes, id) {
            Some(n) => n.id == id && nodes.contains(n),
            None => forall|i: int| 0 <= i < nodes.len() ==> (#[trigger] nodes[i]).id != id,
        },
    decreases nodes.len(),
{
    if nodes.len() > 0 {
        found_nodes_are_those_asked_for(nodes.drop_last(), id);
        let rest = nodes.drop_last();
        match dag::lookup(nodes, id) {
            Some(n) => {
                if nodes.last().id == id {
                    assert(nodes[nodes.len() - 1] == n);
                } else {
                    assert(nodes[rest.index_of(n)] == n);
                }
            },
            None => {
                assert forall|i: int| 0 <= i < nodes.len() implies (#[trigger] nodes[i]).id != id by {
                    if i < rest.len() {
                        assert(rest[i].id != id);
                    }
                }
            },
        }
    }
}

/// Every row's node, and both ends of every dependency, are members of the
/// graph.
pub proof fn members_are_nodes_and_ends(
    added: Seq<DagNode>,
    edges: Seq<Edge>,
    i: int,
    k: int,
)
    ensures
        0 <= i < added.len() ==> dag::ids_joined(dag::ids_added(added), edges).contains(
            added[i].id,
        ),
        0 <= k < edges.len() ==> dag::ids_joined(dag::ids_added(added), edges).contains(
            edges[k].0,
        ) && dag::ids_joined(dag::ids_added(added), edges).contains(edges[k].1),
{
    if 0 <= i < added.len() {
        lemma_ids_added(added, i);
        lemma_ids_kept(dag::ids_added(added), edges, added[i].id);
    }
    if 0 <= k < edges.len() {
        lemma_ends_joined(dag::ids_added(added), edges, k);
    }
}

/// A number that was listed stays listed, and one that is added is.
proof fn lemma_with(ids: Seq<NodeId>, id: NodeId, x: NodeId)
    ensures
        dag::with_id(ids, id).contains(id),
        ids.contains(x) ==> dag::with_id(ids, id).contains(x),
{
    if !ids.contains(id) {
        assert(ids.push(id)[ids.len() as int] == id);
        if ids.contains(x) {
            assert(ids.push(id)[ids.index_of(x)] == x);
        }
    }
}

/// The number of an added node is listed.
proof fn lemma_ids_added(added: Seq<DagNode>, i: int)
    requires
        0 <= i < added.len(),
    ensures
        dag::ids_added(added).contains(added[i].id),
    decreases added.len(),
{
    let rest = added.drop_last();
    lemma_with(dag::ids_added(rest), added.last().id, added[i].id);
    if i < rest.len() {
        lemma_ids_added(rest, i);
    }
}

/// Adding edges keeps what is listed.
proof fn lemma_ids_kept(ids: Seq<NodeId>, edges: Seq<Edge>, x: NodeId)
    requires
        ids.contains(x),
    ensures
        dag::ids_joined(ids, edges).contains(x),
    decreases edges.len(),
{
    if edges.len() > 0 {
        let rest = dag::ids_joined(ids, edges.drop_last());
        lemma_ids_kept(ids, edges.drop_last(), x);
        lemma_with(rest, edges.last().0, x);
        lemma_with(dag::with_id(rest, edges.last().0), edges.last().1, x);
    }
}

/// The ends of an added edge are listed.
proof fn lemma_ends_joined(ids: Seq<NodeId>, edges: Seq<Edge>, k: int)
    requires
        0 <= k < edges.len(),
    ensures
        dag::ids_joined(ids, edges).contains(edges[k].0),
        dag::ids_joined(ids, edges).contains(edges[k].1),
    decreases edges.len(),
{
    let before = edges.drop_last();
    let rest = dag::ids_joined(ids, before);
    let mid = dag::with_id(rest, edges.last().0);
    if k < before.len() {
        lemma_ends_joined(ids, before, k);
        assert(before[k] == edges[k]);
    }
    lemma_with(rest, edges.last().0, edges[k].0);
    lemma_with(rest, edges.last().0, edges[k].1);
    lemma_with(mid, edges.last().1, edges[k].0);
    lemma_with(mid, edges.last().1, edges[k].1);
}

/// The shorter of two lengths of time is one of them, is not longer than
/// either, and does not depend on their order.
pub proof fn the_least_is_not_longer(a: Duration, b: Duration)
    ensures
        a.least(b) == a || a.least(b) == b,
        !a.shorter(a.least(b)),
        !b.shorter(a.least(b)),
        a.least(b) == b.least(a),
        a.secs < b.secs ==> a.least(b) == a,
        a.secs == b.secs && a.nanos < b.nanos ==> a.least(b) == a,
{
}

/// A node is shown by its name where it is known, and else by its kind and
/// number.
pub proof fn unknown_nodes_are_shown_by_number(nodes: Seq<DagNode>, id: NodeId)
    ensures
        dag::lookup(nodes, id) matches Some(n) ==> dag::display_name(nodes, id) == n.name@,
        dag::lookup(nodes, id) is None ==> match id {
            NodeId::BaseTable(oid) => text::occurs(
                dag::display_name(nodes, id),
                text::decimal(oid as nat),
            ) && text::begins(dag::display_name(nodes, id), "base_table("@),
            NodeId::StreamTable(n) => text::occurs(
                dag::display_name(nodes, id),
                text::decimal_int(n as int),
            ) && text::begins(dag::display_name(nodes, id), "stream_table("@),
        },
{
    let t = dag::display_name(nodes, id);
    if dag::lookup(nodes, id) is None {
        match id {
            NodeId::BaseTable(oid) => {
                reveal_strlit("base_table(oid=");
                reveal_strlit("base_table(");
                let d = text::decimal(oid as nat);
                assert(t.subrange(15, 15int + d.len()) =~= d);
                assert(text::occurs_at(t, d, 15));
                assert(t.subrange(0, 11) =~= "base_table("@);
            },
            NodeId::StreamTable(n) => {
                reveal_strlit("stream_table(id=");
                reveal_strlit("stream_table(");
                let d = text::decimal_int(n as int);
                assert(t.subrange(16, 16int + d.len()) =~= d);
                assert(text::occurs_at(t, d, 16));
                assert(t.subrange(0, 13) =~= "stream_table("@);
            },
        }
    }
}

/// A direct dependency is one, one dependency goes on to the next, and a node
/// is on a cycle where it depends on itself.
pub proof fn dependencies_go_on(edges: Seq<Edge>, a: NodeId, b: NodeId, c: NodeId)
    ensures
        edges.contains((a, b)) ==> graph::reaches(edges, a, b),
        edges.contains((a, b)) && graph::reaches(edges, b, c) ==> graph::reaches(edges, a, c),
        edges.contains((a, a)) ==> graph::on_cycle(edges, a) && !graph::acyclic(edges),
        edges.contains((a, b)) && edges.contains((b, a)) ==> graph::on_cycle(edges, a)
            && graph::on_cycle(edges, b),
        graph::reaches(edges, a, b) && graph::on_cycle(edges, a) ==> graph::blocked(edges, b),
        edges.len() == 0 ==> graph::acyclic(edges),
{
    if edges.contains((a, b)) {
        graph::reaches_on(edges, a, a, b);
        if graph::reaches(edges, b, c) {
            let s = choose|s: Seq<NodeId>| #[trigger]
                graph::is_path(edges, s) && s.first() == b && s.last() == c;
            let t = seq![a] + s;
            assert forall|i: int| 0 <= i < t.len() - 1 implies #[trigger] graph::step_at(
                edges,
                t,
                i,
            ) by {
                if i > 0 {
                    assert(graph::step_at(edges, s, i - 1));
                }
            }
            assert(graph::is_path(edges, t));
        }
    }
    if edges.contains((a, a)) {
        graph::reaches_on(edges, a, a, a);
        assert(graph::on_cycle(edges, a));
    }
    if edges.contains((a, b)) && edges.contains((b, a)) {
        graph::reaches_on(edges, a, b, a);
        graph::reaches_on(edges, b, b, a);
        graph::reaches_on(edges, b, a, b);
    }
    if edges.len() == 0 {
        assert forall|n: NodeId| !#[trigger] graph::on_cycle(edges, n) by {
            if graph::on_cycle(edges, n) {
                let s = choose|s: Seq<NodeId>| #[trigger]
                    graph::is_path(edges, s) && s.first() == n && s.last() == n;
                assert(graph::step_at(edges, s, 0));
            }
        }
    }
}

/// Exactly the stream tables are kept, in their order.
pub proof fn exactly_stream_tables_are_refreshed(a: Seq<NodeId>, b: Seq<NodeId>, n: i64, t: u32)
    ensures
        dag::stream_tables(a + b) == dag::stream_tables(a) + dag::stream_tables(b),
        dag::stream_tables(seq![NodeId::StreamTable(n)]) == seq![NodeId::StreamTable(n)],
        dag::stream_tables(seq![NodeId::BaseTable(t)]).len() == 0,
    decreases b.len(),
{
    reveal_with_fuel(dag::stream_tables, 2);
    assert(seq![NodeId::StreamTable(n)].drop_last() =~= Seq::empty());
    assert(seq![NodeId::BaseTable(t)].drop_last() =~= Seq::empty());
    assert(dag::stream_tables(seq![NodeId::StreamTable(n)]) =~= seq![NodeId::StreamTable(n)]);
    if b.len() == 0 {
        assert(a + b =~= a);
        assert(dag::stream_tables(a) + dag::stream_tables(b) =~= dag::stream_tables(a));
    } else {
        exactly_stream_tables_are_refreshed(a, b.drop_last(), n, t);
        assert((a + b).drop_last() =~= a + b.drop_last());
        assert(dag::stream_tables(a + b) =~= dag::stream_tables(a) + dag::stream_tables(b));
    }
}

// ── Schedules ──────────────────────────────────────────────────────────

/// Where schedules are settled, a stream table with a schedule of its own
/// keeps it; one without is as fresh as the most demanding stream table
/// directly downstream of it, and keeps the fallback where none is known
/// there.
pub proof fn settled_schedules_serve_readers(
    nodes: Seq<DagNode>,
    edges: Seq<Edge>,
    fallback: Duration,
    i: int,
    reader: DagNode,
)
    requires
        schedule::resolved(nodes, edges, fallback),
        0 <= i < nodes.len(),
    ensures
        nodes[i].schedule is Some ==> nodes[i].effective_schedule == nodes[i].schedule->0,
        nodes[i].schedule is None && edges.contains((nodes[i].id, reader.id)) && dag::lookup(
            nodes,
            reader.id,
        ) == Some(reader) ==> !reader.effective_schedule.shorter(nodes[i].effective_schedule),
        nodes[i].schedule is None && (forall|b: NodeId| #[trigger]
            edges.contains((nodes[i].id, b)) ==> dag::lookup(nodes, b) is None)
            ==> nodes[i].effective_schedule == fallback,
{
    assert(schedule::settled(nodes, edges, fallback, i));
    let id = nodes[i].id;
    let targets = dag::downstream(edges, id);
    schedule::shortest_is_least(nodes, targets);
    if edges.contains((id, reader.id)) && dag::lookup(nodes, reader.id) == Some(reader) {
        dag::ends_agree(edges, id, reader.id);
        let k = targets.index_of(reader.id);
        assert(schedule::kept(nodes, targets[k]) is Some);
    }
    if (forall|b: NodeId| #[trigger]
        edges.contains((id, b)) ==> dag::lookup(nodes, b) is None) && schedule::shortest(
        nodes,
        targets,
    ) is Some {
        let d = schedule::shortest(nodes, targets)->0;
        let k = choose|k: int|
            0 <= k < targets.len() && #[trigger] schedule::kept(nodes, targets[k]) == Some(d);
        assert(targets.contains(targets[k]));
        dag::ends_agree(edges, id, targets[k]);
        assert(edges.contains((id, targets[k])));
    }
}

/// Rounds change only the schedules that are kept.
pub proof fn rounds_keep_what_was_asked_for(
    nodes: Seq<DagNode>,
    edges: Seq<Edge>,
    fallback: Duration,
    k: nat,
    i: int,
)
    requires
        k <= nodes.len(),
        0 <= i < nodes.len(),
    ensures
        ({
            let after = schedule::round(nodes, edges, fallback, k);
            &&& after.len() == nodes.len()
            &&& after[i].id == nodes[i].id
            &&& after[i].schedule == nodes[i].schedule
            &&& after[i].name == nodes[i].name
            &&& after[i].status == nodes[i].status
            &&& after[i].schedule_raw == nodes[i].schedule_raw
            &&& i >= k ==> after[i] == nodes[i]
        }),
    decreases k,
{
    if k > 0 {
        rounds_keep_what_was_asked_for(nodes, edges, fallback, (k - 1) as nat, i);
    }
}

/// A fallback that is not negative is that many seconds; a negative one is
/// longer than any that is not.
pub proof fn fallbacks_are_seconds(a: i32, b: i32)
    ensures
        a >= 0 ==> schedule::fallback_secs(a) == a,
        a < 0 && b >= 0 ==> schedule::fallback_secs(b) < schedule::fallback_secs(a),
        a < b < 0 ==> schedule::fallback_secs(a) < schedule::fallback_secs(b),
{
}

// ── Storage tables ─────────────────────────────────────────────────────

/// The storage table of a stream table is one that is listed with it, and
/// there is none where it is not listed.
pub proof fn storage_tables_are_those_listed(tables: Seq<(i64, u32)>, id: i64)
    ensures
        match hooks::storage_of(tables, id) {
            Some(relid) => tables.contains((id, relid)),
            None => forall|i: int| 0 <= i < tables.len() ==> (#[trigger] tables[i]).0 != id,
        },
    decreases tables.len(),
{
    if tables.len() > 0 {
        let rest = tables.drop_first();
        storage_tables_are_those_listed(rest, id);
        match hooks::storage_of(tables, id) {
            Some(relid) => {
                if tables.first().0 == id {
                    assert(tables[0] == (id, relid));
                } else {
                    assert(tables[rest.index_of((id, relid)) + 1] == (id, relid));
                }
            },
            None => {
                assert forall|i: int| 0 <= i < tables.len() implies (#[trigger] tables[i]).0
                    != id by {
                    if i > 0 {
                        assert(rest[i - 1].0 != id);
                    }
                }
            },
        }
    }
}

/// The stream tables further down are those to begin with, and with each one
/// what reads its storage table, and so on.
pub proof fn readers_are_further_down(
    tables: Seq<(i64, u32)>,
    deps: Seq<(u32, i64)>,
    from: Seq<i64>,
    a: i64,
    b: i64,
)
    ensures
        from.contains(a) ==> hooks::derives(tables, deps, from, a),
        hooks::derives(tables, deps, from, a) && hooks::storage_of(tables, a) is Some
            && deps.contains((hooks::storage_of(tables, a)->0, b)) ==> hooks::derives(
            tables,
            deps,
            from,
            b,
        ),
        hooks::derives(tables, deps, from, b) && !from.contains(b) ==> exists|relid: u32| #[trigger]
            deps.contains((relid, b)),
{
    if from.contains(a) {
        let s = seq![a];
        assert(hooks::is_chain(tables, deps, s));
        assert(s.first() == a && s.last() == a);
    }
    if hooks::derives(tables, deps, from, a) && hooks::storage_of(tables, a) is Some
        && deps.contains((hooks::storage_of(tables, a)->0, b)) {
        let s = choose|s: Seq<i64>| #[trigger]
            hooks::is_chain(tables, deps, s) && s.len() > 0 && from.contains(s.first())
                && s.last() == a;
        let t = s.push(b);
        assert forall|i: int| 0 <= i < t.len() - 1 implies #[trigger] hooks::link(
            tables,
            deps,
            t,
            i,
        ) by {
            if i < s.len() - 1 {
                assert(hooks::link(tables, deps, s, i));
            }
        }
        assert(hooks::is_chain(tables, deps, t));
        assert(t.first() == s.first() && t.last() == b);
    }
    if hooks::derives(tables, deps, from, b) && !from.contains(b) {
        let s = choose|s: Seq<i64>| #[trigger]
            hooks::is_chain(tables, deps, s) && s.len() > 0 && from.contains(s.first())
                && s.last() == b;
        assert(s.len() > 1);
        assert(hooks::link(tables, deps, s, s.len() - 2));
        assert(deps.contains((hooks::storage_of(tables, s[s.len() - 2])->0, b)));
    }
}

/// What is said of a trigger names it, and says whether it fires.
pub proof fn messages_name_the_trigger(identity: Seq<char>)
    ensures
        text::occurs(hooks::trigger_warning(identity), identity),
        text::occurs(hooks::trigger_warning(identity), "will NOT fire"@),
        text::occurs(hooks::trigger_notice(identity), identity),
        text::occurs(hooks::trigger_notice(identity), "will fire"@),
        text::occurs(hooks::trigger_notice(identity), "do NOT fire during FULL refresh"@),
{
    reveal_strlit("pg_stream: trigger ");
    reveal_strlit("will NOT fire");
    reveal_strlit("will fire");
    reveal_strlit("do NOT fire during FULL refresh");
    reveal_strlit(
        " is on a stream table, but pg_stream.user_triggers = 'off'. This trigger will NOT fire correctly during refresh. Set pg_stream.user_triggers = 'auto' or 'on' to enable trigger support.",
    );
    reveal_strlit(
        " is on a stream table. It will fire during DIFFERENTIAL refresh with correct TG_OP/OLD/NEW. Note: row-level triggers do NOT fire during FULL refresh. Use REFRESH MODE DIFFERENTIAL to ensure triggers fire on every change.",
    );
    let w = hooks::trigger_warning(identity);
    let n = hooks::trigger_notice(identity);
    let k = 19int + identity.len();
    assert(w.subrange(19, k) =~= identity);
    assert(text::occurs_at(w, identity, 19));
    assert(n.subrange(19, k) =~= identity);
    assert(text::occurs_at(n, identity, 19));
    assert(w.subrange(k + 73, k + 73 + 13) =~= "will NOT fire"@);
    assert(text::occurs_at(w, "will NOT fire"@, k + 73));
    assert(n.subrange(k + 26, k + 26 + 9) =~= "will fire"@);
    assert(text::occurs_at(n, "will fire"@, k + 26));
    assert(n.subrange(k + 117, k + 117 + 31) =~= "do NOT fire during FULL refresh"@);
    assert(text::occurs_at(n, "do NOT fire during FULL refresh"@, k + 117));
}

/// An object without a name is shown by the word in its place.
pub proof fn names_are_shown_where_there_are_any(identity: Option<String>, word: Seq<char>)
    ensures
        identity is Some ==> hooks::identity_or(identity, word) == identity->0@,
        identity is None ==> hooks::identity_or(identity, word) == word,
{
}

} // verus!
