//! Schedules of stream tables.
//!
//! A stream table without a schedule of its own is kept as fresh as what
//! reads it demands: its schedule is the shortest among the stream tables
//! directly downstream of it, or a fallback where there are none.  Schedules
//! are worked out round by round until nothing changes.

use vstd::prelude::*;

use crate::dag;
use crate::dag::{DagNode, Duration, NodeId, StDag};
use crate::graph;
use crate::graph::Edge;

verus! {

// ── What is worked out ─────────────────────────────────────────────────

/// The shortest schedule among those targets that are known.
pub open spec fn shortest(nodes: Seq<DagNode>, targets: Seq<NodeId>) -> Option<Duration>
    decreases targets.len(),
{
    if targets.len() == 0 {
        None
    } else {
        match (shortest(nodes, targets.drop_last()), dag::lookup(nodes, targets.last())) {
            (Some(d), Some(n)) => Some(d.least(n.effective_schedule)),
            (None, Some(n)) => Some(n.effective_schedule),
            (d, None) => d,
        }
    }
}

/// The schedule that a node should have: its own, or else the shortest
/// directly downstream, or else the fallback.
pub open spec fn wanted(
    nodes: Seq<DagNode>,
    edges: Seq<Edge>,
    node: DagNode,
    fallback: Duration,
) -> Duration {
    match node.schedule {
        Some(d) => d,
        None => match shortest(nodes, dag::downstream(edges, node.id)) {
            Some(d) => d,
            None => fallback,
        },
    }
}

/// Whether a node has the schedule that it should have.
pub open spec fn settled(
    nodes: Seq<DagNode>,
    edges: Seq<Edge>,
    fallback: Duration,
    i: int,
) -> bool {
    nodes[i].effective_schedule == wanted(nodes, edges, nodes[i], fallback)
}

/// Whether every node has the schedule that it should have.
pub open spec fn resolved(nodes: Seq<DagNode>, edges: Seq<Edge>, fallback: Duration) -> bool {
    forall|i: int| 0 <= i < nodes.len() ==> #[trigger] settled(nodes, edges, fallback, i)
}

/// Nodes after one of them got the schedule that it should have.
pub open spec fn step(
    nodes: Seq<DagNode>,
    edges: Seq<Edge>,
    fallback: Duration,
    i: int,
) -> Seq<DagNode> {
    nodes.update(
        i,
        DagNode {
            effective_schedule: wanted(nodes, edges, nodes[i], fallback),
            ..nodes[i]
        },
    )
}

/// Nodes after the first `k` of them got, in order, the schedule that they
/// should have.
pub open spec fn round(
    nodes: Seq<DagNode>,
    edges: Seq<Edge>,
    fallback: Duration,
    k: nat,
) -> Seq<DagNode>
    decreases k,
{
    if k == 0 {
        nodes
    } else {
        step(round(nodes, edges, fallback, (k - 1) as nat), edges, fallback, k - 1)
    }
}

/// Nodes after some rounds.
pub open spec fn rounds(
    nodes: Seq<DagNode>,
    edges: Seq<Edge>,
    fallback: Duration,
    n: nat,
) -> Seq<DagNode>
    decreases n,
{
    if n == 0 {
        nodes
    } else {
        let before = rounds(nodes, edges, fallback, (n - 1) as nat);
        round(before, edges, fallback, before.len())
    }
}

/// Whether two lists hold the same stream tables with the same schedules of
/// their own; only the schedules that are kept may differ.
pub open spec fn same_tables(a: Seq<DagNode>, b: Seq<DagNode>) -> bool {
    &&& a.len() == b.len()
    &&& forall|i: int|
        #![trigger a[i]]
        #![trigger b[i]]
        0 <= i < a.len() ==> b[i] == (DagNode {
            effective_schedule: b[i].effective_schedule,
            ..a[i]
        })
}

/// The fallback as a number of seconds.  A negative one counts from 2^64.
pub open spec fn fallback_secs(seconds: i32) -> u64 {
    if seconds >= 0 {
        seconds as u64
    } else {
        (u64::MAX + 1 + seconds) as u64
    }
}

// ── Facts ──────────────────────────────────────────────────────────────

/// The shortest schedule among targets depends on what is kept for them only.
proof fn lemma_shortest(a: Seq<DagNode>, b: Seq<DagNode>, targets: Seq<NodeId>)
    requires
        forall|k: int|
            0 <= k < targets.len() ==> #[trigger] kept(a, targets[k]) == kept(b, targets[k]),
    ensures
        shortest(a, targets) == shortest(b, targets),
    decreases targets.len(),
{
    if targets.len() > 0 {
        let rest = targets.drop_last();
        assert forall|k: int| 0 <= k < rest.len() implies #[trigger] kept(a, rest[k]) == kept(
            b,
            rest[k],
        ) by {
            assert(kept(a, targets[k]) == kept(b, targets[k]));
        }
        lemma_shortest(a, b, rest);
        assert(kept(a, targets[targets.len() - 1]) == kept(b, targets[targets.len() - 1]));
    }
}

/// The schedule that is kept for a node, if it is known.
pub open spec fn kept(nodes: Seq<DagNode>, id: NodeId) -> Option<Duration> {
    match dag::lookup(nodes, id) {
        Some(n) => Some(n.effective_schedule),
        None => None,
    }
}

/// What is kept for a node that stands at a place.
proof fn lemma_kept(nodes: Seq<DagNode>, id: NodeId)
    requires
        dag::ids_of(nodes).no_duplicates(),
    ensures
        forall|i: int|
            0 <= i < nodes.len() && (#[trigger] nodes[i]).id == id ==> kept(nodes, id) == Some(
                nodes[i].effective_schedule,
            ),
        kept(nodes, id) is Some ==> dag::ids_of(nodes).contains(id),
        kept(nodes, id) is Some <==> exists|i: int|
            0 <= i < nodes.len() && (#[trigger] nodes[i]).id == id,
    decreases nodes.len(),
{
    let ids = dag::ids_of(nodes);
    if nodes.len() > 0 {
        let rest = nodes.drop_last();
        assert(dag::ids_of(rest) =~= ids.drop_last());
        lemma_kept(rest, id);
        assert forall|i: int| 0 <= i < nodes.len() && (#[trigger] nodes[i]).id == id implies kept(
            nodes,
            id,
        ) == Some(nodes[i].effective_schedule) by {
            if i < nodes.len() - 1 {
                assert(ids[i] != ids[nodes.len() - 1]);
                assert(rest[i].id == id);
            }
        }
        if kept(nodes, id) is Some {
            if nodes.last().id == id {
                assert(ids[nodes.len() - 1] == id);
                assert(nodes[nodes.len() - 1].id == id);
            } else {
                let i = choose|i: int| 0 <= i < rest.len() && (#[trigger] rest[i]).id == id;
                assert(nodes[i].id == id);
                assert(ids[i] == id);
            }
        }
    }
}

/// Lists of the same tables have the same ids.
proof fn lemma_same_ids(a: Seq<DagNode>, b: Seq<DagNode>)
    requires
        same_tables(a, b),
    ensures
        dag::ids_of(a) == dag::ids_of(b),
{
    assert forall|i: int| 0 <= i < a.len() implies dag::ids_of(a)[i] == dag::ids_of(b)[i] by {
        assert(a[i].id == b[i].id);
    }
    assert(dag::ids_of(a) =~= dag::ids_of(b));
}

/// A target of an edge from a node has an edge from it.
proof fn lemma_downstream_edge(edges: Seq<Edge>, n: NodeId, k: int)
    requires
        0 <= k < dag::downstream(edges, n).len(),
    ensures
        edges.contains((n, dag::downstream(edges, n)[k])),
    decreases edges.len(),
{
    let rest = edges.drop_last();
    if k < dag::downstream(rest, n).len() {
        lemma_downstream_edge(rest, n, k);
        let t = dag::downstream(rest, n)[k];
        assert(edges[rest.index_of((n, t))] == (n, t));
    } else {
        assert(edges[edges.len() - 1] == edges.last());
    }
}

/// What a node should have stays the same when what is kept for nodes that do
/// not stand before it in the order changes.
proof fn lemma_wanted_stays(
    a: Seq<DagNode>,
    b: Seq<DagNode>,
    edges: Seq<Edge>,
    fallback: Duration,
    order: Seq<NodeId>,
    i: int,
    p: int,
)
    requires
        same_tables(a, b),
        dag::ids_of(a).no_duplicates(),
        order.to_set() == dag::ids_of(a).to_set(),
        graph::downstream_first(edges, order),
        0 <= i < a.len(),
        0 <= p < order.len(),
        order[p] == a[i].id,
        forall|j: int, q: int|
            #![trigger a[j], order[q]]
            0 <= j < a.len() && 0 <= q < p && order[q] == a[j].id ==> a[j].effective_schedule
                == b[j].effective_schedule,
    ensures
        wanted(a, edges, a[i], fallback) == wanted(b, edges, b[i], fallback),
{
    lemma_same_ids(a, b);
    let targets = dag::downstream(edges, a[i].id);
    assert forall|k: int| 0 <= k < targets.len() implies #[trigger] kept(a, targets[k]) == kept(
        b,
        targets[k],
    ) by {
        let t = targets[k];
        lemma_kept(a, t);
        lemma_kept(b, t);
        if kept(a, t) is Some || kept(b, t) is Some {
            assert(dag::ids_of(a).contains(t));
            let j = dag::ids_of(a).index_of(t);
            assert(a[j].id == t && b[j].id == t);
            assert(order.to_set().contains(t));
            let q = order.index_of(t);
            lemma_downstream_edge(edges, a[i].id, k);
            assert(edges.contains((order[p], order[q])));
            assert(q < p);
            assert(a[j].effective_schedule == b[j].effective_schedule);
        }
    }
    lemma_shortest(a, b, targets);
}

/// One step keeps the tables.
proof fn lemma_step_same(nodes: Seq<DagNode>, edges: Seq<Edge>, fallback: Duration, i: int)
    requires
        0 <= i < nodes.len(),
    ensures
        same_tables(nodes, step(nodes, edges, fallback, i)),
{
}

/// The first nodes of an order have the schedules that they should have.
spec fn settled_upto(
    nodes: Seq<DagNode>,
    edges: Seq<Edge>,
    fallback: Duration,
    order: Seq<NodeId>,
    k: int,
) -> bool {
    forall|j: int, q: int|
        #![trigger nodes[j], order[q]]
        0 <= j < nodes.len() && 0 <= q < k && q < order.len() && order[q] == nodes[j].id
            ==> settled(nodes, edges, fallback, j)
}

/// A step keeps what is settled at the start of the order, and settles the
/// node that it is for if that is the next.
proof fn lemma_step_settles(
    nodes: Seq<DagNode>,
    edges: Seq<Edge>,
    fallback: Duration,
    order: Seq<NodeId>,
    k: int,
    i: int,
)
    requires
        dag::ids_of(nodes).no_duplicates(),
        order.no_duplicates(),
        order.to_set() == dag::ids_of(nodes).to_set(),
        graph::downstream_first(edges, order),
        0 <= i < nodes.len(),
        0 <= k,
        settled_upto(nodes, edges, fallback, order, k),
    ensures
        settled_upto(step(nodes, edges, fallback, i), edges, fallback, order, k),
        k < order.len() && order[k] == nodes[i].id ==> settled(
            step(nodes, edges, fallback, i),
            edges,
            fallback,
            i,
        ),
        forall|j: int|
            #![trigger nodes[j]]
            0 <= j < nodes.len() && j != i && k < order.len() && order[k] == nodes[j].id
                && settled(nodes, edges, fallback, j) ==> settled(
                step(nodes, edges, fallback, i),
                edges,
                fallback,
                j,
            ),
{
    let after = step(nodes, edges, fallback, i);
    lemma_step_same(nodes, edges, fallback, i);
    let ids = dag::ids_of(nodes);
    assert(ids[i] == nodes[i].id);
    assert(order.to_set().contains(nodes[i].id));
    let r = order.index_of(nodes[i].id);
    // What is kept for nodes before place `k` does not change.
    assert forall|j: int, q: int|
        #![trigger nodes[j], order[q]]
        0 <= j < nodes.len() && 0 <= q < k && q < order.len() && order[q]
            == nodes[j].id implies nodes[j].effective_schedule == after[j].effective_schedule by {
        if j == i {
            assert(settled(nodes, edges, fallback, j));
        }
    }
    assert forall|j: int, q: int|
        #![trigger after[j], order[q]]
        0 <= j < after.len() && 0 <= q < k && q < order.len() && order[q]
            == after[j].id implies settled(after, edges, fallback, j) by {
        assert(nodes[j].id == after[j].id);
        assert(settled(nodes, edges, fallback, j));
        lemma_wanted_stays(nodes, after, edges, fallback, order, j, q);
    }
    if k < order.len() && order[k] == nodes[i].id {
        lemma_wanted_stays(nodes, after, edges, fallback, order, i, k);
    }
    assert forall|j: int|
        #![trigger nodes[j]]
        0 <= j < nodes.len() && j != i && k < order.len() && order[k] == nodes[j].id && settled(
            nodes,
            edges,
            fallback,
            j,
        ) implies settled(after, edges, fallback, j) by {
        lemma_wanted_stays(nodes, after, edges, fallback, order, j, k);
    }
}

/// A round keeps the tables, and after it one more node at the start of the
/// order has the schedule that it should have.
proof fn lemma_round_settles(
    nodes: Seq<DagNode>,
    edges: Seq<Edge>,
    fallback: Duration,
    order: Seq<NodeId>,
    k: int,
    m: nat,
)
    requires
        dag::ids_of(nodes).no_duplicates(),
        order.no_duplicates(),
        order.to_set() == dag::ids_of(nodes).to_set(),
        graph::downstream_first(edges, order),
        0 <= k,
        m <= nodes.len(),
        settled_upto(nodes, edges, fallback, order, k),
    ensures
        same_tables(nodes, round(nodes, edges, fallback, m)),
        settled_upto(round(nodes, edges, fallback, m), edges, fallback, order, k),
        forall|j: int|
            #![trigger nodes[j]]
            0 <= j < m && k < order.len() && order[k] == nodes[j].id ==> settled(
                round(nodes, edges, fallback, m),
                edges,
                fallback,
                j,
            ),
    decreases m,
{
    if m > 0 {
        lemma_round_settles(nodes, edges, fallback, order, k, (m - 1) as nat);
        let before = round(nodes, edges, fallback, (m - 1) as nat);
        lemma_same_ids(nodes, before);
        lemma_step_settles(before, edges, fallback, order, k, m - 1);
        lemma_step_same(before, edges, fallback, m - 1);
        assert forall|j: int|
            #![trigger nodes[j]]
            0 <= j < m && k < order.len() && order[k] == nodes[j].id implies settled(
            round(nodes, edges, fallback, m),
            edges,
            fallback,
            j,
        ) by {
            assert(before[j].id == nodes[j].id);
        }
    }
}

/// After as many rounds as there are nodes at the start of the order, those
/// have the schedules that they should have.
proof fn lemma_rounds_settle(
    nodes: Seq<DagNode>,
    edges: Seq<Edge>,
    fallback: Duration,
    order: Seq<NodeId>,
    n: nat,
)
    requires
        dag::ids_of(nodes).no_duplicates(),
        order.no_duplicates(),
        order.to_set() == dag::ids_of(nodes).to_set(),
        graph::downstream_first(edges, order),
    ensures
        same_tables(nodes, rounds(nodes, edges, fallback, n)),
        settled_upto(rounds(nodes, edges, fallback, n), edges, fallback, order, n as int),
    decreases n,
{
    if n > 0 {
        let k = n - 1;
        lemma_rounds_settle(nodes, edges, fallback, order, k as nat);
        let before = rounds(nodes, edges, fallback, k as nat);
        lemma_same_ids(nodes, before);
        lemma_round_settles(before, edges, fallback, order, k, before.len());
        let after = rounds(nodes, edges, fallback, n);
        assert forall|j: int, q: int|
            #![trigger after[j], order[q]]
            0 <= j < after.len() && 0 <= q < n && q < order.len() && order[q]
                == after[j].id implies settled(after, edges, fallback, j) by {
            assert(before[j].id == after[j].id);
        }
    }
}

/// Without cycles, as many rounds as there are stream tables give each the
/// schedule that it should have.
pub proof fn rounds_resolve(nodes: Seq<DagNode>, edges: Seq<Edge>, fallback: Duration, n: nat)
    requires
        graph::acyclic(edges),
        dag::ids_of(nodes).no_duplicates(),
        n >= nodes.len(),
    ensures
        resolved(rounds(nodes, edges, fallback, n), edges, fallback),
{
    let ids = dag::ids_of(nodes);
    ids.unique_seq_to_set();
    let order = graph::downstream_order(edges, ids.to_set());
    lemma_rounds_settle(nodes, edges, fallback, order, n);
    let after = rounds(nodes, edges, fallback, n);
    lemma_same_ids(nodes, after);
    assert forall|i: int| 0 <= i < after.len() implies #[trigger] settled(
        after,
        edges,
        fallback,
        i,
    ) by {
        assert(dag::ids_of(after)[i] == after[i].id);
        assert(ids.contains(after[i].id));
        assert(order.to_set().contains(after[i].id));
        let q = order.index_of(after[i].id);
        assert(order[q] == after[i].id);
    }
}

/// Without cycles there is only one way to give each stream table the schedule
/// that it should have.
pub proof fn schedules_are_unique(
    a: Seq<DagNode>,
    b: Seq<DagNode>,
    edges: Seq<Edge>,
    fallback: Duration,
)
    requires
        graph::acyclic(edges),
        dag::ids_of(a).no_duplicates(),
        same_tables(a, b),
        resolved(a, edges, fallback),
        resolved(b, edges, fallback),
    ensures
        a == b,
{
    let ids = dag::ids_of(a);
    let order = graph::downstream_order(edges, ids.to_set());
    lemma_same_upto(a, b, edges, fallback, order, order.len() as int);
    assert forall|i: int| 0 <= i < a.len() implies a[i] == b[i] by {
        assert(ids[i] == a[i].id);
        assert(order.to_set().contains(a[i].id));
        let q = order.index_of(a[i].id);
        assert(order[q] == a[i].id);
    }
    assert(a =~= b);
}

/// What is kept for the first nodes of the order is the same.
proof fn lemma_same_upto(
    a: Seq<DagNode>,
    b: Seq<DagNode>,
    edges: Seq<Edge>,
    fallback: Duration,
    order: Seq<NodeId>,
    k: int,
)
    requires
        dag::ids_of(a).no_duplicates(),
        same_tables(a, b),
        order.to_set() == dag::ids_of(a).to_set(),
        graph::downstream_first(edges, order),
        resolved(a, edges, fallback),
        resolved(b, edges, fallback),
        0 <= k <= order.len(),
    ensures
        forall|j: int, q: int|
            #![trigger a[j], order[q]]
            0 <= j < a.len() && 0 <= q < k && order[q] == a[j].id ==> a[j].effective_schedule
                == b[j].effective_schedule,
    decreases k,
{
    if k > 0 {
        lemma_same_upto(a, b, edges, fallback, order, k - 1);
        assert forall|j: int, q: int|
            #![trigger a[j], order[q]]
            0 <= j < a.len() && 0 <= q < k && order[q]
                == a[j].id implies a[j].effective_schedule == b[j].effective_schedule by {
            if q == k - 1 {
                lemma_wanted_stays(a, b, edges, fallback, order, j, q);
                assert(settled(a, edges, fallback, j));
                assert(settled(b, edges, fallback, j));
            }
        }
    }
}

/// The shortest schedule among targets is one of them, and none is shorter.
pub proof fn shortest_is_least(nodes: Seq<DagNode>, targets: Seq<NodeId>)
    ensures
        match shortest(nodes, targets) {
            Some(d) => {
                &&& exists|k: int|
                    0 <= k < targets.len() && #[trigger] kept(nodes, targets[k]) == Some(d)
                &&& forall|k: int|
                    0 <= k < targets.len() && (#[trigger] kept(nodes, targets[k])) is Some ==> !kept(
                        nodes,
                        targets[k],
                    )->0.shorter(d)
            },
            None => forall|k: int|
                0 <= k < targets.len() ==> (#[trigger] kept(nodes, targets[k])) is None,
        },
    decreases targets.len(),
{
    if targets.len() > 0 {
        let rest = targets.drop_last();
        shortest_is_least(nodes, rest);
        let last = targets.len() - 1;
        let best = shortest(nodes, targets);
        assert forall|k: int| 0 <= k < targets.len() - 1 implies #[trigger] kept(
            nodes,
            targets[k],
        ) == kept(nodes, rest[k]) by {}
        assert(kept(nodes, targets[last]) == kept(nodes, targets.last()));
        if shortest(nodes, rest) is Some {
            let k = choose|k: int|
                0 <= k < rest.len() && #[trigger] kept(nodes, rest[k]) == shortest(nodes, rest);
            assert(kept(nodes, targets[k]) == shortest(nodes, rest));
        }
        if best is Some {
            assert forall|k: int|
                0 <= k < targets.len() && (#[trigger] kept(
                    nodes,
                    targets[k],
                )) is Some implies !kept(nodes, targets[k])->0.shorter(best->0) by {
                if k < last {
                    assert(kept(nodes, rest[k]) == kept(nodes, targets[k]));
                }
            }
        } else {
            assert forall|k: int| 0 <= k < targets.len() implies (#[trigger] kept(
                nodes,
                targets[k],
            )) is None by {
                if k < last {
                    assert(kept(nodes, rest[k]) == kept(nodes, targets[k]));
                }
            }
        }
    }
}

// ── Resolution ─────────────────────────────────────────────────────────

/// Rounds that change nothing can go on.
proof fn lemma_stable(
    nodes: Seq<DagNode>,
    edges: Seq<Edge>,
    fallback: Duration,
    n: nat,
    m: nat,
)
    requires
        n <= m,
        rounds(nodes, edges, fallback, n + 1) == rounds(nodes, edges, fallback, n),
    ensures
        rounds(nodes, edges, fallback, m) == rounds(nodes, edges, fallback, n),
    decreases m - n,
{
    if n < m {
        lemma_stable(nodes, edges, fallback, n, (m - 1) as nat);
    }
}

/// Rounds keep the tables.
proof fn lemma_rounds_same(nodes: Seq<DagNode>, edges: Seq<Edge>, fallback: Duration, n: nat)
    ensures
        same_tables(nodes, rounds(nodes, edges, fallback, n)),
    decreases n,
{
    if n > 0 {
        lemma_rounds_same(nodes, edges, fallback, (n - 1) as nat);
        let before = rounds(nodes, edges, fallback, (n - 1) as nat);
        lemma_round_same(before, edges, fallback, before.len());
    }
}

/// A round keeps the tables.
proof fn lemma_round_same(nodes: Seq<DagNode>, edges: Seq<Edge>, fallback: Duration, k: nat)
    requires
        k <= nodes.len(),
    ensures
        same_tables(nodes, round(nodes, edges, fallback, k)),
    decreases k,
{
    if k > 0 {
        lemma_round_same(nodes, edges, fallback, (k - 1) as nat);
        lemma_step_same(round(nodes, edges, fallback, (k - 1) as nat), edges, fallback, k - 1);
    }
}

/// The fallback as a length of time.
fn fallback_schedule(seconds: i32) -> (r: Duration)
    ensures
        r == Duration::of_secs(fallback_secs(seconds)),
{
    if seconds >= 0 {
        Duration::from_secs(seconds as u64)
    } else {
        let below: i32 = -(seconds + 1);
        Duration::from_secs(u64::MAX - below as u64)
    }
}

impl StDag {
    /// The shortest schedule among those targets that are known.
    fn shortest_of(&self, targets: &Vec<NodeId>) -> (r: Option<Duration>)
        ensures
            r == shortest(self.nodes@, targets@),
    {
        let mut best: Option<Duration> = None;
        let mut i: usize = 0;
        while i < targets.len()
            invariant
                i <= targets.len(),
                best == shortest(self.nodes@, targets@.take(i as int)),
            decreases targets.len() - i,
        {
            assert(targets@.take(i + 1).drop_last() =~= targets@.take(i as int));
            best = match (best, self.get_node(targets[i])) {
                (Some(d), Some(n)) => Some(d.min(n.effective_schedule)),
                (None, Some(n)) => Some(n.effective_schedule),
                (d, None) => d,
            };
            i += 1;
        }
        assert(targets@.take(i as int) =~= targets@);
        best
    }

    /// The schedule that a node should have.
    fn wanted_for(&self, i: usize, fallback: Duration) -> (r: Duration)
        requires
            i < self.nodes@.len(),
        ensures
            r == wanted(self.nodes@, self.edges@, self.nodes@[i as int], fallback),
    {
        match self.nodes[i].schedule {
            Some(d) => d,
            None => {
                let targets = self.get_downstream(self.nodes[i].id);
                match self.shortest_of(&targets) {
                    Some(d) => d,
                    None => fallback,
                }
            },
        }
    }

    /// Gives every node, in order, the schedule that it should have, and says
    /// whether that changed anything.
    fn resolve_round(&mut self, fallback: Duration) -> (changed: bool)
        ensures
            final(self).edges == old(self).edges,
            final(self).all_nodes == old(self).all_nodes,
            final(self).nodes@ == round(
                old(self).nodes@,
                old(self).edges@,
                fallback,
                old(self).nodes@.len(),
            ),
            !changed ==> final(self).nodes@ == old(self).nodes@,
    {
        let ghost before = self.nodes@;
        let mut changed = false;
        let mut i: usize = 0;
        while i < self.nodes.len()
            invariant
                i <= self.nodes.len(),
                before == old(self).nodes@,
                self.nodes@.len() == before.len(),
                self.edges == old(self).edges,
                self.all_nodes == old(self).all_nodes,
                self.nodes@ == round(before, self.edges@, fallback, i as nat),
                !changed ==> self.nodes@ == before,
            decreases self.nodes.len() - i,
        {
            let ghost now = self.nodes@;
            let want = self.wanted_for(i, fallback);
            if self.nodes[i].effective_schedule != want {
                self.nodes[i].effective_schedule = want;
                changed = true;
            }
            assert(self.nodes@ =~= step(now, self.edges@, fallback, i as int));
            i += 1;
        }
        changed
    }

    /// Works out the schedules of stream tables.
    ///
    /// A stream table with a schedule of its own keeps it.  Any other gets the
    /// shortest schedule of the stream tables directly downstream of it, or
    /// the fallback where there are none.  This goes on until nothing changes,
    /// one round longer than there are stream tables at most; without cycles
    /// that is enough.
    pub fn resolve_calculated_schedule(&mut self, fallback_seconds: i32)
        requires
            old(self).wf(),
        ensures
            final(self).wf(),
            final(self).edge_list() == old(self).edge_list(),
            final(self).member_list() == old(self).member_list(),
            same_tables(old(self).node_list(), final(self).node_list()),
            final(self).node_list() == rounds(
                old(self).node_list(),
                old(self).edge_list(),
                Duration::of_secs(fallback_secs(fallback_seconds)),
                old(self).node_list().len() + 1,
            ),
            graph::acyclic(old(self).edge_list()) ==> resolved(
                final(self).node_list(),
                final(self).edge_list(),
                Duration::of_secs(fallback_secs(fallback_seconds)),
            ),
    {
        let fallback = fallback_schedule(fallback_seconds);
        let ghost before = self.nodes@;
        let ghost edges = self.edges@;
        let mut left: usize = self.nodes.len();
        let mut changed = self.resolve_round(fallback);
        proof {
            assert(self.nodes@ == rounds(before, edges, fallback, 1)) by {
                reveal_with_fuel(rounds, 2);
            }
            lemma_round_same(before, edges, fallback, before.len());
            if !changed {
                lemma_stable(before, edges, fallback, 0, before.len() + 1);
            }
        }
        while changed && left > 0
            invariant
                edges == old(self).edges@,
                self.edges == old(self).edges,
                self.all_nodes == old(self).all_nodes,
                self.nodes@.len() == before.len(),
                left <= before.len(),
                changed ==> self.nodes@ == rounds(
                    before,
                    edges,
                    fallback,
                    (before.len() + 1 - left) as nat,
                ),
                !changed ==> self.nodes@ == rounds(before, edges, fallback, before.len() + 1),
            decreases left,
        {
            let ghost k = (before.len() + 1 - left) as nat;
            let ghost now = self.nodes@;
            changed = self.resolve_round(fallback);
            left -= 1;
            proof {
                assert(self.nodes@ == rounds(before, edges, fallback, k + 1));
                lemma_round_same(now, edges, fallback, now.len());
                if !changed {
                    lemma_stable(before, edges, fallback, k, before.len() + 1);
                }
            }
        }
        proof {
            let n = before.len() + 1;
            lemma_rounds_same(before, edges, fallback, n);
            lemma_same_ids(before, self.nodes@);
            assert forall|i: int|
                #![trigger self.nodes@[i]]
                0 <= i < self.nodes@.len() implies self.all_nodes@.contains(self.nodes@[i].id) by {
                assert(self.nodes@[i].id == before[i].id);
            }
            if graph::acyclic(edges) {
                rounds_resolve(before, edges, fallback, n);
            }
        }
    }
}

} // verus!
