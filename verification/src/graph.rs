//! Paths and cycles in the dependency graph.

use vstd::prelude::*;

use crate::dag::NodeId;

verus! {

/// An edge from a source to what depends on it.
pub type Edge = (NodeId, NodeId);

/// Whether an edge leads from one node of a sequence to the next.
pub open spec fn step_at(edges: Seq<Edge>, s: Seq<NodeId>, i: int) -> bool {
    edges.contains((s[i], s[i + 1]))
}

/// Whether edges lead from each node of a sequence to the next.
pub open spec fn is_walk(edges: Seq<Edge>, s: Seq<NodeId>) -> bool {
    forall|i: int| 0 <= i < s.len() - 1 ==> #[trigger] step_at(edges, s, i)
}

/// Whether a sequence of at least two nodes follows edges.
pub open spec fn is_path(edges: Seq<Edge>, s: Seq<NodeId>) -> bool {
    s.len() >= 2 && is_walk(edges, s)
}

/// Whether edges lead from one node to another.
pub open spec fn reaches(edges: Seq<Edge>, a: NodeId, b: NodeId) -> bool {
    exists|s: Seq<NodeId>| #[trigger] is_path(edges, s) && s.first() == a && s.last() == b
}

/// Whether a node is on a cycle.
pub open spec fn on_cycle(edges: Seq<Edge>, n: NodeId) -> bool {
    reaches(edges, n, n)
}

/// Whether there is no cycle.
pub open spec fn acyclic(edges: Seq<Edge>) -> bool {
    forall|n: NodeId| !#[trigger] on_cycle(edges, n)
}

/// Whether a node is on a cycle or depends on one.
pub open spec fn blocked(edges: Seq<Edge>, n: NodeId) -> bool {
    exists|m: NodeId| #[trigger] on_cycle(edges, m) && (m == n || reaches(edges, m, n))
}

/// Whether the edges only join some nodes.
pub open spec fn joins_only(edges: Seq<Edge>, nodes: Seq<NodeId>) -> bool {
    forall|i: int|
        #![trigger edges[i]]
        0 <= i < edges.len() ==> nodes.contains(edges[i].0) && nodes.contains(edges[i].1)
}

/// Whether every node of a sequence comes after all nodes that it depends on.
pub open spec fn upstream_first(edges: Seq<Edge>, order: Seq<NodeId>) -> bool {
    forall|a: NodeId, p: int|
        #![trigger edges.contains((a, order[p]))]
        0 <= p < order.len() && edges.contains((a, order[p])) ==> order.take(p).contains(a)
}

/// In an order that puts upstream nodes first, a path leads from an earlier
/// node to a later one.
pub proof fn path_follows_order(edges: Seq<Edge>, order: Seq<NodeId>, s: Seq<NodeId>, p: int)
    requires
        upstream_first(edges, order),
        is_path(edges, s),
        0 <= p < order.len(),
        s.last() == order[p],
    ensures
        order.take(p).contains(s.first()),
    decreases s.len(),
{
    let prev = s[s.len() - 2];
    assert(step_at(edges, s, s.len() - 2));
    assert(order.take(p).contains(prev));
    if s.len() > 2 {
        let r = order.take(p).index_of(prev);
        let t = s.drop_last();
        assert forall|i: int| 0 <= i < t.len() - 1 implies #[trigger] step_at(edges, t, i) by {
            assert(step_at(edges, s, i));
        }
        path_follows_order(edges, order, t, r);
        let q = order.take(r).index_of(s.first());
        assert(order.take(p)[q] == s.first());
    }
}

/// A node in an order that puts upstream nodes first neither is on a cycle nor
/// depends on one.
pub proof fn ordered_is_not_blocked(edges: Seq<Edge>, order: Seq<NodeId>, n: NodeId)
    requires
        upstream_first(edges, order),
        order.no_duplicates(),
        order.contains(n),
    ensures
        !blocked(edges, n),
{
    if blocked(edges, n) {
        let m = choose|m: NodeId| #[trigger] on_cycle(edges, m) && (m == n || reaches(edges, m, n));
        if m != n {
            let s = choose|s: Seq<NodeId>|
                #[trigger] is_path(edges, s) && s.first() == m && s.last() == n;
            let p = order.index_of(n);
            path_follows_order(edges, order, s, p);
            let q = order.take(p).index_of(m);
            assert(order[q] == m);
        }
        assert(order.contains(m));
        let c = choose|s: Seq<NodeId>|
            #[trigger] is_path(edges, s) && s.first() == m && s.last() == m;
        let p = order.index_of(m);
        path_follows_order(edges, order, c, p);
        let q = order.take(p).index_of(m);
        assert(order[q] == order[p]);
    }
}

/// An edge leads on from its source, and from whatever leads there.
pub proof fn reaches_on(edges: Seq<Edge>, a: NodeId, b: NodeId, c: NodeId)
    requires
        a == b || reaches(edges, a, b),
        edges.contains((b, c)),
    ensures
        reaches(edges, a, c),
{
    let s = if a == b {
        seq![a]
    } else {
        choose|s: Seq<NodeId>| #[trigger] is_path(edges, s) && s.first() == a && s.last() == b
    };
    let t = s.push(c);
    assert forall|i: int| 0 <= i < t.len() - 1 implies #[trigger] step_at(edges, t, i) by {
        if i < s.len() - 1 {
            assert(step_at(edges, s, i));
        }
    }
    assert(is_path(edges, t) && t.first() == a && t.last() == c);
}

/// Whether a node has an edge from a node of a set.
pub open spec fn fed_from(edges: Seq<Edge>, set: Set<NodeId>, b: NodeId) -> bool {
    exists|a: NodeId| set.contains(a) && #[trigger] edges.contains((a, b))
}

/// Whether a node has an edge to a node of a set.
pub open spec fn feeds_into(edges: Seq<Edge>, set: Set<NodeId>, a: NodeId) -> bool {
    exists|b: NodeId| set.contains(b) && #[trigger] edges.contains((a, b))
}

/// A walk of some length that ends at a node, inside a set in which every node
/// has an edge from a node of the set.
proof fn walk_back(edges: Seq<Edge>, rest: Set<NodeId>, n: NodeId, k: nat) -> (s: Seq<NodeId>)
    requires
        rest.contains(n),
        forall|b: NodeId| rest.contains(b) ==> #[trigger] fed_from(edges, rest, b),
    ensures
        s.len() == k + 1,
        s.last() == n,
        forall|i: int| 0 <= i < s.len() ==> rest.contains(#[trigger] s[i]),
        is_walk(edges, s),
    decreases k,
{
    if k == 0 {
        seq![n]
    } else {
        let t = walk_back(edges, rest, n, (k - 1) as nat);
        assert(fed_from(edges, rest, t[0]));
        let a = choose|a: NodeId| rest.contains(a) && #[trigger] edges.contains((a, t[0]));
        let s = seq![a] + t;
        assert forall|i: int| 0 <= i < s.len() - 1 implies #[trigger] step_at(edges, s, i) by {
            if i > 0 {
                assert(step_at(edges, t, i - 1));
            }
        }
        assert forall|i: int| 0 <= i < s.len() implies rest.contains(#[trigger] s[i]) by {
            if i > 0 {
                assert(rest.contains(t[i - 1]));
            }
        }
        s
    }
}

/// A part of a walk is a path.
proof fn part_is_path(edges: Seq<Edge>, s: Seq<NodeId>, i: int, j: int)
    requires
        0 <= i < j < s.len(),
        is_walk(edges, s),
    ensures
        reaches(edges, s[i], s[j]),
{
    let t = s.subrange(i, j + 1);
    assert forall|k: int| 0 <= k < t.len() - 1 implies #[trigger] step_at(edges, t, k) by {
        assert(step_at(edges, s, i + k));
    }
    assert(is_path(edges, t));
}

/// A node of a finite set in which every node has an edge from a node of the
/// set is on a cycle or depends on one.
pub proof fn unordered_is_blocked(edges: Seq<Edge>, rest: Set<NodeId>, n: NodeId)
    requires
        rest.finite(),
        rest.contains(n),
        forall|b: NodeId| rest.contains(b) ==> #[trigger] fed_from(edges, rest, b),
    ensures
        blocked(edges, n),
{
    let s = walk_back(edges, rest, n, rest.len());
    let (i, j) = repeated(s, rest);
    part_is_path(edges, s, i, j);
    let m = s[i];
    assert(on_cycle(edges, m));
    part_is_path(edges, s, i, s.len() - 1);
    assert(reaches(edges, m, n));
}

/// A sequence that is longer than the set of its members repeats one.
proof fn repeated(s: Seq<NodeId>, set: Set<NodeId>) -> (r: (int, int))
    requires
        set.finite(),
        s.len() > set.len(),
        forall|i: int| 0 <= i < s.len() ==> set.contains(#[trigger] s[i]),
    ensures
        0 <= r.0 < r.1 < s.len(),
        s[r.0] == s[r.1],
{
    if s.no_duplicates() {
        s.unique_seq_to_set();
        assert(s.to_set().subset_of(set));
        vstd::set_lib::lemma_len_subset(s.to_set(), set);
    }
    let (i, j) = choose|i: int, j: int|
        0 <= i < s.len() && 0 <= j < s.len() && i != j && #[trigger] s[i] == #[trigger] s[j];
    if i < j {
        (i, j)
    } else {
        (j, i)
    }
}

/// Whether every node of a sequence comes after all nodes of it that depend on
/// it.
pub open spec fn downstream_first(edges: Seq<Edge>, order: Seq<NodeId>) -> bool {
    forall|p: int, q: int|
        #![trigger order[p], order[q]]
        0 <= p < order.len() && 0 <= q < order.len() && edges.contains((order[p], order[q])) ==> q
            < p
}

/// A walk of some length from a node, inside a set in which every node has an
/// edge to a node of the set.
proof fn walk_on(edges: Seq<Edge>, rest: Set<NodeId>, n: NodeId, k: nat) -> (s: Seq<NodeId>)
    requires
        rest.contains(n),
        forall|a: NodeId| rest.contains(a) ==> #[trigger] feeds_into(edges, rest, a),
    ensures
        s.len() == k + 1,
        forall|i: int| 0 <= i < s.len() ==> rest.contains(#[trigger] s[i]),
        is_walk(edges, s),
    decreases k,
{
    if k == 0 {
        seq![n]
    } else {
        let t = walk_on(edges, rest, n, (k - 1) as nat);
        assert(feeds_into(edges, rest, t[t.len() - 1]));
        let b = choose|b: NodeId| rest.contains(b) && #[trigger] edges.contains((t.last(), b));
        let s = t.push(b);
        assert forall|i: int| 0 <= i < s.len() - 1 implies #[trigger] step_at(edges, s, i) by {
            if i < t.len() - 1 {
                assert(step_at(edges, t, i));
            }
        }
        s
    }
}

/// The nodes of a finite set, ordered so that without cycles every node comes
/// after those of the set that depend on it.
pub proof fn downstream_order(edges: Seq<Edge>, set: Set<NodeId>) -> (order: Seq<NodeId>)
    requires
        acyclic(edges),
        set.finite(),
    ensures
        order.len() == set.len(),
        order.no_duplicates(),
        order.to_set() == set,
        downstream_first(edges, order),
    decreases set.len(),
{
    if set.len() == 0 {
        let order = Seq::<NodeId>::empty();
        assert(order.to_set() =~= set);
        order
    } else {
        if forall|a: NodeId| set.contains(a) ==> #[trigger] feeds_into(edges, set, a) {
            let n = set.choose();
            let s = walk_on(edges, set, n, set.len());
            let (i, j) = repeated(s, set);
            part_is_path(edges, s, i, j);
            assert(on_cycle(edges, s[i]));
        }
        let n = choose|a: NodeId| set.contains(a) && !#[trigger] feeds_into(edges, set, a);
        let tail = downstream_order(edges, set.remove(n));
        let order = seq![n] + tail;
        assert(tail.to_set() == set.remove(n));
        assert forall|x: NodeId| order.to_set().contains(x) == set.contains(x) by {
            if set.contains(x) && x != n {
                assert(tail.to_set().contains(x));
                let i = tail.index_of(x);
                assert(order[i + 1] == x);
            }
            if x == n {
                assert(order[0] == n);
            }
            if order.to_set().contains(x) && x != n {
                let i = order.index_of(x);
                assert(tail[i - 1] == x);
                assert(tail.to_set().contains(x));
            }
        }
        assert(order.to_set() =~= set);
        assert forall|i: int| 0 <= i < tail.len() implies set.contains(#[trigger] tail[i])
            && tail[i] != n by {
            assert(tail.to_set().contains(tail[i]));
        }
        assert forall|p: int, q: int|
            #![trigger order[p], order[q]]
            0 <= p < order.len() && 0 <= q < order.len() && edges.contains(
                (order[p], order[q]),
            ) implies q < p by {
            assert(set.contains(order[q])) by {
                if q > 0 {
                    assert(set.contains(tail[q - 1]));
                }
            }
            if p == 0 {
                assert(!edges.contains((n, order[q])));
            } else if q > 0 {
                assert(order[p] == tail[p - 1] && order[q] == tail[q - 1]);
            }
        }
        order
    }
}

} // verus!
