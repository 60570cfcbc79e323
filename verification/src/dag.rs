//! The dependency graph of stream tables.
//!
//! An edge leads from a source (a base table, a view or a stream table) to a
//! stream table that reads it.  The graph gives the order in which stream
//! tables are refreshed, finds cycles, and works out the schedule of stream
//! tables whose schedule follows from what depends on them.
//!
//! The order is found by Kahn's algorithm: A. B. Kahn, "Topological sorting of
//! large networks", Communications of the ACM 5(11), 1962.

use vstd::prelude::*;
use vstd::string::*;

use crate::error::{ErrorView, PgTrickleError};
use crate::graph;
use crate::graph::Edge;
use crate::schedule;
use crate::text;
use crate::text::{copy_opt, i64_text, text_eq, to_uppercase, u32_text};

verus! {

// ── Nodes ──────────────────────────────────────────────────────────────

/// A node of the dependency graph.
#[derive(Debug, Clone, Copy, PartialEq, Eq, Hash, Structural)]
pub enum NodeId {
    /// A base table or view, by its object id.
    BaseTable(u32),
    /// A stream table, by its number in the catalog.
    StreamTable(i64),
}

/// The status of a stream table.
#[derive(Debug, Clone, Copy, PartialEq, Eq, Structural)]
pub enum StStatus {
    Initializing,
    Active,
    Suspended,
    Error,
}

impl StStatus {
    /// The name of a status in the catalog.
    pub open spec fn name(self) -> Seq<char> {
        match self {
            StStatus::Initializing => "INITIALIZING"@,
            StStatus::Active => "ACTIVE"@,
            StStatus::Suspended => "SUSPENDED"@,
            StStatus::Error => "ERROR"@,
        }
    }

    /// The status with a name.
    pub open spec fn parsed(s: Seq<char>) -> Result<StStatus, ErrorView> {
        if s == "INITIALIZING"@ {
            Ok(StStatus::Initializing)
        } else if s == "ACTIVE"@ {
            Ok(StStatus::Active)
        } else if s == "SUSPENDED"@ {
            Ok(StStatus::Suspended)
        } else if s == "ERROR"@ {
            Ok(StStatus::Error)
        } else {
            Err(ErrorView::InvalidArgument("unknown status: "@ + s))
        }
    }

    /// The name of a status in the catalog.
    pub fn as_str(&self) -> (r: &'static str)
        ensures
            r@ == self.name(),
    {
        match self {
            StStatus::Initializing => "INITIALIZING",
            StStatus::Active => "ACTIVE",
            StStatus::Suspended => "SUSPENDED",
            StStatus::Error => "ERROR",
        }
    }

    /// The status with a name.
    pub fn from_str(s: &str) -> (r: Result<StStatus, PgTrickleError>)
        ensures
            match r {
                Ok(status) => StStatus::parsed(s@) == Ok::<StStatus, ErrorView>(status),
                Err(e) => StStatus::parsed(s@) == Err::<StStatus, ErrorView>(e@),
            },
    {
        if text_eq(s, "INITIALIZING") {
            Ok(StStatus::Initializing)
        } else if text_eq(s, "ACTIVE") {
            Ok(StStatus::Active)
        } else if text_eq(s, "SUSPENDED") {
            Ok(StStatus::Suspended)
        } else if text_eq(s, "ERROR") {
            Ok(StStatus::Error)
        } else {
            let mut m = "unknown status: ".to_string();
            m.append(s);
            Err(PgTrickleError::InvalidArgument(m))
        }
    }
}

/// A status is read back from its name.
pub proof fn status_reads_back(status: StStatus)
    ensures
        StStatus::parsed(status.name()) == Ok::<StStatus, ErrorView>(status),
{
    reveal_strlit("INITIALIZING");
    reveal_strlit("ACTIVE");
    reveal_strlit("SUSPENDED");
    reveal_strlit("ERROR");
    assert("INITIALIZING"@.len() == 12 && "ACTIVE"@.len() == 6);
    assert("SUSPENDED"@.len() == 9 && "ERROR"@.len() == 5);
}

/// How a stream table is refreshed.
#[derive(Debug, Clone, Copy, PartialEq, Eq, Structural)]
pub enum RefreshMode {
    Full,
    Differential,
}

impl RefreshMode {
    /// The name of a mode in the catalog.
    pub open spec fn name(self) -> Seq<char> {
        match self {
            RefreshMode::Full => "FULL"@,
            RefreshMode::Differential => "DIFFERENTIAL"@,
        }
    }

    /// The mode with a name in capital letters.  `INCREMENTAL` is an older
    /// name of `DIFFERENTIAL`.
    pub open spec fn parsed(upper: Seq<char>) -> Result<RefreshMode, ErrorView> {
        if upper == "FULL"@ {
            Ok(RefreshMode::Full)
        } else if upper == "DIFFERENTIAL"@ || upper == "INCREMENTAL"@ {
            Ok(RefreshMode::Differential)
        } else {
            Err(
                ErrorView::InvalidArgument(
                    "unknown refresh mode: "@ + upper + ". Must be 'FULL' or 'DIFFERENTIAL'"@,
                ),
            )
        }
    }

    /// The name of a mode in the catalog.
    pub fn as_str(&self) -> (r: &'static str)
        ensures
            r@ == self.name(),
    {
        match self {
            RefreshMode::Full => "FULL",
            RefreshMode::Differential => "DIFFERENTIAL",
        }
    }

    /// The mode with a name in any letter case.
    pub fn from_str(s: &str) -> (r: Result<RefreshMode, PgTrickleError>)
        ensures
            match r {
                Ok(mode) => RefreshMode::parsed(text::uppercase(s@)) == Ok::<
                    RefreshMode,
                    ErrorView,
                >(mode),
                Err(e) => RefreshMode::parsed(text::uppercase(s@)) == Err::<
                    RefreshMode,
                    ErrorView,
                >(e@),
            },
            text::all_ascii(s@) ==> text::uppercase(s@) == text::uppered(s@),
    {
        let upper = to_uppercase(s);
        RefreshMode::from_upper(upper.as_str())
    }

    /// The mode with a name in capital letters.
    pub fn from_upper(upper: &str) -> (r: Result<RefreshMode, PgTrickleError>)
        ensures
            match r {
                Ok(mode) => RefreshMode::parsed(upper@) == Ok::<RefreshMode, ErrorView>(mode),
                Err(e) => RefreshMode::parsed(upper@) == Err::<RefreshMode, ErrorView>(e@),
            },
    {
        if text_eq(upper, "FULL") {
            Ok(RefreshMode::Full)
        } else if text_eq(upper, "DIFFERENTIAL") || text_eq(upper, "INCREMENTAL") {
            Ok(RefreshMode::Differential)
        } else {
            let mut m = "unknown refresh mode: ".to_string();
            m.append(upper);
            m.append(". Must be 'FULL' or 'DIFFERENTIAL'");
            Err(PgTrickleError::InvalidArgument(m))
        }
    }
}

/// A mode is read back from its name, whose letters are capital.
pub proof fn mode_reads_back(mode: RefreshMode)
    ensures
        text::all_ascii(mode.name()),
        text::uppered(mode.name()) == mode.name(),
        RefreshMode::parsed(mode.name()) == Ok::<RefreshMode, ErrorView>(mode),
{
    reveal_strlit("FULL");
    reveal_strlit("DIFFERENTIAL");
    assert(text::uppered(mode.name()) =~= mode.name());
}

// ── Lengths of time ────────────────────────────────────────────────────

/// A length of time: seconds and a fraction in nanoseconds.
#[derive(Debug, Clone, Copy, PartialEq, Eq, Structural)]
pub struct Duration {
    pub secs: u64,
    pub nanos: u32,
}

impl Duration {
    /// Whether this is shorter than another.
    pub open spec fn shorter(self, other: Duration) -> bool {
        self.secs < other.secs || (self.secs == other.secs && self.nanos < other.nanos)
    }

    /// The shorter of two.
    pub open spec fn least(self, other: Duration) -> Duration {
        if other.shorter(self) {
            other
        } else {
            self
        }
    }

    /// Whole seconds.
    pub open spec fn of_secs(secs: u64) -> Duration {
        Duration { secs, nanos: 0 }
    }

    /// Whole seconds.
    pub fn from_secs(secs: u64) -> (r: Duration)
        ensures
            r == Duration::of_secs(secs),
    {
        Duration { secs, nanos: 0 }
    }

    /// The shorter of two.
    pub fn min(self, other: Duration) -> (r: Duration)
        ensures
            r == self.least(other),
    {
        if other.secs < self.secs || (other.secs == self.secs && other.nanos < self.nanos) {
            other
        } else {
            self
        }
    }
}

// ── The graph ──────────────────────────────────────────────────────────

/// What is known of a stream table.
#[derive(Debug, Clone)]
pub struct DagNode {
    pub id: NodeId,
    /// The schedule that was asked for, if it is a length of time.
    pub schedule: Option<Duration>,
    /// The schedule that is kept.
    pub effective_schedule: Duration,
    /// Name for messages.
    pub name: String,
    pub status: StStatus,
    /// The schedule as it stands in the catalog.
    pub schedule_raw: Option<String>,
}

/// The dependency graph.
#[derive(Debug)]
pub struct StDag {
    /// Edges from sources to what reads them, in the order they were added.
    pub(crate) edges: Vec<Edge>,
    /// What is known of stream tables, at most once for each.
    pub(crate) nodes: Vec<DagNode>,
    /// All nodes, each once.
    pub(crate) all_nodes: Vec<NodeId>,
}

/// The targets of the edges from a node, in the order of the edges.
pub open spec fn downstream(edges: Seq<Edge>, n: NodeId) -> Seq<NodeId>
    decreases edges.len(),
{
    if edges.len() == 0 {
        Seq::empty()
    } else if edges.last().0 == n {
        downstream(edges.drop_last(), n).push(edges.last().1)
    } else {
        downstream(edges.drop_last(), n)
    }
}

/// The sources of the edges to a node, in the order of the edges.
pub open spec fn upstream(edges: Seq<Edge>, n: NodeId) -> Seq<NodeId>
    decreases edges.len(),
{
    if edges.len() == 0 {
        Seq::empty()
    } else if edges.last().1 == n {
        upstream(edges.drop_last(), n).push(edges.last().0)
    } else {
        upstream(edges.drop_last(), n)
    }
}

/// What is known of a node.
pub open spec fn lookup(nodes: Seq<DagNode>, id: NodeId) -> Option<DagNode>
    decreases nodes.len(),
{
    if nodes.len() == 0 {
        None
    } else if nodes.last().id == id {
        Some(nodes.last())
    } else {
        lookup(nodes.drop_last(), id)
    }
}

/// Nodes with one more, which takes the place of one with the same id.
pub open spec fn with_node(nodes: Seq<DagNode>, node: DagNode) -> Seq<DagNode>
    decreases nodes.len(),
{
    if nodes.len() == 0 {
        seq![node]
    } else if nodes.first().id == node.id {
        seq![node] + nodes.drop_first()
    } else {
        seq![nodes.first()] + with_node(nodes.drop_first(), node)
    }
}

/// Node ids with one more, unless it is there.
pub open spec fn with_id(ids: Seq<NodeId>, id: NodeId) -> Seq<NodeId> {
    if ids.contains(id) {
        ids
    } else {
        ids.push(id)
    }
}

/// The ids of nodes.
pub open spec fn ids_of(nodes: Seq<DagNode>) -> Seq<NodeId> {
    Seq::new(nodes.len(), |i: int| nodes[i].id)
}

/// The name of a node in messages.
pub open spec fn display_name(nodes: Seq<DagNode>, id: NodeId) -> Seq<char> {
    match lookup(nodes, id) {
        Some(n) => n.name@,
        None => match id {
            NodeId::BaseTable(oid) => "base_table(oid="@ + text::decimal(oid as nat) + ")"@,
            NodeId::StreamTable(id) => "stream_table(id="@ + text::decimal_int(id as int) + ")"@,
        },
    }
}

impl StDag {
    /// The edges, from sources to what reads them, in the order they were
    /// added.
    pub open(crate) spec fn edge_list(self) -> Seq<Edge> {
        self.edges@
    }

    /// What is known of stream tables.
    pub open(crate) spec fn node_list(self) -> Seq<DagNode> {
        self.nodes@
    }

    /// All nodes.
    pub open(crate) spec fn member_list(self) -> Seq<NodeId> {
        self.all_nodes@
    }

    /// Nodes occur once, are all listed, and edges only join listed nodes.
    pub open(crate) spec fn wf(self) -> bool {
        &&& self.all_nodes@.no_duplicates()
        &&& ids_of(self.nodes@).no_duplicates()
        &&& forall|i: int|
            #![trigger self.nodes@[i]]
            0 <= i < self.nodes@.len() ==> self.all_nodes@.contains(self.nodes@[i].id)
        &&& graph::joins_only(self.edges@, self.all_nodes@)
    }

    /// A graph without nodes.
    pub fn new() -> (r: StDag)
        ensures
            r.wf(),
            r.edge_list().len() == 0,
            r.node_list().len() == 0,
            r.member_list().len() == 0,
    {
        StDag { edges: Vec::new(), nodes: Vec::new(), all_nodes: Vec::new() }
    }

    /// Where a node stands in the list of all nodes.
    fn position(&self, id: NodeId) -> (r: Option<usize>)
        ensures
            match r {
                Some(i) => i < self.all_nodes@.len() && self.all_nodes@[i as int] == id,
                None => !self.all_nodes@.contains(id),
            },
    {
        let mut i: usize = 0;
        while i < self.all_nodes.len()
            invariant
                i <= self.all_nodes.len(),
                forall|k: int| 0 <= k < i ==> self.all_nodes@[k] != id,
            decreases self.all_nodes.len() - i,
        {
            if self.all_nodes[i] == id {
                return Some(i);
            }
            i += 1;
        }
        None
    }

    /// Lists a node, unless it is listed.
    fn add_id(&mut self, id: NodeId)
        ensures
            final(self).edges == old(self).edges,
            final(self).nodes == old(self).nodes,
            final(self).all_nodes@ == with_id(old(self).all_nodes@, id),
    {
        if self.position(id).is_none() {
            self.all_nodes.push(id);
        }
    }

    /// Adds what is known of a stream table; what was known of it before is
    /// forgotten.
    pub fn add_dt_node(&mut self, node: DagNode)
        requires
            old(self).wf(),
        ensures
            final(self).wf(),
            final(self).edge_list() == old(self).edge_list(),
            final(self).node_list() == with_node(old(self).node_list(), node),
            final(self).member_list() == with_id(old(self).member_list(), node.id),
            lookup(final(self).node_list(), node.id) == Some(node),
    {
        let id = node.id;
        let ghost given = node;
        let ghost before = self.nodes@;
        let ghost listed = self.all_nodes@;
        self.add_id(id);
        proof {
            lemma_with_node(before, given);
        }
        let mut i: usize = 0;
        while i < self.nodes.len() && self.nodes[i].id != id
            invariant
                i <= self.nodes.len(),
                self.nodes@ == before,
                forall|k: int| 0 <= k < i ==> (#[trigger] before[k]).id != id,
            decreases self.nodes.len() - i,
        {
            i += 1;
        }
        proof {
            lemma_with_node_at(before, given, i as int);
        }
        if i < self.nodes.len() {
            self.nodes.set(i, node);
        } else {
            self.nodes.push(node);
        }
        proof {
            assert(self.nodes@ =~= with_node(before, given));
            assert forall|k: int|
                #![trigger self.nodes@[k]]
                0 <= k < self.nodes@.len() implies self.all_nodes@.contains(self.nodes@[k].id) by {
                lemma_with_id(listed, id, self.nodes@[k].id);
                if k != i {
                    assert(listed.contains(before[k].id));
                }
            }
            assert forall|k: int|
                #![trigger self.edges@[k]]
                0 <= k < self.edges@.len() implies self.all_nodes@.contains(self.edges@[k].0)
                && self.all_nodes@.contains(self.edges@[k].1) by {
                lemma_with_id(listed, id, self.edges@[k].0);
                lemma_with_id(listed, id, self.edges@[k].1);
            }
        }
    }

    /// Adds an edge from a source to what reads it.
    pub fn add_edge(&mut self, source: NodeId, downstream_dt: NodeId)
        requires
            old(self).wf(),
        ensures
            final(self).wf(),
            final(self).edge_list() == old(self).edge_list().push((source, downstream_dt)),
            final(self).node_list() == old(self).node_list(),
            final(self).member_list() == with_id(
                with_id(old(self).member_list(), source),
                downstream_dt,
            ),
    {
        let ghost listed = self.all_nodes@;
        self.add_id(source);
        let ghost more = self.all_nodes@;
        self.add_id(downstream_dt);
        self.edges.push((source, downstream_dt));
        proof {
            assert forall|n: NodeId| listed.contains(n) implies self.all_nodes@.contains(n) by {
                lemma_with_id(listed, source, n);
                lemma_with_id(more, downstream_dt, n);
            }
            lemma_with_id(listed, source, source);
            lemma_with_id(more, downstream_dt, source);
            lemma_with_id(more, downstream_dt, downstream_dt);
            assert forall|k: int|
                #![trigger self.nodes@[k]]
                0 <= k < self.nodes@.len() implies self.all_nodes@.contains(self.nodes@[k].id) by {
                assert(listed.contains(self.nodes@[k].id));
            }
            assert forall|k: int|
                #![trigger self.edges@[k]]
                0 <= k < self.edges@.len() implies self.all_nodes@.contains(self.edges@[k].0)
                && self.all_nodes@.contains(self.edges@[k].1) by {
                if k < self.edges@.len() - 1 {
                    assert(listed.contains(old(self).edges@[k].0));
                    assert(listed.contains(old(self).edges@[k].1));
                }
            }
        }
    }

    /// The sources of a node, in the order in which the edges were added.
    pub fn get_upstream(&self, node: NodeId) -> (r: Vec<NodeId>)
        ensures
            r@ == upstream(self.edge_list(), node),
    {
        let mut r: Vec<NodeId> = Vec::new();
        let mut i: usize = 0;
        while i < self.edges.len()
            invariant
                i <= self.edges.len(),
                r@ == upstream(self.edges@.take(i as int), node),
            decreases self.edges.len() - i,
        {
            assert(self.edges@.take(i + 1).drop_last() =~= self.edges@.take(i as int));
            if self.edges[i].1 == node {
                r.push(self.edges[i].0);
            }
            i += 1;
        }
        assert(self.edges@.take(i as int) =~= self.edges@);
        r
    }

    /// What reads a node, in the order in which the edges were added.
    pub fn get_downstream(&self, node: NodeId) -> (r: Vec<NodeId>)
        ensures
            r@ == downstream(self.edge_list(), node),
    {
        let mut r: Vec<NodeId> = Vec::new();
        let mut i: usize = 0;
        while i < self.edges.len()
            invariant
                i <= self.edges.len(),
                r@ == downstream(self.edges@.take(i as int), node),
            decreases self.edges.len() - i,
        {
            assert(self.edges@.take(i + 1).drop_last() =~= self.edges@.take(i as int));
            if self.edges[i].0 == node {
                r.push(self.edges[i].1);
            }
            i += 1;
        }
        assert(self.edges@.take(i as int) =~= self.edges@);
        r
    }

    /// What is known of all stream tables, in the order in which they were
    /// first added.
    pub fn get_all_dt_nodes(&self) -> (r: Vec<&DagNode>)
        ensures
            r@.len() == self.node_list().len(),
            forall|i: int| 0 <= i < r@.len() ==> *(#[trigger] r@[i]) == self.node_list()[i],
    {
        let mut r: Vec<&DagNode> = Vec::new();
        let mut i: usize = 0;
        while i < self.nodes.len()
            invariant
                i <= self.nodes.len(),
                r@.len() == i,
                forall|k: int| 0 <= k < i ==> *(#[trigger] r@[k]) == self.nodes@[k],
            decreases self.nodes.len() - i,
        {
            r.push(&self.nodes[i]);
            i += 1;
        }
        r
    }

    /// What is known of a node.
    pub fn get_node(&self, id: NodeId) -> (r: Option<&DagNode>)
        ensures
            match r {
                Some(n) => lookup(self.node_list(), id) == Some(*n),
                None => lookup(self.node_list(), id) is None,
            },
    {
        let mut i: usize = self.nodes.len();
        assert(self.nodes@.take(i as int) =~= self.nodes@);
        while i > 0
            invariant
                i <= self.nodes.len(),
                lookup(self.nodes@, id) == lookup(self.nodes@.take(i as int), id),
            decreases i,
        {
            assert(self.nodes@.take(i as int).drop_last() =~= self.nodes@.take(i - 1));
            assert(self.nodes@.take(i as int).last() == self.nodes@[i - 1]);
            if self.nodes[i - 1].id == id {
                return Some(&self.nodes[i - 1]);
            }
            i -= 1;
        }
        None
    }

    /// The name of a node in messages: its own if it is known.
    pub fn node_name(&self, node: &NodeId) -> (r: String)
        ensures
            r@ == display_name(self.node_list(), *node),
    {
        match self.get_node(*node) {
            Some(n) => n.name.clone(),
            None => match node {
                NodeId::BaseTable(oid) => {
                    let mut r = "base_table(oid=".to_string();
                    r.append(u32_text(*oid).as_str());
                    r.append(")");
                    r
                },
                NodeId::StreamTable(id) => {
                    let mut r = "stream_table(id=".to_string();
                    r.append(i64_text(*id).as_str());
                    r.append(")");
                    r
                },
            },
        }
    }
}

impl Default for StDag {
    /// A graph without nodes.
    fn default() -> (r: StDag)
        ensures
            r.wf(),
            r.edge_list().len() == 0,
            r.node_list().len() == 0,
            r.member_list().len() == 0,
    {
        StDag::new()
    }
}

// ── Order of refresh ───────────────────────────────────────────────────

/// How many edges lead to a node from nodes that are not done.
pub open spec fn pending(edges: Seq<Edge>, done: Set<NodeId>, n: NodeId) -> nat
    decreases edges.len(),
{
    if edges.len() == 0 {
        0
    } else {
        pending(edges.drop_last(), done, n) + if edges.last().1 == n && !done.contains(
            edges.last().0,
        ) {
            1nat
        } else {
            0nat
        }
    }
}

/// The stream tables among nodes.
pub open spec fn stream_tables(ids: Seq<NodeId>) -> Seq<NodeId>
    decreases ids.len(),
{
    if ids.len() == 0 {
        Seq::empty()
    } else if ids.last() is StreamTable {
        stream_tables(ids.drop_last()).push(ids.last())
    } else {
        stream_tables(ids.drop_last())
    }
}

/// Whether an order holds all nodes but those that are on a cycle or depend
/// on one, each once and after what it depends on.
pub open spec fn sorts(order: Seq<NodeId>, edges: Seq<Edge>, ids: Seq<NodeId>) -> bool {
    &&& order.no_duplicates()
    &&& forall|n: NodeId| #[trigger]
        order.contains(n) <==> ids.contains(n) && !graph::blocked(edges, n)
    &&& graph::upstream_first(edges, order)
}

/// The names of the nodes that are on a cycle.
pub open spec fn cycle_names(
    edges: Seq<Edge>,
    nodes: Seq<DagNode>,
    ids: Seq<NodeId>,
) -> Seq<Seq<char>>
    decreases ids.len(),
{
    if ids.len() == 0 {
        Seq::empty()
    } else if graph::on_cycle(edges, ids.last()) {
        cycle_names(edges, nodes, ids.drop_last()).push(display_name(nodes, ids.last()))
    } else {
        cycle_names(edges, nodes, ids.drop_last())
    }
}

/// The names in the error for a cycle are exactly those of the nodes that are
/// on one.
pub proof fn cycle_names_are_of_cycles(
    edges: Seq<Edge>,
    nodes: Seq<DagNode>,
    ids: Seq<NodeId>,
    name: Seq<char>,
)
    ensures
        cycle_names(edges, nodes, ids).contains(name) <==> exists|k: int|
            0 <= k < ids.len() && graph::on_cycle(edges, #[trigger] ids[k]) && display_name(
                nodes,
                ids[k],
            ) == name,
    decreases ids.len(),
{
    if ids.len() > 0 {
        let rest = ids.drop_last();
        let before = cycle_names(edges, nodes, rest);
        let all = cycle_names(edges, nodes, ids);
        cycle_names_are_of_cycles(edges, nodes, rest, name);
        if before.contains(name) {
            let k = choose|k: int|
                0 <= k < rest.len() && graph::on_cycle(edges, #[trigger] rest[k]) && display_name(
                    nodes,
                    rest[k],
                ) == name;
            assert(ids[k] == rest[k]);
            assert(all[before.index_of(name)] == name);
        }
        if graph::on_cycle(edges, ids.last()) {
            assert(all.last() == display_name(nodes, ids.last()));
            assert(all.drop_last() =~= before);
            assert(ids[ids.len() - 1] == ids.last());
            if all.contains(name) && name != all.last() {
                let q = all.index_of(name);
                assert(before[q] == name);
            }
            if name == all.last() {
                assert(all[all.len() - 1] == name);
            }
        }
        if !before.contains(name) {
            assert forall|k: int|
                0 <= k < rest.len() && graph::on_cycle(edges, #[trigger] ids[k]) implies display_name(
                nodes,
                ids[k],
            ) != name by {
                assert(rest[k] == ids[k]);
            }
        }
    }
}

/// The edges of two lists are counted together.
proof fn lemma_pending_add(a: Seq<Edge>, b: Seq<Edge>, done: Set<NodeId>, n: NodeId)
    ensures
        pending(a + b, done, n) == pending(a, done, n) + pending(b, done, n),
    decreases b.len(),
{
    if b.len() == 0 {
        assert(a + b =~= a);
    } else {
        assert((a + b).drop_last() =~= a + b.drop_last());
        lemma_pending_add(a, b.drop_last(), done, n);
    }
}

/// No edge is counted if and only if all sources of the node are done.
proof fn lemma_pending_zero(edges: Seq<Edge>, done: Set<NodeId>, n: NodeId)
    ensures
        pending(edges, done, n) == 0 <==> forall|a: NodeId| #[trigger]
            edges.contains((a, n)) ==> done.contains(a),
        pending(edges, done, n) <= edges.len(),
    decreases edges.len(),
{
    if edges.len() > 0 {
        let rest = edges.drop_last();
        let last = edges.last();
        lemma_pending_zero(rest, done, n);
        if pending(edges, done, n) == 0 {
            assert forall|a: NodeId| #[trigger] edges.contains((a, n)) implies done.contains(a) by {
                let i = edges.index_of((a, n));
                if i < rest.len() {
                    assert(rest[i] == (a, n));
                    assert(rest.contains((a, n)));
                }
            }
        } else {
            if pending(rest, done, n) > 0 {
                let a = choose|a: NodeId| #[trigger] rest.contains((a, n)) && !done.contains(a);
                let i = rest.index_of((a, n));
                assert(edges[i] == (a, n));
                assert(edges.contains((a, n)));
            } else {
                assert(edges[edges.len() - 1] == last);
                assert(edges.contains((last.0, n)));
            }
        }
    }
}

/// A node that is not a source of an edge changes no count when it is done.
proof fn lemma_pending_one(e: Edge, done: Set<NodeId>, m: NodeId, n: NodeId)
    requires
        !done.contains(m),
    ensures
        pending(seq![e], done, n) == pending(seq![e], done.insert(m), n) + if e.0 == m && e.1
            == n {
            1nat
        } else {
            0nat
        },
        pending(seq![e], done, n) == if e.1 == n && !done.contains(e.0) {
            1nat
        } else {
            0nat
        },
{
    assert(seq![e].drop_last() =~= Seq::<Edge>::empty());
    assert(pending(seq![e].drop_last(), done, n) == 0);
    assert(pending(seq![e].drop_last(), done.insert(m), n) == 0);
}

/// Before any node is done, every edge to a node is counted.
pub open spec fn incoming(edges: Seq<Edge>, n: NodeId) -> nat {
    pending(edges, Set::empty(), n)
}

impl StDag {
    /// The number of edges to each node.
    fn in_degrees(&self) -> (r: Vec<usize>)
        ensures
            r@.len() == self.all_nodes@.len(),
            forall|i: int|
                0 <= i < r@.len() ==> #[trigger] r@[i] == incoming(
                    self.edges@,
                    self.all_nodes@[i],
                ),
    {
        let mut r: Vec<usize> = Vec::new();
        let mut i: usize = 0;
        while i < self.all_nodes.len()
            invariant
                i <= self.all_nodes.len(),
                r@.len() == i,
                forall|k: int|
                    0 <= k < i ==> #[trigger] r@[k] == incoming(self.edges@, self.all_nodes@[k]),
            decreases self.all_nodes.len() - i,
        {
            let n = self.all_nodes[i];
            let mut deg: usize = 0;
            let mut j: usize = 0;
            while j < self.edges.len()
                invariant
                    j <= self.edges.len(),
                    deg <= j,
                    deg == incoming(self.edges@.take(j as int), n),
                decreases self.edges.len() - j,
            {
                assert(self.edges@.take(j + 1).drop_last() =~= self.edges@.take(j as int));
                if self.edges[j].1 == n {
                    deg += 1;
                }
                j += 1;
            }
            assert(self.edges@.take(j as int) =~= self.edges@);
            r.push(deg);
            i += 1;
        }
        r
    }

    /// The nodes without sources.
    fn roots(&self, deg: &Vec<usize>) -> (r: Vec<NodeId>)
        requires
            self.wf(),
            deg@.len() == self.all_nodes@.len(),
        ensures
            r@.no_duplicates(),
            forall|i: int|
                0 <= i < self.all_nodes@.len() ==> (r@.contains(#[trigger] self.all_nodes@[i])
                    <==> deg@[i] == 0),
            forall|n: NodeId| r@.contains(n) ==> #[trigger] self.all_nodes@.contains(n),
    {
        let mut r: Vec<NodeId> = Vec::new();
        let mut i: usize = 0;
        while i < self.all_nodes.len()
            invariant
                self.wf(),
                i <= self.all_nodes.len(),
                deg@.len() == self.all_nodes@.len(),
                r@.no_duplicates(),
                forall|k: int|
                    0 <= k < i ==> (r@.contains(#[trigger] self.all_nodes@[k]) <==> deg@[k] == 0),
                forall|p: int|
                    0 <= p < r@.len() ==> self.all_nodes@.take(i as int).contains(
                        #[trigger] r@[p],
                    ),
            decreases self.all_nodes.len() - i,
        {
            let ghost before = r@;
            let n = self.all_nodes[i];
            assert(!before.contains(n)) by {
                if before.contains(n) {
                    let p = before.index_of(n);
                    assert(self.all_nodes@.take(i as int).contains(before[p]));
                    let q = self.all_nodes@.take(i as int).index_of(n);
                    assert(self.all_nodes@[q] == n);
                }
            }
            if deg[i] == 0 {
                r.push(n);
            }
            i += 1;
            proof {
                assert forall|k: int| 0 <= k < i implies (r@.contains(
                    #[trigger] self.all_nodes@[k],
                ) <==> deg@[k] == 0) by {
                    let x = self.all_nodes@[k];
                    if before.contains(x) {
                        assert(r@[before.index_of(x)] == x);
                    }
                    if k == i - 1 && deg@[k] == 0 {
                        assert(r@[before.len() as int] == x);
                    }
                }
                assert forall|p: int| 0 <= p < r@.len() implies self.all_nodes@.take(
                    i as int,
                ).contains(#[trigger] r@[p]) by {
                    if p < before.len() {
                        let q = self.all_nodes@.take(i - 1).index_of(before[p]);
                        assert(self.all_nodes@.take(i as int)[q] == r@[p]);
                    } else {
                        assert(self.all_nodes@.take(i as int)[i - 1] == r@[p]);
                    }
                }
            }
        }
        assert forall|n: NodeId| r@.contains(n) implies #[trigger] self.all_nodes@.contains(n) by {
            let p = r@.index_of(n);
            let q = self.all_nodes@.take(i as int).index_of(r@[p]);
            assert(self.all_nodes@[q] == n);
        }
        r
    }
}

/// What holds while nodes are sorted: the first `head` nodes of the queue are
/// done, counts are of edges from the others, and the queue holds the nodes
/// whose count is zero.
pub open spec fn sorting(dag: StDag, queue: Seq<NodeId>, head: int, deg: Seq<usize>) -> bool {
    &&& 0 <= head <= queue.len()
    &&& queue.no_duplicates()
    &&& deg.len() == dag.member_list().len()
    &&& forall|n: NodeId| queue.contains(n) ==> #[trigger] dag.member_list().contains(n)
    &&& counted(dag, queue.take(head).to_set(), deg)
    &&& zeros_queued(dag, queue, deg)
    &&& forall|a: NodeId, p: int|
        #![trigger dag.edge_list().contains((a, queue[p]))]
        0 <= p < queue.len() && dag.edge_list().contains((a, queue[p])) ==> queue.take(p).contains(a)
}

/// Whether counts are of edges from nodes that are not done.
pub open spec fn counted(dag: StDag, done: Set<NodeId>, deg: Seq<usize>) -> bool {
    forall|i: int|
        0 <= i < deg.len() ==> #[trigger] deg[i] == pending(dag.edge_list(), done, dag.member_list()[i])
}

/// Whether a queue holds the nodes whose count is zero.
pub open spec fn zeros_queued(dag: StDag, queue: Seq<NodeId>, deg: Seq<usize>) -> bool {
    forall|i: int|
        0 <= i < deg.len() ==> (queue.contains(#[trigger] dag.member_list()[i]) <==> deg[i] == 0)
}

/// Whether counts are of the edges from the `k`-th on from nodes that are not
/// done, and of those before that from nodes that are not done next.
pub open spec fn half_counted(
    dag: StDag,
    done: Set<NodeId>,
    next: Set<NodeId>,
    k: int,
    deg: Seq<usize>,
) -> bool {
    forall|i: int|
        0 <= i < deg.len() ==> #[trigger] deg[i] == pending(
            dag.edge_list().take(k),
            next,
            dag.member_list()[i],
        ) + pending(dag.edge_list().skip(k), done, dag.member_list()[i])
}

/// How counts change from one edge to the next.
proof fn lemma_next_edge(
    edges: Seq<Edge>,
    k: int,
    done: Set<NodeId>,
    m: NodeId,
    n: NodeId,
)
    requires
        0 <= k < edges.len(),
        !done.contains(m),
    ensures
        pending(edges.take(k), done.insert(m), n) + pending(edges.skip(k), done, n) == pending(
            edges.take(k + 1),
            done.insert(m),
            n,
        ) + pending(edges.skip(k + 1), done, n) + if edges[k] == (m, n) {
            1nat
        } else {
            0nat
        },
{
    let e = edges[k];
    assert(edges.take(k + 1) =~= edges.take(k) + seq![e]);
    lemma_pending_add(edges.take(k), seq![e], done.insert(m), n);
    assert(edges.skip(k) =~= seq![e] + edges.skip(k + 1));
    lemma_pending_add(seq![e], edges.skip(k + 1), done, n);
    lemma_pending_one(e, done, m, n);
}

impl StDag {
    /// Takes the edges from a node that is done out of the counts, and puts
    /// nodes whose count becomes zero into the queue.
    fn release(&self, head: usize, deg: &mut Vec<usize>, queue: &mut Vec<NodeId>)
        requires
            self.wf(),
            sorting(*self, old(queue)@, head as int, old(deg)@),
            head < old(queue)@.len(),
        ensures
            sorting(*self, final(queue)@, head + 1, final(deg)@),
    {
        let ghost q0 = queue@;
        let n = queue[head];
        let ghost done = q0.take(head as int).to_set();
        let ghost next = done.insert(n);
        proof {
            assert(!done.contains(n)) by {
                if done.contains(n) {
                    let p = q0.take(head as int).index_of(n);
                    assert(q0[p] == q0[head as int]);
                }
            }
            assert forall|i: int| 0 <= i < deg@.len() implies #[trigger] deg@[i] == pending(
                self.edges@.take(0),
                next,
                self.all_nodes@[i],
            ) + pending(self.edges@.skip(0), done, self.all_nodes@[i]) by {
                assert(self.edges@.skip(0) =~= self.edges@);
                assert(self.edges@.take(0) =~= Seq::empty());
            }
        }
        let mut k: usize = 0;
        while k < self.edges.len()
            invariant
                self.wf(),
                k <= self.edges.len(),
                !done.contains(n),
                next == done.insert(n),
                deg@.len() == self.all_nodes@.len(),
                half_counted(*self, done, next, k as int, deg@),
                zeros_queued(*self, queue@, deg@),
                queue@.no_duplicates(),
                q0.len() <= queue@.len(),
                queue@.take(q0.len() as int) == q0,
                forall|x: NodeId| queue@.contains(x) ==> #[trigger] self.all_nodes@.contains(x),
            decreases self.edges.len() - k,
        {
            let e = self.edges[k];
            let ghost before = deg@;
            let ghost waiting = queue@;
            if e.0 == n {
                match self.position(e.1) {
                    Some(j) => {
                        proof {
                            lemma_next_edge(self.edges@, k as int, done, n, e.1);
                        }
                        let d: usize = deg[j] - 1;
                        deg.set(j, d);
                        if d == 0 {
                            queue.push(e.1);
                        }
                        proof {
                            assert(!waiting.contains(e.1));
                            lemma_queued(*self, waiting, before, queue@, deg@, e.1, j as int);
                            assert(queue@.take(q0.len() as int) =~= q0);
                        }
                    },
                    None => {
                        assert(self.all_nodes@.contains(self.edges@[k as int].1));
                    },
                }
            }
            proof {
                assert forall|i: int| 0 <= i < deg@.len() implies #[trigger] deg@[i] == pending(
                    self.edges@.take(k + 1),
                    next,
                    self.all_nodes@[i],
                ) + pending(self.edges@.skip(k + 1), done, self.all_nodes@[i]) by {
                    lemma_next_edge(self.edges@, k as int, done, n, self.all_nodes@[i]);
                    assert(before[i] == pending(
                        self.edges@.take(k as int),
                        next,
                        self.all_nodes@[i],
                    ) + pending(self.edges@.skip(k as int), done, self.all_nodes@[i]));
                }
            }
            k += 1;
        }
        proof {
            let q = queue@;
            assert(q.take(head as int + 1).to_set() =~= next) by {
                assert forall|x: NodeId| q.take(head as int + 1).to_set().contains(x)
                    == next.contains(x) by {
                    assert forall|p: int| 0 <= p <= head implies q[p] == q0[p] by {
                        assert(q.take(q0.len() as int)[p] == q[p]);
                    }
                    if next.contains(x) {
                        if x == n {
                            assert(q.take(head as int + 1)[head as int] == x);
                        } else {
                            let p = q0.take(head as int).index_of(x);
                            assert(q.take(head as int + 1)[p] == x);
                        }
                    }
                    if q.take(head as int + 1).to_set().contains(x) {
                        let p = q.take(head as int + 1).index_of(x);
                        if p < head {
                            assert(q0.take(head as int)[p] == x);
                        }
                    }
                }
            }
            assert forall|i: int| 0 <= i < deg@.len() implies #[trigger] deg@[i] == pending(
                self.edges@,
                next,
                self.all_nodes@[i],
            ) by {
                assert(self.edges@.take(k as int) =~= self.edges@);
                assert(self.edges@.skip(k as int) =~= Seq::empty());
            }
            assert forall|a: NodeId, p: int|
                #![trigger self.edges@.contains((a, q[p]))]
                0 <= p < q.len() && self.edges@.contains((a, q[p])) implies q.take(p).contains(
                a,
            ) by {
                if p < q0.len() {
                    assert(q.take(q0.len() as int)[p] == q[p]);
                    assert(q0[p] == q[p]);
                    assert(q0.take(p).contains(a));
                    let r = q0.take(p).index_of(a);
                    assert(q.take(q0.len() as int)[r] == q[r]);
                    assert(q.take(p)[r] == a);
                } else {
                    assert(q.contains(q[p]));
                    assert(self.all_nodes@.contains(q[p]));
                    let i = self.all_nodes@.index_of(q[p]);
                    assert(deg@[i] == 0);
                    lemma_pending_zero(self.edges@, next, q[p]);
                    assert(next.contains(a));
                    let r = q.take(head as int + 1).index_of(a);
                    assert(q.take(head as int + 1).to_set().contains(a));
                    assert(q.take(head as int + 1)[r] == a);
                    assert(q.take(p)[r] == a);
                }
            }
        }
    }

    /// The nodes in an order in which each comes after what it depends on,
    /// without those that are on a cycle or depend on one.
    fn topological_sort_inner(&self) -> (r: Vec<NodeId>)
        requires
            self.wf(),
        ensures
            sorts(r@, self.edges@, self.all_nodes@),
    {
        let mut deg = self.in_degrees();
        let mut queue = self.roots(&deg);
        proof {
            assert(queue@.take(0).to_set() =~= Set::empty());
            assert forall|a: NodeId, p: int|
                #![trigger self.edges@.contains((a, queue@[p]))]
                0 <= p < queue@.len() && self.edges@.contains(
                    (a, queue@[p]),
                ) implies queue@.take(p).contains(a) by {
                assert(queue@.contains(queue@[p]));
                assert(self.all_nodes@.contains(queue@[p]));
                let i = self.all_nodes@.index_of(queue@[p]);
                lemma_pending_zero(self.edges@, Set::empty(), queue@[p]);
            }
        }
        let mut head: usize = 0;
        while head < queue.len()
            invariant
                self.wf(),
                sorting(*self, queue@, head as int, deg@),
            decreases self.all_nodes@.len() - head,
        {
            proof {
                lemma_fits(queue@, self.all_nodes@);
            }
            self.release(head, &mut deg, &mut queue);
            head += 1;
        }
        proof {
            assert(queue@.take(head as int) =~= queue@);
            self.lemma_sorted(queue@, deg@);
        }
        queue
    }

    /// When all of the queue is done, it is sorted and complete.
    proof fn lemma_sorted(&self, q: Seq<NodeId>, deg: Seq<usize>)
        requires
            self.wf(),
            sorting(*self, q, q.len() as int, deg),
            q.take(q.len() as int) == q,
        ensures
            sorts(q, self.edges@, self.all_nodes@),
    {
        let edges = self.edges@;
        let ids = self.all_nodes@;
        assert(graph::upstream_first(edges, q));
        let rest = ids.to_set().difference(q.to_set());
        assert forall|b: NodeId| rest.contains(b) implies #[trigger] graph::fed_from(
            edges,
            rest,
            b,
        ) by {
            assert(ids.contains(b));
            let i = ids.index_of(b);
            assert(!q.contains(ids[i]));
            assert(deg[i] != 0);
            lemma_pending_zero(edges, q.to_set(), b);
            let a = choose|a: NodeId| #[trigger] edges.contains((a, b)) && !q.to_set().contains(a);
            let k = edges.index_of((a, b));
            assert(ids.contains(edges[k].0));
            assert(rest.contains(a));
        }
        assert forall|n: NodeId| #[trigger] q.contains(n) <==> ids.contains(n) && !graph::blocked(
            edges,
            n,
        ) by {
            if q.contains(n) {
                assert(ids.contains(n));
                graph::ordered_is_not_blocked(edges, q, n);
            } else if ids.contains(n) {
                assert(rest.contains(n));
                graph::unordered_is_blocked(edges, rest, n);
            }
        }
    }
}

/// A list without duplicates fits into one that holds its members.
proof fn lemma_fits(a: Seq<NodeId>, b: Seq<NodeId>)
    requires
        a.no_duplicates(),
        forall|n: NodeId| a.contains(n) ==> #[trigger] b.contains(n),
    ensures
        a.len() <= b.len(),
{
    a.unique_seq_to_set();
    assert forall|n: NodeId| a.to_set().contains(n) implies b.to_set().contains(n) by {
        assert(a.contains(n));
        assert(b.contains(n));
    }
    vstd::set_lib::lemma_len_subset(a.to_set(), b.to_set());
    b.lemma_cardinality_of_set();
}

/// The queue holds the nodes whose count is zero after one count went down.
proof fn lemma_queued(
    dag: StDag,
    q0: Seq<NodeId>,
    d0: Seq<usize>,
    q1: Seq<NodeId>,
    d1: Seq<usize>,
    n: NodeId,
    j: int,
)
    requires
        dag.wf(),
        zeros_queued(dag, q0, d0),
        q0.no_duplicates(),
        forall|x: NodeId| q0.contains(x) ==> #[trigger] dag.all_nodes@.contains(x),
        d0.len() == dag.all_nodes@.len(),
        0 <= j < d0.len(),
        dag.all_nodes@[j] == n,
        d0[j] > 0,
        d1 == d0.update(j, (d0[j] - 1) as usize),
        q1 == if d1[j] == 0 {
            q0.push(n)
        } else {
            q0
        },
    ensures
        zeros_queued(dag, q1, d1),
        q1.no_duplicates(),
        forall|x: NodeId| q1.contains(x) ==> #[trigger] dag.all_nodes@.contains(x),
{
    assert(!q0.contains(n)) by {
        assert(q0.contains(dag.member_list()[j]) <==> d0[j] == 0);
    }
    assert forall|x: NodeId| #[trigger] q1.contains(x) == (q0.contains(x) || (d1[j] == 0 && x
        == n)) by {
        if q0.contains(x) {
            assert(q1[q0.index_of(x)] == x);
        }
        if d1[j] == 0 && x == n {
            assert(q1[q0.len() as int] == x);
        }
    }
    assert forall|i: int| 0 <= i < d1.len() implies (q1.contains(#[trigger] dag.all_nodes@[i])
        <==> d1[i] == 0) by {
        assert(q0.contains(dag.member_list()[i]) <==> d0[i] == 0);
    }
    assert forall|x: NodeId| q1.contains(x) implies #[trigger] dag.all_nodes@.contains(x) by {
        if x == n {
            assert(dag.all_nodes@[j] == n);
        }
    }
}

impl StDag {
    /// Whether there is no cycle.
    ///
    /// Where there is one, the error names the nodes that are on one.
    pub fn detect_cycles(&self) -> (r: Result<(), PgTrickleError>)
        requires
            self.wf(),
        ensures
            r is Ok <==> graph::acyclic(self.edge_list()),
            r is Err ==> r->Err_0@ == ErrorView::CycleDetected(
                cycle_names(self.edge_list(), self.node_list(), self.member_list()),
            ),
    {
        let topo = self.topological_sort_inner();
        let mut names: Vec<String> = Vec::new();
        let mut i: usize = 0;
        assert(text::texts(names@) =~= Seq::empty());
        while i < self.all_nodes.len()
            invariant
                i <= self.all_nodes.len(),
                self.wf(),
                sorts(topo@, self.edges@, self.all_nodes@),
                text::texts(names@) == cycle_names(
                    self.edges@,
                    self.nodes@,
                    self.all_nodes@.take(i as int),
                ),
                names@.len() == 0 <==> forall|k: int|
                    0 <= k < i ==> !graph::on_cycle(self.edges@, #[trigger] self.all_nodes@[k]),
            decreases self.all_nodes.len() - i,
        {
            let n = self.all_nodes[i];
            let ghost before = names@;
            assert(self.all_nodes@.take(i + 1).drop_last() =~= self.all_nodes@.take(i as int));
            assert(self.all_nodes@.contains(self.all_nodes@[i as int]));
            if !holds(&topo, n) && self.on_a_cycle(n) {
                names.push(self.node_name(&n));
                assert(text::texts(names@) =~= text::texts(before).push(
                    display_name(self.nodes@, n),
                ));
            } else {
                assert(graph::on_cycle(self.edges@, n) ==> graph::blocked(self.edges@, n));
            }
            i += 1;
        }
        assert(self.all_nodes@.take(i as int) =~= self.all_nodes@);
        proof {
            self.lemma_acyclic();
        }
        if names.len() > 0 {
            Err(PgTrickleError::CycleDetected(names))
        } else {
            Ok(())
        }
    }

    /// Whether a node is on a cycle: whether it is among the nodes to which
    /// edges lead from it.
    fn on_a_cycle(&self, n: NodeId) -> (r: bool)
        requires
            self.wf(),
        ensures
            r == graph::on_cycle(self.edges@, n),
    {
        let mut found: Vec<NodeId> = Vec::new();
        self.add_targets(n, n, &mut found);
        let mut i: usize = 0;
        while i < found.len()
            invariant
                i <= found.len(),
                self.wf(),
                self.are_reached(n, found@),
                self.has_targets(n, found@),
                forall|k: int| 0 <= k < i ==> self.has_targets(#[trigger] found@[k], found@),
            decreases self.all_nodes@.len() - i,
        {
            proof {
                lemma_distinct_fit(found@, self.all_nodes@);
            }
            let m = found[i];
            let ghost before = found@;
            self.add_targets(n, m, &mut found);
            proof {
                assert forall|k: int| 0 <= k < i + 1 implies self.has_targets(
                    #[trigger] found@[k],
                    found@,
                ) by {
                    if k < i {
                        assert(self.has_targets(before[k], before));
                    }
                }
            }
            i += 1;
        }
        proof {
            if graph::on_cycle(self.edges@, n) {
                let s = choose|s: Seq<NodeId>| #[trigger]
                    graph::is_path(self.edges@, s) && s.first() == n && s.last() == n;
                self.lemma_path_is_found(n, found@, s, s.len() - 1);
            }
        }
        holds(&found, n)
    }

    /// Whether nodes are listed once each, and edges lead to each from a node.
    spec fn are_reached(&self, n: NodeId, found: Seq<NodeId>) -> bool {
        &&& found.no_duplicates()
        &&& forall|k: int|
            0 <= k < found.len() ==> self.all_nodes@.contains(#[trigger] found[k])
                && graph::reaches(self.edges@, n, found[k])
    }

    /// Whether all nodes to which an edge leads from a node are listed.
    spec fn has_targets(&self, m: NodeId, found: Seq<NodeId>) -> bool {
        forall|b: NodeId| #[trigger] self.edges@.contains((m, b)) ==> found.contains(b)
    }

    /// A path from a node stays among the nodes that were found.
    proof fn lemma_path_is_found(&self, n: NodeId, found: Seq<NodeId>, s: Seq<NodeId>, i: int)
        requires
            graph::is_path(self.edges@, s),
            s.first() == n,
            self.has_targets(n, found),
            forall|k: int| 0 <= k < found.len() ==> self.has_targets(#[trigger] found[k], found),
            1 <= i < s.len(),
        ensures
            found.contains(s[i]),
        decreases i,
    {
        assert(graph::step_at(self.edges@, s, i - 1));
        if i > 1 {
            self.lemma_path_is_found(n, found, s, i - 1);
            let k = found.index_of(s[i - 1]);
            assert(self.has_targets(found[k], found));
        }
    }

    /// Adds the nodes to which an edge leads from a node, each once.
    fn add_targets(&self, n: NodeId, m: NodeId, found: &mut Vec<NodeId>)
        requires
            self.wf(),
            self.are_reached(n, old(found)@),
            m == n || graph::reaches(self.edges@, n, m),
        ensures
            self.are_reached(n, final(found)@),
            self.has_targets(m, final(found)@),
            old(found)@.is_prefix_of(final(found)@),
    {
        let ghost start = found@;
        let mut i: usize = 0;
        while i < self.edges.len()
            invariant
                i <= self.edges.len(),
                self.wf(),
                self.are_reached(n, found@),
                m == n || graph::reaches(self.edges@, n, m),
                start.is_prefix_of(found@),
                forall|k: int|
                    0 <= k < i && (#[trigger] self.edges@[k]).0 == m ==> found@.contains(
                        self.edges@[k].1,
                    ),
            decreases self.edges.len() - i,
        {
            let e = self.edges[i];
            let ghost before = found@;
            if e.0 == m && !holds(found, e.1) {
                found.push(e.1);
                proof {
                    assert(self.edges@.contains(e));
                    assert(self.edges@[i as int] == e);
                    graph::reaches_on(self.edges@, n, m, e.1);
                    assert forall|k: int|
                        0 <= k < i + 1 && (#[trigger] self.edges@[k]).0
                            == m implies found@.contains(self.edges@[k].1) by {
                        if k < i {
                            let q = before.index_of(self.edges@[k].1);
                            assert(found@[q] == self.edges@[k].1);
                        } else {
                            assert(found@[found@.len() - 1] == e.1);
                        }
                    }
                    assert(start.is_prefix_of(found@));
                }
            }
            i += 1;
        }
        proof {
            assert forall|b: NodeId| #[trigger] self.edges@.contains((m, b)) implies found@.contains(
                b,
            ) by {
                let k = self.edges@.index_of((m, b));
                assert(self.edges@[k] == (m, b));
            }
        }
    }

    /// There is no cycle if and only if no node is on one.
    proof fn lemma_acyclic(&self)
        requires
            self.wf(),
        ensures
            graph::acyclic(self.edges@) <==> forall|k: int|
                0 <= k < self.all_nodes@.len() ==> !graph::on_cycle(
                    self.edges@,
                    #[trigger] self.all_nodes@[k],
                ),
    {
        if !graph::acyclic(self.edges@) {
            let m = choose|m: NodeId| #[trigger] graph::on_cycle(self.edges@, m);
            let s = choose|s: Seq<NodeId>| #[trigger]
                graph::is_path(self.edges@, s) && s.first() == m && s.last() == m;
            assert(graph::step_at(self.edges@, s, 0));
            let k = self.edges@.index_of((s[0], s[1]));
            assert(self.all_nodes@.contains(self.edges@[k].0));
            let i = self.all_nodes@.index_of(m);
            assert(graph::on_cycle(self.edges@, self.all_nodes@[i]));
        }
    }

    /// The stream tables in an order in which each comes after those that it
    /// depends on.
    ///
    /// Base tables are left out, and so are stream tables on a cycle and those
    /// that depend on one.
    pub fn topological_order(&self) -> (r: Result<Vec<NodeId>, PgTrickleError>)
        requires
            self.wf(),
        ensures
            r is Ok,
            r->Ok_0@.no_duplicates(),
            forall|n: NodeId| #[trigger]
                r->Ok_0@.contains(n) <==> n is StreamTable && self.member_list().contains(n)
                    && !graph::blocked(self.edge_list(), n),
            refresh_order(self.edge_list(), r->Ok_0@),
    {
        let all = self.topological_sort_inner();
        let mut r: Vec<NodeId> = Vec::new();
        let mut i: usize = 0;
        while i < all.len()
            invariant
                i <= all.len(),
                r@ == stream_tables(all@.take(i as int)),
            decreases all.len() - i,
        {
            assert(all@.take(i + 1).drop_last() =~= all@.take(i as int));
            match all[i] {
                NodeId::StreamTable(_) => {
                    r.push(all[i]);
                },
                NodeId::BaseTable(_) => {},
            }
            i += 1;
        }
        proof {
            assert(all@.take(i as int) =~= all@);
            assert forall|n: NodeId| #[trigger] r@.contains(n) <==> n is StreamTable
                && self.all_nodes@.contains(n) && !graph::blocked(self.edges@, n) by {
                lemma_stream_tables(all@, n);
                assert(all@.contains(n) <==> self.all_nodes@.contains(n) && !graph::blocked(
                    self.edges@,
                    n,
                ));
            }
            lemma_stream_tables_unique(all@);
            lemma_refresh_order(self.edges@, all@);
        }
        Ok(r)
    }
}

/// Whether every node of an order comes after the stream tables from which
/// edges lead to it.
pub open spec fn refresh_order(edges: Seq<Edge>, order: Seq<NodeId>) -> bool {
    forall|a: NodeId, p: int|
        #![trigger graph::reaches(edges, a, order[p])]
        0 <= p < order.len() && a is StreamTable && graph::reaches(edges, a, order[p])
            ==> order.take(p).contains(a)
}

/// Distinct nodes of a list are no more than the list holds.
proof fn lemma_distinct_fit(some: Seq<NodeId>, all: Seq<NodeId>)
    requires
        some.no_duplicates(),
        forall|k: int| 0 <= k < some.len() ==> all.contains(#[trigger] some[k]),
    ensures
        some.len() <= all.len(),
{
    some.unique_seq_to_set();
    all.lemma_cardinality_of_set();
    assert(some.to_set().subset_of(all.to_set()));
    vstd::set_lib::lemma_len_subset(some.to_set(), all.to_set());
}

/// Whether a list holds a node.
fn holds(ids: &Vec<NodeId>, n: NodeId) -> (r: bool)
    ensures
        r == ids@.contains(n),
{
    let mut i: usize = 0;
    while i < ids.len()
        invariant
            i <= ids.len(),
            forall|k: int| 0 <= k < i ==> ids@[k] != n,
        decreases ids.len() - i,
    {
        if ids[i] == n {
            return true;
        }
        i += 1;
    }
    false
}

/// The stream tables among nodes are the nodes that are stream tables.
proof fn lemma_stream_tables(ids: Seq<NodeId>, n: NodeId)
    ensures
        stream_tables(ids).contains(n) <==> n is StreamTable && ids.contains(n),
    decreases ids.len(),
{
    if ids.len() > 0 {
        let rest = ids.drop_last();
        lemma_stream_tables(rest, n);
        let r = stream_tables(ids);
        let s = stream_tables(rest);
        if s.contains(n) {
            assert(r[s.index_of(n)] == n);
        }
        if rest.contains(n) {
            assert(ids[rest.index_of(n)] == n);
        }
        if ids.last() == n && n is StreamTable {
            assert(r[s.len() as int] == n);
        }
        if ids.contains(n) && ids.last() != n {
            assert(rest[ids.index_of(n)] == n);
        }
        if r.contains(n) && !s.contains(n) {
            assert(r.index_of(n) == s.len());
            assert(ids[ids.len() - 1] == n);
        }
    } else {
        assert(!ids.contains(n));
    }
}

/// Stream tables occur once where nodes do.
proof fn lemma_stream_tables_unique(ids: Seq<NodeId>)
    requires
        ids.no_duplicates(),
    ensures
        stream_tables(ids).no_duplicates(),
    decreases ids.len(),
{
    if ids.len() > 0 {
        let rest = ids.drop_last();
        lemma_stream_tables_unique(rest);
        lemma_stream_tables(rest, ids.last());
        if rest.contains(ids.last()) {
            let i = rest.index_of(ids.last());
            assert(ids[i] == ids[ids.len() - 1]);
        }
    }
}

/// Leaving base tables out of an order keeps stream tables after those they
/// depend on.
proof fn lemma_refresh_order(edges: Seq<Edge>, order: Seq<NodeId>)
    requires
        graph::upstream_first(edges, order),
    ensures
        refresh_order(edges, stream_tables(order)),
{
    let r = stream_tables(order);
    assert forall|a: NodeId, p: int|
        #![trigger graph::reaches(edges, a, r[p])]
        0 <= p < r.len() && a is StreamTable && graph::reaches(edges, a, r[p]) implies r.take(
        p,
    ).contains(a) by {
        let q = lemma_stream_tables_at(order, p);
        let s = choose|s: Seq<NodeId>| #[trigger]
            graph::is_path(edges, s) && s.first() == a && s.last() == r[p];
        graph::path_follows_order(edges, order, s, q);
        lemma_stream_tables(order.take(q), a);
    }
}

/// Where a stream table stands among all nodes.
proof fn lemma_stream_tables_at(ids: Seq<NodeId>, p: int) -> (q: int)
    requires
        0 <= p < stream_tables(ids).len(),
    ensures
        0 <= q < ids.len(),
        ids[q] == stream_tables(ids)[p],
        stream_tables(ids.take(q)) == stream_tables(ids).take(p),
    decreases ids.len(),
{
    let rest = ids.drop_last();
    if p < stream_tables(rest).len() {
        let q = lemma_stream_tables_at(rest, p);
        assert(rest.take(q) =~= ids.take(q));
        assert(stream_tables(rest).take(p) =~= stream_tables(ids).take(p));
        q
    } else {
        assert(ids.take(ids.len() - 1) =~= rest);
        assert(stream_tables(ids).take(p) =~= stream_tables(rest));
        ids.len() - 1
    }
}

// ── The graph of a catalog ─────────────────────────────────────────────

/// A row of the catalog of stream tables.
#[derive(Debug)]
pub struct TableRow {
    pub pgs_id: Option<i64>,
    pub pgs_name: Option<String>,
    pub pgs_schema: Option<String>,
    /// The schedule as it stands in the catalog.
    pub schedule: Option<String>,
    /// The schedule in seconds, where it is a length of time.
    pub schedule_secs: Option<i64>,
    pub status: Option<String>,
}

/// A row of the catalog of dependencies.
#[derive(Debug)]
pub struct DependencyRow {
    pub pgs_id: Option<i64>,
    pub source_relid: Option<u32>,
    /// The stream table that is the source, where it is one.
    pub source_pgs_id: Option<i64>,
}

/// A text, or the empty one where there is none.
pub open spec fn text_or_empty(s: Option<String>) -> Seq<char> {
    match s {
        Some(t) => t@,
        None => Seq::empty(),
    }
}

/// A number, or zero where there is none.
pub open spec fn number_or_zero(n: Option<i64>) -> i64 {
    match n {
        Some(i) => i,
        None => 0,
    }
}

/// The schedule of a row, if it is a length of time; a negative length counts
/// as zero.
pub open spec fn row_schedule(row: TableRow) -> Option<Duration> {
    match (row.schedule, row.schedule_secs) {
        (Some(_), Some(secs)) => Some(
            Duration::of_secs(
                if secs >= 0 {
                    secs as u64
                } else {
                    0
                },
            ),
        ),
        _ => None,
    }
}

/// Whether a node is made from a row.  A status that is not known counts as an
/// error.
pub open spec fn describes(node: DagNode, row: TableRow) -> bool {
    &&& node.id == NodeId::StreamTable(number_or_zero(row.pgs_id))
    &&& node.schedule == row_schedule(row)
    &&& node.effective_schedule == (match row_schedule(row) {
        Some(d) => d,
        None => Duration::of_secs(0),
    })
    &&& node.name@ == text_or_empty(row.pgs_schema) + "."@ + text_or_empty(row.pgs_name)
    &&& node.status == (match StStatus::parsed(text_or_empty(row.status)) {
        Ok(s) => s,
        Err(_) => StStatus::Error,
    })
    &&& text::opt_text(node.schedule_raw) == text::opt_text(row.schedule)
}

/// The edge of a row: from a stream table where the source is one, else from
/// a base table.
pub open spec fn row_edge(row: DependencyRow) -> Edge {
    (
        match row.source_pgs_id {
            Some(id) => NodeId::StreamTable(id),
            None => NodeId::BaseTable(
                match row.source_relid {
                    Some(oid) => oid,
                    None => 0,
                },
            ),
        },
        NodeId::StreamTable(number_or_zero(row.pgs_id)),
    )
}

/// The edges of rows.
pub open spec fn row_edges(rows: Seq<DependencyRow>) -> Seq<Edge> {
    Seq::new(rows.len(), |i: int| row_edge(rows[i]))
}

/// Nodes that are added one after the other.
pub open spec fn nodes_added(added: Seq<DagNode>) -> Seq<DagNode>
    decreases added.len(),
{
    if added.len() == 0 {
        Seq::empty()
    } else {
        with_node(nodes_added(added.drop_last()), added.last())
    }
}

/// The nodes that are listed after nodes were added.
pub open spec fn ids_added(added: Seq<DagNode>) -> Seq<NodeId>
    decreases added.len(),
{
    if added.len() == 0 {
        Seq::empty()
    } else {
        with_id(ids_added(added.drop_last()), added.last().id)
    }
}

/// The nodes that are listed after edges were added.
pub open spec fn ids_joined(ids: Seq<NodeId>, edges: Seq<Edge>) -> Seq<NodeId>
    decreases edges.len(),
{
    if edges.len() == 0 {
        ids
    } else {
        with_id(with_id(ids_joined(ids, edges.drop_last()), edges.last().0), edges.last().1)
    }
}

/// Whether a graph is that of catalog rows before schedules are worked out.
pub open spec fn loaded(
    dag: StDag,
    added: Seq<DagNode>,
    tables: Seq<TableRow>,
    dependencies: Seq<DependencyRow>,
) -> bool {
    &&& added.len() == tables.len()
    &&& forall|i: int| 0 <= i < tables.len() ==> describes(#[trigger] added[i], tables[i])
    &&& dag.node_list() == nodes_added(added)
    &&& dag.edge_list() == row_edges(dependencies)
    &&& dag.member_list() == ids_joined(ids_added(added), row_edges(dependencies))
}

/// A text, or the empty one where there is none.
fn or_empty(s: &Option<String>) -> (r: String)
    ensures
        r@ == text_or_empty(*s),
{
    match s {
        Some(t) => t.clone(),
        None => {
            let r = "".to_string();
            proof {
                reveal_strlit("");
                assert(r@ =~= Seq::empty());
            }
            r
        },
    }
}

/// A number, or zero where there is none.
fn or_zero(n: Option<i64>) -> (r: i64)
    ensures
        r == number_or_zero(n),
{
    match n {
        Some(i) => i,
        None => 0,
    }
}

/// The node of a row.
fn node_of_row(row: &TableRow) -> (r: DagNode)
    ensures
        describes(r, *row),
{
    let schedule = match (&row.schedule, row.schedule_secs) {
        (Some(_), Some(secs)) => if secs >= 0 {
            Some(Duration::from_secs(secs as u64))
        } else {
            Some(Duration::from_secs(0))
        },
        _ => None,
    };
    let effective_schedule = match schedule {
        Some(d) => d,
        None => Duration::from_secs(0),
    };
    let mut name = or_empty(&row.pgs_schema);
    name.append(".");
    name.append(or_empty(&row.pgs_name).as_str());
    let status = match StStatus::from_str(or_empty(&row.status).as_str()) {
        Ok(s) => s,
        Err(_) => StStatus::Error,
    };
    DagNode {
        id: NodeId::StreamTable(or_zero(row.pgs_id)),
        schedule,
        effective_schedule,
        name,
        status,
        schedule_raw: copy_opt(&row.schedule),
    }
}

impl StDag {
    /// The graph of catalog rows, before schedules are worked out.
    fn load(tables: &Vec<TableRow>, dependencies: &Vec<DependencyRow>) -> (r: (
        StDag,
        Ghost<Seq<DagNode>>,
    ))
        ensures
            r.0.wf(),
            loaded(r.0, r.1@, tables@, dependencies@),
    {
        let mut dag = StDag::new();
        let ghost mut added: Seq<DagNode> = Seq::empty();
        assert(dag.nodes@ =~= Seq::empty());
        assert(dag.all_nodes@ =~= Seq::empty());
        let mut i: usize = 0;
        while i < tables.len()
            invariant
                i <= tables.len(),
                dag.wf(),
                dag.edges@.len() == 0,
                added.len() == i,
                forall|k: int| 0 <= k < i ==> describes(#[trigger] added[k], tables@[k]),
                dag.nodes@ == nodes_added(added),
                dag.all_nodes@ == ids_added(added),
            decreases tables.len() - i,
        {
            let node = node_of_row(&tables[i]);
            proof {
                let more = added.push(node);
                assert(more.drop_last() =~= added);
                added = more;
            }
            dag.add_dt_node(node);
            i += 1;
        }
        let ghost ids = dag.all_nodes@;
        let ghost edges = row_edges(dependencies@);
        let mut j: usize = 0;
        assert(dag.edges@ =~= edges.take(0));
        while j < dependencies.len()
            invariant
                j <= dependencies.len(),
                dag.wf(),
                edges == row_edges(dependencies@),
                dag.nodes@ == nodes_added(added),
                dag.edges@ == edges.take(j as int),
                dag.all_nodes@ == ids_joined(ids, edges.take(j as int)),
            decreases dependencies.len() - j,
        {
            let row = &dependencies[j];
            let source = match row.source_pgs_id {
                Some(id) => NodeId::StreamTable(id),
                None => NodeId::BaseTable(
                    match row.source_relid {
                        Some(oid) => oid,
                        None => 0,
                    },
                ),
            };
            dag.add_edge(source, NodeId::StreamTable(or_zero(row.pgs_id)));
            j += 1;
            proof {
                assert(edges.take(j as int) =~= edges.take(j - 1).push(edges[j - 1]));
                assert(edges.take(j as int).drop_last() =~= edges.take(j - 1));
            }
        }
        assert(edges.take(j as int) =~= edges);
        (dag, Ghost(added))
    }

    /// The graph of catalog rows, with schedules worked out.
    ///
    /// A schedule that is no length of time counts as none: such a stream
    /// table is refreshed on its own terms.
    pub fn build_from_catalog(
        tables: &Vec<TableRow>,
        dependencies: &Vec<DependencyRow>,
        fallback_schedule_secs: i32,
    ) -> (r: StDag)
        ensures
            r.wf(),
            exists|dag: StDag, added: Seq<DagNode>| #[trigger]
                loaded(dag, added, tables@, dependencies@) && r.edge_list() == dag.edge_list()
                    && r.member_list() == dag.member_list() && r.node_list() == schedule::rounds(
                    dag.node_list(),
                    dag.edge_list(),
                    Duration::of_secs(schedule::fallback_secs(fallback_schedule_secs)),
                    dag.node_list().len() + 1,
                ),
            graph::acyclic(r.edge_list()) ==> schedule::resolved(
                r.node_list(),
                r.edge_list(),
                Duration::of_secs(schedule::fallback_secs(fallback_schedule_secs)),
            ),
    {
        let (mut dag, Ghost(added)) = StDag::load(tables, dependencies);
        let ghost before = dag;
        dag.resolve_calculated_schedule(fallback_schedule_secs);
        assert(loaded(before, added, tables@, dependencies@));
        dag
    }
}

// ── Laws ───────────────────────────────────────────────────────────────

/// An edge that was added is seen from both of its ends, after those that were
/// added before it, and other nodes see what they saw.
pub proof fn edge_is_seen(edges: Seq<Edge>, source: NodeId, target: NodeId, n: NodeId)
    ensures
        downstream(edges.push((source, target)), source) == downstream(edges, source).push(target),
        upstream(edges.push((source, target)), target) == upstream(edges, target).push(source),
        n != source ==> downstream(edges.push((source, target)), n) == downstream(edges, n),
        n != target ==> upstream(edges.push((source, target)), n) == upstream(edges, n),
{
    assert(edges.push((source, target)).drop_last() =~= edges);
}

/// A node is downstream of another if and only if that is upstream of it.
pub proof fn ends_agree(edges: Seq<Edge>, a: NodeId, b: NodeId)
    ensures
        downstream(edges, a).contains(b) <==> upstream(edges, b).contains(a),
        downstream(edges, a).contains(b) <==> edges.contains((a, b)),
    decreases edges.len(),
{
    if edges.len() > 0 {
        let rest = edges.drop_last();
        ends_agree(rest, a, b);
        let e = edges.last();
        assert(edges =~= rest.push(e));
        lemma_push_contains(downstream(rest, a), e.1, b);
        lemma_push_contains(upstream(rest, b), e.0, a);
        assert(edges.contains((a, b)) <==> rest.contains((a, b)) || e == (a, b)) by {
            if rest.contains((a, b)) {
                assert(edges[rest.index_of((a, b))] == (a, b));
            }
            if e == (a, b) {
                assert(edges[edges.len() - 1] == e);
            }
            if edges.contains((a, b)) && e != (a, b) {
                assert(rest[edges.index_of((a, b))] == (a, b));
            }
        }
    } else {
        assert(!edges.contains((a, b)));
    }
}

// ── Sequences of nodes ─────────────────────────────────────────────────

/// What a list holds after one more was added.
proof fn lemma_push_contains(s: Seq<NodeId>, x: NodeId, y: NodeId)
    ensures
        s.push(x).contains(y) <==> s.contains(y) || x == y,
{
    if s.contains(y) {
        assert(s.push(x)[s.index_of(y)] == y);
    }
    if x == y {
        assert(s.push(x)[s.len() as int] == y);
    }
}

/// A list holds what it held before one more was added, and that.
proof fn lemma_with_id(ids: Seq<NodeId>, id: NodeId, x: NodeId)
    ensures
        with_id(ids, id).contains(x) == (ids.contains(x) || x == id),
        ids.no_duplicates() ==> with_id(ids, id).no_duplicates(),
{
    let more = with_id(ids, id);
    if !ids.contains(id) {
        if ids.contains(x) {
            let i = ids.index_of(x);
            assert(more[i] == x);
        }
        if x == id {
            assert(more[ids.len() as int] == x);
        }
    }
}

/// Where a node goes that is added: to the first place with its id, or to the
/// end.
proof fn lemma_with_node_at(nodes: Seq<DagNode>, node: DagNode, i: int)
    requires
        0 <= i <= nodes.len(),
        forall|k: int| 0 <= k < i ==> (#[trigger] nodes[k]).id != node.id,
        i < nodes.len() ==> nodes[i].id == node.id,
    ensures
        with_node(nodes, node) == if i < nodes.len() {
            nodes.update(i, node)
        } else {
            nodes.push(node)
        },
    decreases nodes.len(),
{
    if nodes.len() == 0 {
        assert(with_node(nodes, node) =~= nodes.push(node));
    } else if i == 0 {
        assert(with_node(nodes, node) =~= nodes.update(0, node));
    } else {
        let rest = nodes.drop_first();
        assert forall|k: int| 0 <= k < i - 1 implies (#[trigger] rest[k]).id != node.id by {
            assert(nodes[k + 1].id != node.id);
        }
        assert(nodes[0].id != node.id);
        lemma_with_node_at(rest, node, i - 1);
        if i < nodes.len() {
            assert(with_node(nodes, node) =~= nodes.update(i, node));
        } else {
            assert(with_node(nodes, node) =~= nodes.push(node));
        }
    }
}

/// A node that is added is found, and ids stay unique.
proof fn lemma_with_node(nodes: Seq<DagNode>, node: DagNode)
    requires
        ids_of(nodes).no_duplicates(),
    ensures
        lookup(with_node(nodes, node), node.id) == Some(node),
        ids_of(with_node(nodes, node)).no_duplicates(),
{
    let i = if exists|i: int| 0 <= i < nodes.len() && (#[trigger] nodes[i]).id == node.id {
        choose|i: int| 0 <= i < nodes.len() && (#[trigger] nodes[i]).id == node.id
    } else {
        nodes.len() as int
    };
    assert forall|k: int| 0 <= k < i implies (#[trigger] nodes[k]).id != node.id by {
        assert(ids_of(nodes)[k] == nodes[k].id);
        if i < nodes.len() {
            assert(ids_of(nodes)[i] == nodes[i].id);
        }
    }
    lemma_with_node_at(nodes, node, i);
    let more = with_node(nodes, node);
    assert forall|a: int, b: int|
        0 <= a < more.len() && 0 <= b < more.len() && a != b implies ids_of(more)[a] != ids_of(
        more,
    )[b] by {
        if a < nodes.len() {
            assert(ids_of(nodes)[a] == nodes[a].id);
        }
        if b < nodes.len() {
            assert(ids_of(nodes)[b] == nodes[b].id);
        }
    }
    lemma_lookup_at(more, i);
}

/// With unique ids, each node is found under its id.
proof fn lemma_lookup_at(nodes: Seq<DagNode>, i: int)
    requires
        ids_of(nodes).no_duplicates(),
        0 <= i < nodes.len(),
    ensures
        lookup(nodes, nodes[i].id) == Some(nodes[i]),
    decreases nodes.len(),
{
    let ids = ids_of(nodes);
    if i < nodes.len() - 1 {
        assert(ids[i] != ids[nodes.len() - 1]);
        let rest = nodes.drop_last();
        assert(ids_of(rest) =~= ids.drop_last());
        lemma_lookup_at(rest, i);
    }
}

} // verus!
