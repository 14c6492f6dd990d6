//! The storage of the graph. Nodes and edges live in a `petgraph` graph whose
//! node and edge weights are the handles under which the package graph keeps
//! its own data. This module states what the graph holds and what each of its
//! operations does to it; the operations themselves are `petgraph`'s.

use petgraph::graph::{Graph, NodeIndex};
use petgraph::visit::EdgeRef as _;
use petgraph::Directed;
use vstd::prelude::*;

pub mod reversed;

verus! {

/// The marker of `petgraph` for graphs with directed edges.
#[verifier::external_type_specification]
#[verifier::external_body]
pub struct ExDirected(petgraph::Directed);

/// The graph of `petgraph`. What one holds is told by `graph_nodes`,
/// `graph_edges` and `graph_adjacency`.
#[verifier::external_type_specification]
#[verifier::external_body]
#[verifier::reject_recursive_types(N)]
#[verifier::reject_recursive_types(E)]
#[verifier::reject_recursive_types(Ty)]
#[verifier::reject_recursive_types(Ix)]
pub struct ExGraph<N, E, Ty, Ix>(petgraph::graph::Graph<N, E, Ty, Ix>);

/// The weights of the nodes of a graph, by node index.
pub uninterp spec fn graph_nodes(g: Graph<usize, usize, Directed, usize>) -> Seq<usize>;

/// The edges of a graph by edge index, each as source, target and weight.
pub uninterp spec fn graph_edges(g: Graph<usize, usize, Directed, usize>) -> Seq<
    (usize, usize, usize),
>;

/// For each node by index, the indices of the edges that leave it and of the
/// edges that arrive at it, each list in the order in which the graph walks
/// the edges at the node.
pub uninterp spec fn graph_adjacency(g: Graph<usize, usize, Directed, usize>) -> Seq<
    (Seq<usize>, Seq<usize>),
>;

/// The direction in which the edges at a node are followed.
#[derive(Clone, Copy, Debug, PartialEq, Eq, Structural)]
pub enum Direction {
    /// Along the edges that leave the node.
    Outgoing,
    /// Against the edges that arrive at the node.
    Incoming,
}

impl Direction {
    /// The other direction.
    pub fn opposite(self) -> (r: Direction)
        ensures
            r == self.spec_opposite(),
    {
        match self {
            Direction::Outgoing => Direction::Incoming,
            Direction::Incoming => Direction::Outgoing,
        }
    }

    pub open spec fn spec_opposite(self) -> Direction {
        match self {
            Direction::Outgoing => Direction::Incoming,
            Direction::Incoming => Direction::Outgoing,
        }
    }
}

/// An edge as a graph view reports it: its two ends, its index in the graph
/// and its weight.
#[derive(Clone, Copy, Debug, PartialEq, Eq, Structural)]
pub struct EdgeReference {
    pub source: usize,
    pub target: usize,
    pub index: usize,
    pub weight: usize,
}

/// The end of an edge by which it is found when walking in direction `dir`:
/// its source when walking outwards, its target when walking inwards.
pub open spec fn near_end(e: EdgeReference, dir: Direction) -> usize {
    match dir {
        Direction::Outgoing => e.source,
        Direction::Incoming => e.target,
    }
}

/// The end of an edge that a walk in direction `dir` arrives at.
pub open spec fn far_end(e: EdgeReference, dir: Direction) -> usize {
    match dir {
        Direction::Outgoing => e.target,
        Direction::Incoming => e.source,
    }
}

/// The edges at node `a` in direction `dir`, the most recently added first.
pub open spec fn incident(edges: Seq<EdgeReference>, a: usize, dir: Direction) -> Seq<
    EdgeReference,
>
    decreases edges.len(),
{
    if edges.len() == 0 {
        Seq::empty()
    } else {
        let earlier = incident(edges.drop_last(), a, dir);
        if near_end(edges.last(), dir) == a {
            seq![edges.last()] + earlier
        } else {
            earlier
        }
    }
}

/// The far ends of the given edges for a walk in direction `dir`, in order.
pub open spec fn far_ends(edges: Seq<EdgeReference>, dir: Direction) -> Seq<usize> {
    Seq::new(edges.len(), |i: int| far_end(edges[i], dir))
}

/// The nodes next to `a` in direction `dir`, one for each edge, the most
/// recently added edge first.
pub open spec fn neighbors_of(edges: Seq<EdgeReference>, a: usize, dir: Direction) -> Seq<usize> {
    far_ends(incident(edges, a, dir), dir)
}

/// The indices of the edges at node `a` in direction `dir`, the most recently
/// added first.
pub open spec fn incident_ids(edges: Seq<EdgeReference>, a: usize, dir: Direction) -> Seq<usize> {
    let found = incident(edges, a, dir);
    Seq::new(found.len(), |i: int| found[i].index)
}

/// All edges of a graph as references, by edge index.
pub open spec fn edge_list(g: Graph<usize, usize, Directed, usize>) -> Seq<EdgeReference> {
    let edges = graph_edges(g);
    Seq::new(
        edges.len(),
        |k: int|
            EdgeReference {
                source: edges[k].0,
                target: edges[k].1,
                index: k as usize,
                weight: edges[k].2,
            },
    )
}

/// The indices of the edges that the graph walks at node `a` in direction
/// `dir`, in the order of the walk; none at a node that does not exist.
pub open spec fn walk_ids(g: Graph<usize, usize, Directed, usize>, a: usize, dir: Direction) -> Seq<
    usize,
> {
    if a < graph_adjacency(g).len() {
        match dir {
            Direction::Outgoing => graph_adjacency(g)[a as int].0,
            Direction::Incoming => graph_adjacency(g)[a as int].1,
        }
    } else {
        Seq::empty()
    }
}

/// The edges that the graph walks at node `a` in direction `dir`, in the
/// order of the walk.
pub open spec fn graph_walk(g: Graph<usize, usize, Directed, usize>, a: usize, dir: Direction) -> Seq<
    EdgeReference,
> {
    let ids = walk_ids(g, a, dir);
    Seq::new(ids.len(), |j: int| edge_list(g)[ids[j] as int])
}

/// The lists of a graph after an edge with index `k` was added from `a` to
/// `b`: the edge comes first among those that leave `a` and first among those
/// that arrive at `b`.
pub open spec fn lists_after_add(
    lists: Seq<(Seq<usize>, Seq<usize>)>,
    a: usize,
    b: usize,
    k: usize,
) -> Seq<(Seq<usize>, Seq<usize>)> {
    Seq::new(
        lists.len(),
        |x: int|
            (
                if x == a {
                    seq![k] + lists[x].0
                } else {
                    lists[x].0
                },
                if x == b {
                    seq![k] + lists[x].1
                } else {
                    lists[x].1
                },
            ),
    )
}

/// Calls `Graph::with_capacity`. Trusted: the new graph has no node and no
/// edge.
#[verifier::external_body]
pub(crate) fn graph_new() -> (g: Graph<usize, usize, Directed, usize>)
    ensures
        graph_nodes(g) == Seq::<usize>::empty(),
        graph_edges(g) == Seq::<(usize, usize, usize)>::empty(),
        graph_adjacency(g) == Seq::<(Seq<usize>, Seq<usize>)>::empty(),
{
    Graph::with_capacity(0, 0)
}

/// Calls `Graph::node_count`. Trusted: it is the number of nodes.
#[verifier::external_body]
pub(crate) fn graph_node_count(g: &Graph<usize, usize, Directed, usize>) -> (n: usize)
    ensures
        n == graph_nodes(*g).len(),
{
    g.node_count()
}

/// Calls `Graph::add_node`. Trusted: the node is appended with the next free
/// index, which is returned, no edge is at it yet, and the edges stay. With
/// `usize` indices the graph has no limit at which the call would panic.
#[verifier::external_body]
pub(crate) fn graph_add_node(g: &mut Graph<usize, usize, Directed, usize>, weight: usize) -> (idx:
    usize)
    ensures
        graph_nodes(*final(g)) == graph_nodes(*old(g)).push(weight),
        graph_edges(*final(g)) == graph_edges(*old(g)),
        graph_adjacency(*final(g)) == graph_adjacency(*old(g)).push((Seq::empty(), Seq::empty())),
        idx == graph_nodes(*old(g)).len(),
{
    g.add_node(weight).index()
}

/// Calls `Graph::add_edge`, which panics where one of the nodes does not
/// exist. Trusted: the edge from `a` to `b` is appended with the next free
/// index, which is returned; it is put in front of the edges that leave `a`
/// and in front of those that arrive at `b`; and the nodes stay.
#[verifier::external_body]
pub(crate) fn graph_add_edge(
    g: &mut Graph<usize, usize, Directed, usize>,
    a: usize,
    b: usize,
    weight: usize,
) -> (idx: usize)
    requires
        a < graph_nodes(*old(g)).len(),
        b < graph_nodes(*old(g)).len(),
    ensures
        graph_edges(*final(g)) == graph_edges(*old(g)).push((a, b, weight)),
        graph_nodes(*final(g)) == graph_nodes(*old(g)),
        graph_adjacency(*final(g)) == lists_after_add(graph_adjacency(*old(g)), a, b, idx),
        idx == graph_edges(*old(g)).len(),
{
    g.add_edge(NodeIndex::new(a), NodeIndex::new(b), weight).index()
}

/// Calls `Graph::edges_directed`. Trusted: for a directed graph it walks the
/// list of the edges that leave `a` (outgoing) or arrive at `a` (incoming),
/// and yields each with its index, its true source and target and its weight.
/// No order is claimed beyond that of the list.
#[verifier::external_body]
pub(crate) fn graph_edges_directed(
    g: &Graph<usize, usize, Directed, usize>,
    a: usize,
    dir: Direction,
) -> (r: Vec<EdgeReference>)
    ensures
        r@ == graph_walk(*g, a, dir),
{
    let dir = match dir {
        Direction::Outgoing => petgraph::Direction::Outgoing,
        Direction::Incoming => petgraph::Direction::Incoming,
    };
    g.edges_directed(NodeIndex::new(a), dir).map(
        |e| EdgeReference {
            source: e.source().index(),
            target: e.target().index(),
            index: e.id().index(),
            weight: *e.weight(),
        },
    ).collect()
}

/// Calls `Graph::neighbors_directed`. Trusted: for a directed graph it walks
/// the same list as `Graph::edges_directed` and yields, for each edge, the
/// node at its other end.
#[verifier::external_body]
pub(crate) fn graph_neighbors_directed(
    g: &Graph<usize, usize, Directed, usize>,
    a: usize,
    dir: Direction,
) -> (r: Vec<usize>)
    ensures
        r@ == far_ends(graph_walk(*g, a, dir), dir),
{
    let dir = match dir {
        Direction::Outgoing => petgraph::Direction::Outgoing,
        Direction::Incoming => petgraph::Direction::Incoming,
    };
    g.neighbors_directed(NodeIndex::new(a), dir).map(|n| n.index()).collect()
}

/// Calls `Graph::edge_references`. Trusted: it yields all edges by index.
#[verifier::external_body]
pub(crate) fn graph_edge_references(g: &Graph<usize, usize, Directed, usize>) -> (r: Vec<
    EdgeReference,
>)
    ensures
        r@ == edge_list(*g),
{
    g.edge_references().map(
        |e| EdgeReference {
            source: e.source().index(),
            target: e.target().index(),
            index: e.id().index(),
            weight: *e.weight(),
        },
    ).collect()
}

/// An edge as some view of a graph reports it.
pub trait EdgeRef: Copy {
    /// Source, target, index and weight as reported.
    spec fn reported(&self) -> EdgeReference;

    fn source(&self) -> (r: usize)
        ensures
            r == self.reported().source,
    ;

    fn target(&self) -> (r: usize)
        ensures
            r == self.reported().target,
    ;

    fn weight(&self) -> (r: usize)
        ensures
            r == self.reported().weight,
    ;

    fn id(&self) -> (r: usize)
        ensures
            r == self.reported().index,
    ;
}

impl EdgeRef for EdgeReference {
    open spec fn reported(&self) -> EdgeReference {
        *self
    }

    fn source(&self) -> (r: usize) {
        self.source
    }

    fn target(&self) -> (r: usize) {
        self.target
    }

    fn weight(&self) -> (r: usize) {
        self.weight
    }

    fn id(&self) -> (r: usize) {
        self.index
    }
}

/// What each of the given edges reports, in order.
pub open spec fn reported_all<R: EdgeRef>(edges: Seq<R>) -> Seq<EdgeReference> {
    Seq::new(edges.len(), |i: int| edges[i].reported())
}

/// Source, target and index of an edge.
pub fn edge_triple<ER: EdgeRef>(edge_ref: ER) -> (r: (usize, usize, usize))
    ensures
        r == (
            edge_ref.reported().source,
            edge_ref.reported().target,
            edge_ref.reported().index,
        ),
{
    (edge_ref.source(), edge_ref.target(), edge_ref.id())
}

/// A view of a directed graph: the edges at a node in either direction, the
/// nodes next to a node, all edges, and all nodes.
pub trait DirectedGraph {
    type Edge: EdgeRef;

    /// All edges as the view reports them, by index.
    spec fn edge_model(&self) -> Seq<EdgeReference>;

    /// The number of nodes.
    spec fn node_bound(&self) -> nat;

    /// The edges at `a` in direction `dir` as the view reports them, in the
    /// order in which the view walks them.
    spec fn walk(&self, a: usize, dir: Direction) -> Seq<EdgeReference>;

    /// The edges that leave `a`.
    fn edges(&self, a: usize) -> (r: Vec<Self::Edge>)
        ensures
            reported_all(r@) == self.walk(a, Direction::Outgoing),
    ;

    /// The edges at `a` in direction `dir`.
    fn edges_directed(&self, a: usize, dir: Direction) -> (r: Vec<Self::Edge>)
        ensures
            reported_all(r@) == self.walk(a, dir),
    ;

    /// The nodes that the edges leaving `a` lead to.
    fn neighbors(&self, a: usize) -> (r: Vec<usize>)
        ensures
            r@ == far_ends(self.walk(a, Direction::Outgoing), Direction::Outgoing),
    ;

    /// The nodes at the other end of the edges at `a` in direction `dir`.
    fn neighbors_directed(&self, a: usize, dir: Direction) -> (r: Vec<usize>)
        ensures
            r@ == far_ends(self.walk(a, dir), dir),
    ;

    /// All edges by index.
    fn edge_references(&self) -> (r: Vec<Self::Edge>)
        ensures
            reported_all(r@) == self.edge_model(),
    ;

    /// All nodes by index.
    fn node_identifiers(&self) -> (r: Vec<usize>)
        ensures
            r@ == Seq::new(self.node_bound(), |i: int| i as usize),
    ;
}

impl<'a> DirectedGraph for &'a Graph<usize, usize, Directed, usize> {
    type Edge = EdgeReference;

    open spec fn edge_model(&self) -> Seq<EdgeReference> {
        edge_list(**self)
    }

    open spec fn node_bound(&self) -> nat {
        graph_nodes(**self).len()
    }

    open spec fn walk(&self, a: usize, dir: Direction) -> Seq<EdgeReference> {
        graph_walk(**self, a, dir)
    }

    fn edges(&self, a: usize) -> (r: Vec<EdgeReference>) {
        let r = graph_edges_directed(*self, a, Direction::Outgoing);
        proof {
            assert(reported_all(r@) =~= r@);
        }
        r
    }

    fn edges_directed(&self, a: usize, dir: Direction) -> (r: Vec<EdgeReference>) {
        let r = graph_edges_directed(*self, a, dir);
        proof {
            assert(reported_all(r@) =~= r@);
        }
        r
    }

    fn neighbors(&self, a: usize) -> (r: Vec<usize>) {
        graph_neighbors_directed(*self, a, Direction::Outgoing)
    }

    fn neighbors_directed(&self, a: usize, dir: Direction) -> (r: Vec<usize>) {
        graph_neighbors_directed(*self, a, dir)
    }

    fn edge_references(&self) -> (r: Vec<EdgeReference>) {
        let r = graph_edge_references(*self);
        proof {
            assert(reported_all(r@) =~= r@);
        }
        r
    }

    fn node_identifiers(&self) -> (r: Vec<usize>) {
        let count = graph_node_count(*self);
        let mut out: Vec<usize> = Vec::new();
        let mut i: usize = 0;
        while i < count
            invariant
                i <= count,
                out@ == Seq::new(i as nat, |k: int| k as usize),
            decreases count - i,
        {
            out.push(i);
            proof {
                assert(out@ =~= Seq::new((i + 1) as nat, |k: int| k as usize));
            }
            i += 1;
        }
        out
    }
}

/// Whether a graph walks the edges at each node from the most recently added
/// one on, as every graph does that was built by adding alone: each list
/// holds the indices of the edges at its node in descending order, and every
/// edge lies between two nodes.
pub open spec fn walks_descend(g: Graph<usize, usize, Directed, usize>) -> bool {
    &&& graph_adjacency(g).len() == graph_nodes(g).len()
    &&& graph_edges(g).len() <= usize::MAX
    &&& forall|a: usize, dir: Direction|
        #![trigger walk_ids(g, a, dir)]
        a < graph_nodes(g).len() ==> walk_ids(g, a, dir) == incident_ids(edge_list(g), a, dir)
    &&& forall|k: int|
        0 <= k < graph_edges(g).len() ==> (#[trigger] graph_edges(g)[k]).0 < graph_nodes(g).len()
            && graph_edges(g)[k].1 < graph_nodes(g).len()
}

/// Each edge found at a node is an edge of the list, stands at its own index,
/// and has its near end at the node.
pub proof fn lemma_incident_members(edges: Seq<EdgeReference>, a: usize, dir: Direction)
    requires
        forall|k: int| 0 <= k < edges.len() ==> (#[trigger] edges[k]).index == k,
    ensures
        forall|j: int|
            0 <= j < incident(edges, a, dir).len() ==> {
                let e = #[trigger] incident(edges, a, dir)[j];
                &&& 0 <= e.index < edges.len()
                &&& edges[e.index as int] == e
                &&& near_end(e, dir) == a
            },
    decreases edges.len(),
{
    if edges.len() > 0 {
        let rest = edges.drop_last();
        assert forall|k: int| 0 <= k < rest.len() implies (#[trigger] rest[k]).index == k by {
            assert(rest[k] == edges[k]);
        }
        lemma_incident_members(rest, a, dir);
        assert forall|j: int| 0 <= j < incident(edges, a, dir).len() implies {
            let e = #[trigger] incident(edges, a, dir)[j];
            &&& 0 <= e.index < edges.len()
            &&& edges[e.index as int] == e
            &&& near_end(e, dir) == a
        } by {
            let earlier = incident(rest, a, dir);
            if near_end(edges.last(), dir) == a {
                if j == 0 {
                    assert(incident(edges, a, dir)[0] == edges[edges.len() - 1]);
                } else {
                    let e = earlier[j - 1];
                    assert(incident(edges, a, dir)[j] == e);
                    assert(rest[e.index as int] == edges[e.index as int]);
                }
            } else {
                let e = earlier[j];
                assert(rest[e.index as int] == edges[e.index as int]);
            }
        }
    }
}

/// Where the walks of a graph descend, the walk at a node is the edges at the
/// node, the most recently added first.
pub proof fn lemma_walk_is_incident(
    g: Graph<usize, usize, Directed, usize>,
    a: usize,
    dir: Direction,
)
    requires
        walks_descend(g),
    ensures
        graph_walk(g, a, dir) == incident(edge_list(g), a, dir),
{
    let edges = edge_list(g);
    lemma_incident_members(edges, a, dir);
    let found = incident(edges, a, dir);
    if a < graph_nodes(g).len() {
        assert(walk_ids(g, a, dir) == incident_ids(edges, a, dir));
        assert(graph_walk(g, a, dir) =~= found);
    } else {
        if found.len() > 0 {
            let e = found[0];
            assert(near_end(e, dir) == a);
            assert(edges[e.index as int] == e);
            assert(graph_edges(g)[e.index as int].0 < graph_nodes(g).len());
        }
        assert(graph_walk(g, a, dir) =~= found);
    }
}

/// A new graph walks as it should.
pub proof fn lemma_new_descends(g: Graph<usize, usize, Directed, usize>)
    requires
        graph_nodes(g).len() == 0,
        graph_edges(g).len() == 0,
        graph_adjacency(g).len() == 0,
    ensures
        walks_descend(g),
{
}

/// Adding a node keeps the walks descending.
pub proof fn lemma_add_node_descends(
    before: Graph<usize, usize, Directed, usize>,
    after: Graph<usize, usize, Directed, usize>,
    weight: usize,
)
    requires
        walks_descend(before),
        graph_nodes(after) == graph_nodes(before).push(weight),
        graph_edges(after) == graph_edges(before),
        graph_adjacency(after) == graph_adjacency(before).push((Seq::empty(), Seq::empty())),
    ensures
        walks_descend(after),
{
    let edges = edge_list(after);
    assert(edge_list(after) =~= edge_list(before));
    assert forall|a: usize, dir: Direction|
        #![trigger walk_ids(after, a, dir)]
        a < graph_nodes(after).len() implies walk_ids(after, a, dir) == incident_ids(
        edges,
        a,
        dir,
    ) by {
        if a < graph_nodes(before).len() {
            assert(walk_ids(before, a, dir) == incident_ids(edge_list(before), a, dir));
            assert(walk_ids(after, a, dir) == walk_ids(before, a, dir));
        } else {
            lemma_incident_members(edges, a, dir);
            let found = incident(edges, a, dir);
            if found.len() > 0 {
                let e = found[0];
                assert(edges[e.index as int] == e);
                assert(graph_edges(before)[e.index as int].0 < graph_nodes(before).len());
            }
            assert(walk_ids(after, a, dir) =~= incident_ids(edges, a, dir));
        }
    }
}

/// Adding an edge keeps the walks descending.
pub proof fn lemma_add_edge_descends(
    before: Graph<usize, usize, Directed, usize>,
    after: Graph<usize, usize, Directed, usize>,
    a: usize,
    b: usize,
    weight: usize,
)
    requires
        walks_descend(before),
        a < graph_nodes(before).len(),
        b < graph_nodes(before).len(),
        graph_edges(before).len() < usize::MAX,
        graph_nodes(after) == graph_nodes(before),
        graph_edges(after) == graph_edges(before).push((a, b, weight)),
        graph_adjacency(after) == lists_after_add(
            graph_adjacency(before),
            a,
            b,
            graph_edges(before).len() as usize,
        ),
    ensures
        walks_descend(after),
{
    let old_edges = edge_list(before);
    let edges = edge_list(after);
    let k = graph_edges(before).len() as usize;
    let added = EdgeReference { source: a, target: b, index: k, weight };
    assert(edges =~= old_edges.push(added));
    assert(edges.drop_last() =~= old_edges);
    assert forall|x: usize, dir: Direction|
        #![trigger walk_ids(after, x, dir)]
        x < graph_nodes(after).len() implies walk_ids(after, x, dir) == incident_ids(
        edges,
        x,
        dir,
    ) by {
        assert(walk_ids(before, x, dir) == incident_ids(old_edges, x, dir));
        let earlier = incident(old_edges, x, dir);
        if near_end(added, dir) == x {
            assert(incident(edges, x, dir) =~= seq![added] + earlier);
            assert(incident_ids(edges, x, dir) =~= seq![k] + incident_ids(old_edges, x, dir));
        } else {
            assert(incident(edges, x, dir) =~= earlier);
        }
    }
    assert forall|i: int| 0 <= i < graph_edges(after).len() implies (#[trigger] graph_edges(
        after,
    )[i]).0 < graph_nodes(after).len() && graph_edges(after)[i].1 < graph_nodes(after).len() by {
        if i < graph_edges(before).len() {
            assert(graph_edges(after)[i] == graph_edges(before)[i]);
        }
    }
}

} // verus!
