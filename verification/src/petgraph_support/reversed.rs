//! A reversing adapter for views of directed graphs. Under the adapter every
//! edge runs the other way: what left a node arrives at it, and what arrived
//! leaves. The adapter stores nothing of its own, and an adapter around an
//! adapter shows the graph as it was.

use crate::petgraph_support::{
    far_end, far_ends, incident, near_end, neighbors_of, reported_all, DirectedGraph, Direction,
    EdgeRef, EdgeReference,
};
use petgraph::graph::Graph;
use petgraph::Directed;
use vstd::prelude::*;

verus! {

/// The same edge, running the other way.
pub open spec fn flipped(e: EdgeReference) -> EdgeReference {
    EdgeReference { source: e.target, target: e.source, index: e.index, weight: e.weight }
}

/// The given edges, each running the other way.
pub open spec fn flip_all(edges: Seq<EdgeReference>) -> Seq<EdgeReference> {
    Seq::new(edges.len(), |i: int| flipped(edges[i]))
}

/// `ReversedDirected` is a reversing adapter for directed graphs.
#[derive(Clone, Copy, Debug)]
pub struct ReversedDirected<G>(pub G);

impl<G> ReversedDirected<G> {
    pub fn new(graph: G) -> (r: Self)
        ensures
            r.0 == graph,
    {
        ReversedDirected(graph)
    }
}

/// Provides a way to flip source and target indexes for reversed graphs.
///
/// Some operations that are generic over forward and reverse graphs may want
/// the original direction. This trait provides that.
pub trait ReverseFlip {
    /// Node index type.
    type NodeId;

    /// Whether this graph is reversed.
    spec fn reversed() -> bool;

    /// Whether this graph is reversed.
    fn is_reversed() -> (r: bool)
        ensures
            r == Self::reversed(),
    ;

    /// Flip the source and target indexes if this is a reversed graph. Leave
    /// them the same if it isn't.
    fn reverse_flip(source: Self::NodeId, target: Self::NodeId) -> (r: (Self::NodeId, Self::NodeId))
        ensures
            r == if Self::reversed() {
                (target, source)
            } else {
                (source, target)
            },
    ;
}

impl<'a> ReverseFlip for &'a Graph<usize, usize, Directed, usize> {
    type NodeId = usize;

    open spec fn reversed() -> bool {
        false
    }

    fn is_reversed() -> (r: bool) {
        false
    }

    fn reverse_flip(source: usize, target: usize) -> (r: (usize, usize)) {
        // A graph itself is in the forward direction.
        (source, target)
    }
}

impl<G: ReverseFlip> ReverseFlip for ReversedDirected<G> {
    type NodeId = G::NodeId;

    open spec fn reversed() -> bool {
        !G::reversed()
    }

    fn is_reversed() -> (r: bool) {
        !G::is_reversed()
    }

    fn reverse_flip(source: G::NodeId, target: G::NodeId) -> (r: (G::NodeId, G::NodeId)) {
        // This allows nested reversed graphs to do the right thing.
        let (target, source) = G::reverse_flip(source, target);
        (source, target)
    }
}

/// A reversed edge reference.
#[derive(Clone, Copy, Debug)]
pub struct ReversedEdgeReference<R>(pub R);

impl<R: EdgeRef> EdgeRef for ReversedEdgeReference<R> {
    open spec fn reported(&self) -> EdgeReference {
        flipped(self.0.reported())
    }

    fn source(&self) -> (r: usize) {
        self.0.target()
    }

    fn target(&self) -> (r: usize) {
        self.0.source()
    }

    fn weight(&self) -> (r: usize) {
        self.0.weight()
    }

    fn id(&self) -> (r: usize) {
        self.0.id()
    }
}

/// Walking the flipped edges in one direction finds what walking the edges
/// themselves in the other direction finds.
pub proof fn lemma_incident_flipped(edges: Seq<EdgeReference>, a: usize, dir: Direction)
    ensures
        incident(flip_all(edges), a, dir) == flip_all(incident(edges, a, dir.spec_opposite())),
        neighbors_of(flip_all(edges), a, dir) == neighbors_of(edges, a, dir.spec_opposite()),
    decreases edges.len(),
{
    let other = dir.spec_opposite();
    if edges.len() == 0 {
        assert(incident(flip_all(edges), a, dir) =~= flip_all(incident(edges, a, other)));
    } else {
        let rest = edges.drop_last();
        lemma_incident_flipped(rest, a, dir);
        assert(flip_all(edges).drop_last() =~= flip_all(rest));
        assert(flip_all(edges).last() == flipped(edges.last()));
        assert(near_end(flipped(edges.last()), dir) == near_end(edges.last(), other));
        assert(incident(flip_all(edges), a, dir) =~= flip_all(incident(edges, a, other)));
    }
    lemma_far_ends_flipped(incident(edges, a, other), dir);
}

/// The far ends of flipped edges in one direction are the far ends of the
/// edges themselves in the other.
pub proof fn lemma_far_ends_flipped(edges: Seq<EdgeReference>, dir: Direction)
    ensures
        far_ends(flip_all(edges), dir) == far_ends(edges, dir.spec_opposite()),
{
    assert forall|i: int| 0 <= i < edges.len() implies far_end(flipped(edges[i]), dir) == far_end(
        edges[i],
        dir.spec_opposite(),
    ) by {}
    assert(far_ends(flip_all(edges), dir) =~= far_ends(edges, dir.spec_opposite()));
}

/// A cursor over edges that hands each one out running the other way.
struct Flipping<R> {
    iter: Vec<R>,
    next: usize,
}

impl<R> Flipping<R> {
    #[verifier::type_invariant]
    spec fn inv(self) -> bool {
        self.next <= self.iter.len()
    }
}

impl<R: EdgeRef> Flipping<R> {
    closed spec fn remaining(&self) -> Seq<EdgeReference> {
        flip_all(reported_all(self.iter@.skip(self.next as int)))
    }

    fn new(iter: Vec<R>) -> (r: Self)
        ensures
            r.remaining() == flip_all(reported_all(iter@)),
    {
        proof {
            assert(iter@.skip(0) =~= iter@);
        }
        Flipping { iter, next: 0 }
    }

    fn next(&mut self) -> (r: Option<ReversedEdgeReference<R>>)
        ensures
            match r {
                Some(e) => old(self).remaining().len() > 0 && e.reported() == old(
                    self,
                ).remaining()[0] && final(self).remaining() == old(self).remaining().drop_first(),
                None => old(self).remaining().len() == 0 && final(self).remaining() == old(
                    self,
                ).remaining(),
            },
    {
        proof {
            use_type_invariant(&*self);
        }
        if self.next < self.iter.len() {
            let e = self.iter[self.next];
            proof {
                assert(self.iter@.skip(self.next as int)[0] == e);
                assert(self.iter@.skip(self.next as int + 1) =~= self.iter@.skip(
                    self.next as int,
                ).drop_first());
                assert(flip_all(reported_all(self.iter@.skip(self.next as int + 1))) =~= flip_all(
                    reported_all(self.iter@.skip(self.next as int)),
                ).drop_first());
            }
            self.next = self.next + 1;
            Some(ReversedEdgeReference(e))
        } else {
            None
        }
    }

    fn collect(self) -> (r: Vec<ReversedEdgeReference<R>>)
        ensures
            reported_all(r@) == self.remaining(),
    {
        let mut it = self;
        let ghost all = it.remaining();
        let mut out: Vec<ReversedEdgeReference<R>> = Vec::new();
        let mut done = false;
        proof {
            assert(reported_all(out@) + it.remaining() =~= all);
        }
        while !done
            invariant
                reported_all(out@) + it.remaining() == all,
                done ==> it.remaining().len() == 0,
            decreases
                    it.remaining().len() + (if done {
                        0int
                    } else {
                        1int
                    }),
        {
            let ghost before = it.remaining();
            let ghost collected = reported_all(out@);
            match it.next() {
                Some(e) => {
                    out.push(e);
                    proof {
                        assert(reported_all(out@) =~= collected.push(before[0]));
                        assert(collected.push(before[0]) + before.drop_first() =~= collected
                            + before);
                    }
                },
                None => {
                    done = true;
                },
            }
        }
        proof {
            assert(reported_all(out@) + it.remaining() =~= reported_all(out@));
        }
        out
    }
}

/// A reversed edges iterator: it hands out the edges at a node, in their
/// order, each running the other way.
pub struct ReversedEdges<R> {
    iter: Flipping<R>,
}

impl<R: EdgeRef> ReversedEdges<R> {
    /// The edges still to come.
    pub closed spec fn remaining(&self) -> Seq<EdgeReference> {
        self.iter.remaining()
    }

    pub fn new(iter: Vec<R>) -> (r: Self)
        ensures
            r.remaining() == flip_all(reported_all(iter@)),
    {
        ReversedEdges { iter: Flipping::new(iter) }
    }

    /// The next edge, if one is left.
    pub fn next(&mut self) -> (r: Option<ReversedEdgeReference<R>>)
        ensures
            match r {
                Some(e) => old(self).remaining().len() > 0 && e.reported() == old(
                    self,
                ).remaining()[0] && final(self).remaining() == old(self).remaining().drop_first(),
                None => old(self).remaining().len() == 0 && final(self).remaining() == old(
                    self,
                ).remaining(),
            },
    {
        self.iter.next()
    }

    /// All edges still to come, in order.
    pub fn collect(self) -> (r: Vec<ReversedEdgeReference<R>>)
        ensures
            reported_all(r@) == self.remaining(),
    {
        self.iter.collect()
    }
}

/// A reversed edge references iterator: it hands out all edges of a graph,
/// each running the other way.
pub struct ReversedEdgeReferences<R> {
    iter: Flipping<R>,
}

impl<R: EdgeRef> ReversedEdgeReferences<R> {
    /// The edges still to come.
    pub closed spec fn remaining(&self) -> Seq<EdgeReference> {
        self.iter.remaining()
    }

    pub fn new(iter: Vec<R>) -> (r: Self)
        ensures
            r.remaining() == flip_all(reported_all(iter@)),
    {
        ReversedEdgeReferences { iter: Flipping::new(iter) }
    }

    /// The next edge, if one is left.
    pub fn next(&mut self) -> (r: Option<ReversedEdgeReference<R>>)
        ensures
            match r {
                Some(e) => old(self).remaining().len() > 0 && e.reported() == old(
                    self,
                ).remaining()[0] && final(self).remaining() == old(self).remaining().drop_first(),
                None => old(self).remaining().len() == 0 && final(self).remaining() == old(
                    self,
                ).remaining(),
            },
    {
        self.iter.next()
    }

    /// All edges still to come, in order.
    pub fn collect(self) -> (r: Vec<ReversedEdgeReference<R>>)
        ensures
            reported_all(r@) == self.remaining(),
    {
        self.iter.collect()
    }
}

impl<G: DirectedGraph> DirectedGraph for ReversedDirected<G> {
    type Edge = ReversedEdgeReference<G::Edge>;

    open spec fn edge_model(&self) -> Seq<EdgeReference> {
        flip_all(self.0.edge_model())
    }

    open spec fn node_bound(&self) -> nat {
        self.0.node_bound()
    }

    open spec fn walk(&self, a: usize, dir: Direction) -> Seq<EdgeReference> {
        flip_all(self.0.walk(a, dir.spec_opposite()))
    }

    fn edges(&self, a: usize) -> (r: Vec<ReversedEdgeReference<G::Edge>>) {
        ReversedEdges::new(self.0.edges_directed(a, Direction::Incoming)).collect()
    }

    fn edges_directed(&self, a: usize, dir: Direction) -> (r: Vec<ReversedEdgeReference<G::Edge>>) {
        ReversedEdges::new(self.0.edges_directed(a, dir.opposite())).collect()
    }

    fn neighbors(&self, a: usize) -> (r: Vec<usize>) {
        proof {
            lemma_far_ends_flipped(
                self.0.walk(a, Direction::Incoming),
                Direction::Outgoing,
            );
        }
        self.0.neighbors_directed(a, Direction::Incoming)
    }

    fn neighbors_directed(&self, a: usize, dir: Direction) -> (r: Vec<usize>) {
        proof {
            lemma_far_ends_flipped(self.0.walk(a, dir.spec_opposite()), dir);
        }
        self.0.neighbors_directed(a, dir.opposite())
    }

    fn edge_references(&self) -> (r: Vec<ReversedEdgeReference<G::Edge>>) {
        ReversedEdgeReferences::new(self.0.edge_references()).collect()
    }

    fn node_identifiers(&self) -> (r: Vec<usize>) {
        self.0.node_identifiers()
    }
}

/// Reversing a view twice shows every edge as the view itself shows it: all
/// edges, the edges walked at every node in every direction, and the nodes
/// next to it. One reversal shows every edge running the other way; the
/// edges walked at a node in one direction are those the view walks in the
/// other, and the nodes next to it are the same.
pub proof fn lemma_double_reversal<G: DirectedGraph>(view: G, a: usize, dir: Direction)
    ensures
        ReversedDirected(ReversedDirected(view)).edge_model() == view.edge_model(),
        ReversedDirected(ReversedDirected(view)).walk(a, dir) == view.walk(a, dir),
        far_ends(ReversedDirected(ReversedDirected(view)).walk(a, dir), dir) == far_ends(
            view.walk(a, dir),
            dir,
        ),
        ReversedDirected(ReversedDirected(view)).node_bound() == view.node_bound(),
        ReversedDirected(view).edge_model() == flip_all(view.edge_model()),
        ReversedDirected(view).walk(a, dir) == flip_all(view.walk(a, dir.spec_opposite())),
        far_ends(ReversedDirected(view).walk(a, dir), dir) == far_ends(
            view.walk(a, dir.spec_opposite()),
            dir.spec_opposite(),
        ),
{
    assert(flip_all(flip_all(view.edge_model())) =~= view.edge_model());
    assert(dir.spec_opposite().spec_opposite() == dir);
    assert(flip_all(flip_all(view.walk(a, dir))) =~= view.walk(a, dir));
    lemma_far_ends_flipped(view.walk(a, dir.spec_opposite()), dir);
}

/// Where a view walks, at a node and in both directions, the edges at the
/// node from the most recently added on, its reversal does so too.
pub proof fn lemma_reversal_keeps_order<G: DirectedGraph>(view: G, a: usize)
    requires
        forall|dir: Direction| #[trigger] view.walk(a, dir) == incident(view.edge_model(), a, dir),
    ensures
        forall|dir: Direction| #[trigger]
            ReversedDirected(view).walk(a, dir) == incident(
                ReversedDirected(view).edge_model(),
                a,
                dir,
            ),
{
    assert forall|dir: Direction| #[trigger]
        ReversedDirected(view).walk(a, dir) == incident(
            ReversedDirected(view).edge_model(),
            a,
            dir,
        ) by {
        lemma_incident_flipped(view.edge_model(), a, dir);
        assert(view.walk(a, dir.spec_opposite()) == incident(
            view.edge_model(),
            a,
            dir.spec_opposite(),
        ));
    }
}

/// Each reversal negates the answer to whether a view is reversed, so that
/// two reversals restore it, and with it the pair that `reverse_flip` hands
/// back.
pub proof fn lemma_reversed_parity<G: ReverseFlip>()
    ensures
        ReversedDirected::<G>::reversed() == !G::reversed(),
        ReversedDirected::<ReversedDirected<G>>::reversed() == G::reversed(),
{
}

/// A graph itself is not reversed, one reversal of it is, and two are not.
pub proof fn lemma_graph_reversal_parity()
    ensures
        !<&Graph<usize, usize, Directed, usize>>::reversed(),
        ReversedDirected::<&Graph<usize, usize, Directed, usize>>::reversed(),
        !ReversedDirected::<ReversedDirected<&Graph<usize, usize, Directed, usize>>>::reversed(),
{
}

} // verus!
