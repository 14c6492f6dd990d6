use cargo_guppy::petgraph_support::reversed::{
    ReverseFlip, ReversedDirected, ReversedEdgeReferences, ReversedEdges,
};
use cargo_guppy::petgraph_support::{
    edge_triple, DirectedGraph, Direction, EdgeRef, EdgeReference,
};
use petgraph::graph::Graph;
use petgraph::visit::EdgeRef as PetgraphEdgeRef;
use petgraph::Directed;

type Storage = Graph<usize, usize, Directed, usize>;

/// 0 -> 1, 0 -> 2, 1 -> 2, 2 -> 2
fn sample() -> Storage {
    let mut g: Storage = Graph::default();
    let n0 = g.add_node(0);
    let n1 = g.add_node(1);
    let n2 = g.add_node(2);
    g.add_edge(n0, n1, 10);
    g.add_edge(n0, n2, 11);
    g.add_edge(n1, n2, 12);
    g.add_edge(n2, n2, 13);
    g
}

fn triples<E: EdgeRef>(edges: &[E]) -> Vec<(usize, usize, usize)> {
    edges.iter().map(|e| edge_triple(*e)).collect()
}

#[test]
fn direction_has_an_opposite() {
    assert_eq!(Direction::Outgoing.opposite(), Direction::Incoming);
    assert_eq!(Direction::Incoming.opposite(), Direction::Outgoing);
}

#[test]
fn graph_reports_its_edges_most_recent_first() {
    let g = sample();
    let view = &g;
    let out = DirectedGraph::edges_directed(&view, 0, Direction::Outgoing);
    assert_eq!(triples(&out), vec![(0, 2, 1), (0, 1, 0)]);
    let inc = DirectedGraph::edges_directed(&view, 2, Direction::Incoming);
    assert_eq!(triples(&inc), vec![(2, 2, 3), (1, 2, 2), (0, 2, 1)]);
    assert_eq!(DirectedGraph::edges(&view, 1).len(), 1);
    assert_eq!(DirectedGraph::edges(&view, 1)[0].weight(), 12);
    assert!(DirectedGraph::edges(&view, 7).is_empty());
}

#[test]
fn graph_reports_neighbors_and_nodes() {
    let g = sample();
    let view = &g;
    assert_eq!(DirectedGraph::neighbors(&view, 0), vec![2, 1]);
    assert_eq!(DirectedGraph::neighbors_directed(&view, 2, Direction::Incoming), vec![2, 1, 0]);
    assert_eq!(DirectedGraph::neighbors_directed(&view, 2, Direction::Outgoing), vec![2]);
    assert_eq!(DirectedGraph::node_identifiers(&view), vec![0, 1, 2]);
    let all = DirectedGraph::edge_references(&view);
    assert_eq!(triples(&all), vec![(0, 1, 0), (0, 2, 1), (1, 2, 2), (2, 2, 3)]);
}

#[test]
fn reversed_view_swaps_the_ends_of_every_edge() {
    let g = sample();
    let reversed = ReversedDirected::new(&g);
    let all = reversed.edge_references();
    assert_eq!(triples(&all), vec![(1, 0, 0), (2, 0, 1), (2, 1, 2), (2, 2, 3)]);
    assert_eq!(all[0].weight(), 10);
    assert_eq!(all[0].source(), 1);
    assert_eq!(all[0].target(), 0);
    assert_eq!(all[0].id(), 0);
}

#[test]
fn reversed_view_walks_the_other_way() {
    let g = sample();
    let view = &g;
    let reversed = ReversedDirected::new(&g);
    // What leaves 2 under the reversed view is what arrives at 2 in the graph.
    assert_eq!(triples(&reversed.edges(2)), vec![(2, 2, 3), (2, 1, 2), (2, 0, 1)]);
    assert_eq!(
        triples(&reversed.edges_directed(0, Direction::Incoming)),
        vec![(2, 0, 1), (1, 0, 0)]
    );
    assert!(reversed.edges(0).is_empty());
    for node in 0..3 {
        for dir in [Direction::Outgoing, Direction::Incoming] {
            assert_eq!(
                reversed.neighbors_directed(node, dir),
                DirectedGraph::neighbors_directed(&view, node, dir.opposite())
            );
            assert_eq!(
                reversed.edges_directed(node, dir).len(),
                DirectedGraph::edges_directed(&view, node, dir.opposite()).len()
            );
        }
        assert_eq!(
            reversed.neighbors(node),
            DirectedGraph::neighbors_directed(&view, node, Direction::Incoming)
        );
    }
    assert_eq!(reversed.node_identifiers(), vec![0, 1, 2]);
}

#[test]
fn reversing_twice_shows_the_graph_itself() {
    let g = sample();
    let view = &g;
    let twice = ReversedDirected::new(ReversedDirected::new(&g));
    assert_eq!(
        triples(&twice.edge_references()),
        triples(&DirectedGraph::edge_references(&view))
    );
    for node in 0..3 {
        for dir in [Direction::Outgoing, Direction::Incoming] {
            assert_eq!(
                triples(&twice.edges_directed(node, dir)),
                triples(&DirectedGraph::edges_directed(&view, node, dir))
            );
            assert_eq!(
                twice.neighbors_directed(node, dir),
                DirectedGraph::neighbors_directed(&view, node, dir)
            );
        }
    }
}

#[test]
fn is_reversed_alternates_with_each_wrap() {
    assert!(!<&Storage as ReverseFlip>::is_reversed());
    assert!(<ReversedDirected<&Storage> as ReverseFlip>::is_reversed());
    assert!(!<ReversedDirected<ReversedDirected<&Storage>> as ReverseFlip>::is_reversed());
    assert!(
        <ReversedDirected<ReversedDirected<ReversedDirected<&Storage>>> as ReverseFlip>::is_reversed()
    );
}

#[test]
fn reverse_flip_recovers_the_original_order() {
    assert_eq!(<&Storage as ReverseFlip>::reverse_flip(1, 2), (1, 2));
    assert_eq!(<ReversedDirected<&Storage> as ReverseFlip>::reverse_flip(1, 2), (2, 1));
    assert_eq!(
        <ReversedDirected<ReversedDirected<&Storage>> as ReverseFlip>::reverse_flip(1, 2),
        (1, 2)
    );
    let g = sample();
    let reversed = ReversedDirected::new(&g);
    for e in reversed.edge_references() {
        let (source, target) =
            <ReversedDirected<&Storage> as ReverseFlip>::reverse_flip(e.source(), e.target());
        let original = g.edge_endpoints(petgraph::graph::EdgeIndex::new(e.id())).unwrap();
        assert_eq!((source, target), (original.0.index(), original.1.index()));
    }
}

#[test]
fn reversed_edges_hands_out_each_edge_once() {
    let plain = vec![
        EdgeReference { source: 1, target: 2, index: 0, weight: 7 },
        EdgeReference { source: 3, target: 4, index: 1, weight: 8 },
    ];
    let mut edges = ReversedEdges::new(plain.clone());
    let first = edges.next().unwrap();
    assert_eq!(edge_triple(first), (2, 1, 0));
    assert_eq!(first.weight(), 7);
    let second = edges.next().unwrap();
    assert_eq!(edge_triple(second), (4, 3, 1));
    assert!(edges.next().is_none());
    assert!(edges.next().is_none());

    let mut all = ReversedEdgeReferences::new(plain.clone());
    assert_eq!(edge_triple(all.next().unwrap()), (2, 1, 0));
    assert_eq!(triples(&all.collect()), vec![(4, 3, 1)]);
    assert_eq!(triples(&ReversedEdges::new(plain).collect()), vec![(2, 1, 0), (4, 3, 1)]);
}

fn walked(g: &Storage, node: usize, dir: petgraph::Direction) -> Vec<(usize, usize, usize)> {
    g.edges_directed(petgraph::graph::NodeIndex::new(node), dir)
        .map(|e| {
            (
                PetgraphEdgeRef::source(&e).index(),
                PetgraphEdgeRef::target(&e).index(),
                PetgraphEdgeRef::id(&e).index(),
            )
        })
        .collect()
}

#[test]
fn view_follows_the_walk_of_a_graph_that_lost_an_edge() {
    let mut g: Storage = Graph::default();
    let n: Vec<_> = (0..4).map(|i| g.add_node(i)).collect();
    let first = g.add_edge(n[0], n[1], 10);
    g.add_edge(n[0], n[2], 11);
    g.add_edge(n[0], n[3], 12);
    g.remove_edge(first);
    let view = &g;
    let out = DirectedGraph::edges_directed(&view, 0, Direction::Outgoing);
    assert_eq!(triples(&out), walked(&g, 0, petgraph::Direction::Outgoing));
    assert_eq!(triples(&out), vec![(0, 3, 0), (0, 2, 1)]);
    assert_eq!(DirectedGraph::neighbors(&view, 0), vec![3, 2]);
    for node in 0..4 {
        assert_eq!(
            triples(&DirectedGraph::edges_directed(&view, node, Direction::Incoming)),
            walked(&g, node, petgraph::Direction::Incoming)
        );
    }
    let reversed = ReversedDirected::new(&g);
    assert_eq!(triples(&reversed.edges_directed(0, Direction::Incoming)), vec![(3, 0, 0), (2, 0, 1)]);
    assert_eq!(reversed.neighbors_directed(0, Direction::Incoming), vec![3, 2]);
    assert_eq!(triples(&reversed.edges(3)), vec![(3, 0, 0)]);
}
