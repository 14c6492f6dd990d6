//! Laws of graph construction and of the queries on a graph. Each one is
//! proved from the definitions that the contracts of the library refer to.

use crate::errors::ErrorView;
use crate::graph::edge::{
    assemble_spec, duplicate_at, fills, first_candidate, first_duplicate, slot_of, slot_spec,
    DependencyEdgeView, DependencyMetadataView,
};
use crate::graph::model::{
    bucket, build_spec, deps_spec, graph_links_spec, has_resolve_data, is_renamed,
    lemma_package_table, link_spec, links_at, links_spec, package_metadata_spec, package_table,
    record_near_end, resolve_spec, resolve_table, table_key, taken, EdgeRecord, GraphView,
    PackageDataView, Resolution,
};
use crate::graph::resolver::lemma_bucket_members;
use crate::metadata::{
    DependencyKind, DependencyView, MetadataView, NodeDepView, PackageView,
};
use crate::petgraph_support::Direction;
use crate::strings::dash_to_underscore;
use vstd::prelude::*;

verus! {

/// The slot of an edge for the given kind.
pub open spec fn slot_of_kind(edge: DependencyEdgeView, kind: DependencyKind) -> Option<
    DependencyMetadataView,
> {
    match kind {
        DependencyKind::Normal => edge.normal,
        DependencyKind::Build => edge.build,
        DependencyKind::Development => edge.dev,
        DependencyKind::Unknown => None,
    }
}

/// Two requirements of one kind for one dependency: where both are
/// unconditional, assembling the edge fails with the duplicate-dependency
/// error. Otherwise it succeeds, and the slot of that kind keeps the
/// unconditional requirement where there is one, and the first where both are
/// gated; the other slots stay empty.
pub proof fn lemma_merge_two_declarations(
    from: Seq<char>,
    name: Seq<char>,
    resolved_name: Seq<char>,
    d1: DependencyView,
    d2: DependencyView,
)
    requires
        d1.kind == d2.kind,
        d1.kind != DependencyKind::Unknown,
    ensures
        d1.target is None && d2.target is None ==> assemble_spec(
            from,
            name,
            resolved_name,
            seq![d1, d2],
        ) == Err::<DependencyEdgeView, ErrorView>(
            ErrorView::DuplicateDependency { from, name, kind: d1.kind },
        ),
        !(d1.target is None && d2.target is None) ==> {
            let r = assemble_spec(from, name, resolved_name, seq![d1, d2]);
            let kept = if d1.target is None {
                d1
            } else if d2.target is None {
                d2
            } else {
                d1
            };
            &&& r is Ok
            &&& r->Ok_0.dep_name == name
            &&& r->Ok_0.resolved_name == resolved_name
            &&& forall|kind: DependencyKind|
                #![trigger slot_of_kind(r->Ok_0, kind)]
                slot_of_kind(r->Ok_0, kind) == if kind == d1.kind {
                    Some(slot_of(kept))
                } else {
                    None
                }
        },
{
    let deps = seq![d1, d2];
    let one = seq![d1];
    assert(deps.drop_last() =~= one);
    assert(one.drop_last() =~= Seq::<DependencyView>::empty());
    assert(first_duplicate(one.drop_last()) is None);
    assert(!duplicate_at(one, 0));
    assert(first_duplicate(one) is None);
    if d1.target is None && d2.target is None {
        assert(fills(deps[0], deps[1].kind, true));
        assert(duplicate_at(deps, 1));
    } else {
        assert(!duplicate_at(deps, 1)) by {
            if duplicate_at(deps, 1) {
                let q = choose|q: int| 0 <= q < 1 && #[trigger] fills(deps[q], deps[1].kind, true);
                assert(q == 0);
            }
        }
        assert(deps.drop_first() =~= seq![d2]);
        assert(seq![d2].drop_first() =~= Seq::<DependencyView>::empty());
        assert forall|kind: DependencyKind, unconditional: bool|
            first_candidate(deps, kind, unconditional) == if fills(d1, kind, unconditional) {
                Some(d1)
            } else if fills(d2, kind, unconditional) {
                Some(d2)
            } else {
                None
            } by {
            assert(first_candidate(Seq::<DependencyView>::empty(), kind, unconditional) is None);
            assert(first_candidate(seq![d2], kind, unconditional) == if fills(
                d2,
                kind,
                unconditional,
            ) {
                Some(d2)
            } else {
                None
            });
        }
    }
}

/// A requirement that is declared and filed under a key is in the bucket of
/// that key.
pub proof fn lemma_bucket_holds(
    deps: Seq<DependencyView>,
    renamed: bool,
    key: Seq<char>,
    d: DependencyView,
)
    requires
        deps.contains(d),
        table_key(d, renamed) == Some(key),
    ensures
        bucket(deps, renamed, key).contains(d),
    decreases deps.len(),
{
    let p = choose|p: int| 0 <= p < deps.len() && deps[p] == d;
    let b = bucket(deps, renamed, key);
    if p == deps.len() - 1 {
        assert(b[b.len() - 1] == d);
    } else {
        let rest = deps.drop_last();
        assert(rest[p] == d);
        lemma_bucket_holds(rest, renamed, key, d);
        let q = choose|q: int|
            0 <= q < bucket(rest, renamed, key).len() && bucket(rest, renamed, key)[q] == d;
        assert(b[q] == d);
    }
}

/// Rename propagation. Let a package declare a dependency under a rename that
/// differs from the name of the crate, and let no other rename of the package
/// lead to the same resolved name. Then the resolved entry under that resolved
/// name is accounted for by renamed requirements, and the edge it gives shows
/// the rename as the name of the dependency and the rename with every `-`
/// replaced by `_` as its resolved name.
pub proof fn lemma_rename_propagation(
    from: PackageView,
    table: Map<Seq<char>, PackageDataView>,
    d: DependencyView,
    entry: NodeDepView,
)
    requires
        from.dependencies.contains(d),
        is_renamed(d),
        entry.name == dash_to_underscore(d.rename->0),
        forall|k: int|
            0 <= k < from.dependencies.len() && table_key(
                #[trigger] from.dependencies[k],
                true,
            ) == Some(entry.name) ==> from.dependencies[k].rename == d.rename,
    ensures
        resolve_spec(from.id, from.dependencies, table, entry.name, entry.pkg) is Ok,
        resolve_spec(from.id, from.dependencies, table, entry.name, entry.pkg)->Ok_0.name
            == d.rename->0,
        resolve_spec(from.id, from.dependencies, table, entry.name, entry.pkg)->Ok_0.deps.contains(
            d,
        ),
        link_spec(from, table, entry) is Ok ==> {
            &&& link_spec(from, table, entry)->Ok_0.edge.dep_name == d.rename->0
            &&& link_spec(from, table, entry)->Ok_0.edge.resolved_name == dash_to_underscore(
                d.rename->0,
            )
        },
{
    let deps = from.dependencies;
    let b = bucket(deps, true, entry.name);
    lemma_bucket_holds(deps, true, entry.name, d);
    lemma_bucket_members(deps, true, entry.name);
    assert(table_key(b[0], true) == Some(entry.name));
    let k = choose|k: int| 0 <= k < deps.len() && deps[k] == b[0];
    assert(deps[k].rename == d.rename);
}

/// An edge is found at a node exactly where it is an edge of the graph and
/// its near end is that node.
pub proof fn lemma_links_at_members(edges: Seq<EdgeRecord>, a: int, dir: Direction, r: EdgeRecord)
    ensures
        links_at(edges, a, dir).contains(r) <==> (edges.contains(r) && record_near_end(r, dir)
            == a),
    decreases edges.len(),
{
    if edges.len() > 0 {
        let rest = edges.drop_last();
        let last = edges.last();
        lemma_links_at_members(rest, a, dir, r);
        let found = links_at(edges, a, dir);
        let earlier = links_at(rest, a, dir);
        if found.contains(r) {
            let i = choose|i: int| 0 <= i < found.len() && found[i] == r;
            if record_near_end(last, dir) == a {
                if i == 0 {
                    assert(edges[edges.len() - 1] == r);
                } else {
                    assert(earlier[i - 1] == r);
                }
            }
            if rest.contains(r) {
                let p = choose|p: int| 0 <= p < rest.len() && rest[p] == r;
                assert(edges[p] == r);
            }
        }
        if edges.contains(r) && record_near_end(r, dir) == a {
            let p = choose|p: int| 0 <= p < edges.len() && edges[p] == r;
            if p == edges.len() - 1 {
                assert(found[0] == r);
            } else {
                assert(rest[p] == r);
                let i = choose|i: int| 0 <= i < earlier.len() && earlier[i] == r;
                if record_near_end(last, dir) == a {
                    assert(found[i + 1] == r);
                } else {
                    assert(found[i] == r);
                }
            }
        }
    }
}

/// The transpose law, on handles. Every edge found when walking outwards from
/// its source is found when walking inwards from its target, and every edge
/// found when walking inwards from a node is found when walking outwards from
/// its own source.
pub proof fn lemma_transpose(edges: Seq<EdgeRecord>, a: int, r: EdgeRecord)
    ensures
        links_at(edges, a, Direction::Outgoing).contains(r) ==> links_at(
            edges,
            r.to,
            Direction::Incoming,
        ).contains(r),
        links_at(edges, a, Direction::Incoming).contains(r) ==> links_at(
            edges,
            r.from,
            Direction::Outgoing,
        ).contains(r),
{
    lemma_links_at_members(edges, a, Direction::Outgoing, r);
    lemma_links_at_members(edges, a, Direction::Incoming, r);
    lemma_links_at_members(edges, r.to, Direction::Incoming, r);
    lemma_links_at_members(edges, r.from, Direction::Outgoing, r);
}

/// In a valid graph the handle of a package is found again from its
/// identifier.
pub proof fn lemma_handle_of(g: GraphView, h: int)
    requires
        g.valid(),
        0 <= h < g.packages.len(),
    ensures
        g.has_package(g.packages[h].id),
        g.handle_of(g.packages[h].id) == h,
{
    let id = g.packages[h].id;
    assert(g.packages[h].id == id);
    let found = g.handle_of(id);
    assert(g.packages[found].id == id);
}

/// The transpose law, on the queries. In a valid graph, every dependency of a
/// package `a` is among the reverse dependencies of the package it leads to,
/// and every reverse dependency of a package `a` is among the dependencies of
/// the package it comes from.
pub proof fn lemma_transpose_deps(g: GraphView, a: Seq<char>, k: int)
    requires
        g.valid(),
    ensures
        0 <= k < deps_spec(g, a, Direction::Outgoing).len() ==> deps_spec(
            g,
            deps_spec(g, a, Direction::Outgoing)[k].to.id,
            Direction::Incoming,
        ).contains(deps_spec(g, a, Direction::Outgoing)[k]),
        0 <= k < deps_spec(g, a, Direction::Incoming).len() ==> deps_spec(
            g,
            deps_spec(g, a, Direction::Incoming)[k].from.id,
            Direction::Outgoing,
        ).contains(deps_spec(g, a, Direction::Incoming)[k]),
{
    if g.has_package(a) {
        let h = g.handle_of(a);
        if 0 <= k < deps_spec(g, a, Direction::Outgoing).len() {
            let found = links_at(g.edges, h, Direction::Outgoing);
            let r = found[k];
            assert(found.contains(r));
            lemma_links_at_members(g.edges, h, Direction::Outgoing, r);
            lemma_transpose(g.edges, h, r);
            let p = choose|p: int| 0 <= p < g.edges.len() && g.edges[p] == r;
            lemma_handle_of(g, r.to);
            let back = links_at(g.edges, r.to, Direction::Incoming);
            let i = choose|i: int| 0 <= i < back.len() && back[i] == r;
            let other = deps_spec(g, g.packages[r.to].id, Direction::Incoming);
            assert(other[i] == deps_spec(g, a, Direction::Outgoing)[k]);
        }
        if 0 <= k < deps_spec(g, a, Direction::Incoming).len() {
            let found = links_at(g.edges, h, Direction::Incoming);
            let r = found[k];
            assert(found.contains(r));
            lemma_links_at_members(g.edges, h, Direction::Incoming, r);
            lemma_transpose(g.edges, h, r);
            let p = choose|p: int| 0 <= p < g.edges.len() && g.edges[p] == r;
            lemma_handle_of(g, r.from);
            let back = links_at(g.edges, r.from, Direction::Outgoing);
            let i = choose|i: int| 0 <= i < back.len() && back[i] == r;
            let other = deps_spec(g, g.packages[r.from].id, Direction::Outgoing);
            assert(other[i] == deps_spec(g, a, Direction::Incoming)[k]);
        }
    }
}

/// Whether every edge lies between two of `total` packages.
pub open spec fn edges_in_range(edges: Seq<EdgeRecord>, total: nat) -> bool {
    forall|k: int|
        0 <= k < edges.len() ==> 0 <= (#[trigger] edges[k]).from < total && 0 <= edges[k].to
            < total
}

/// The edges of the resolved entries of a package lie between packages.
proof fn lemma_links_in_range(
    packages: Seq<PackageView>,
    from: PackageView,
    entries: Seq<NodeDepView>,
)
    requires
        links_spec(from, package_table(packages), entries) is Ok,
        package_table(packages).contains_key(from.id),
    ensures
        edges_in_range(links_spec(from, package_table(packages), entries)->Ok_0, packages.len()),
    decreases entries.len(),
{
    if entries.len() > 0 {
        lemma_links_in_range(packages, from, entries.drop_last());
        lemma_package_table(packages);
    }
}

/// Where construction gets through the first `n` packages, each of them had
/// resolved data of its own, and every edge lies between packages.
proof fn lemma_graph_links_ok(m: MetadataView, n: int)
    requires
        0 <= n <= m.packages.len(),
        graph_links_spec(m, n) is Ok,
    ensures
        forall|i: int| 0 <= i < n ==> #[trigger] has_resolve_data(m, i),
        edges_in_range(graph_links_spec(m, n)->Ok_0, m.packages.len()),
    decreases n,
{
    if n > 0 {
        lemma_graph_links_ok(m, n - 1);
        lemma_package_table(m.packages);
        assert(has_resolve_data(m, n - 1));
        let p = m.packages[n - 1];
        lemma_links_in_range(m.packages, p, resolve_table(m.resolve->0)[p.id].deps);
    }
}

/// Every graph that construction gives is valid: the handle of a package is
/// its position, no identifier occurs twice, and every edge lies between two
/// packages.
pub proof fn lemma_build_valid(m: MetadataView)
    requires
        build_spec(m) is Ok,
    ensures
        build_spec(m)->Ok_0.valid(),
{
    let g = build_spec(m)->Ok_0;
    let total = m.packages.len() as int;
    lemma_graph_links_ok(m, total);
    lemma_package_table(m.packages);
    assert forall|i: int, j: int|
        0 <= i < g.packages.len() && 0 <= j < g.packages.len() && i != j implies (
    #[trigger] g.packages[i]).id != (#[trigger] g.packages[j]).id by {
        assert(has_resolve_data(m, i) && has_resolve_data(m, j));
        if m.packages[i].id == m.packages[j].id {
            if i < j {
                assert(taken(m.packages, j, m.packages[j].id));
            } else {
                assert(taken(m.packages, i, m.packages[i].id));
            }
        }
    }
    assert forall|i: int| 0 <= i < g.packages.len() implies (#[trigger] g.packages[i]).node_idx
        == i by {
        let id = m.packages[i].id;
        let at = package_table(m.packages)[id].node_idx;
        assert(g.packages[i] == package_metadata_spec(m, i));
        if at != i {
            assert(g.packages[at].id == g.packages[i].id);
        }
    }
}

} // verus!
