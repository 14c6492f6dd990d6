//! The round trip of a self-consistent snapshot: a graph can be built from
//! it, and that graph passes verification.

use crate::errors::ErrorView;
use crate::graph::edge::{
    assemble_spec, fills, first_candidate, first_duplicate, lemma_first_candidate, slot_of,
    slot_spec, DependencyEdgeView, DependencyMetadataView,
};
use crate::graph::laws::lemma_links_at_members;
use crate::graph::model::{
    build_spec, check_dep, check_deps, check_slot, dep_of, deps_at, graph_links_spec,
    has_resolve_data, lemma_package_table, link_spec, links_at, links_spec, package_links_spec,
    package_metadata_spec, package_table, resolve_spec, resolve_table, verify_spec, verify_upto,
    EdgeRecord, GraphView, PackageDataView, PackageDepView,
};
use crate::metadata::{DependencyKind, DependencyView, MetadataView, NodeDepView, PackageView};
use crate::petgraph_support::Direction;
use crate::version::req_admits;
use semver::Version;
use vstd::prelude::*;

verus! {

/// Whether the requirements that account for a resolved entry agree with what
/// it resolved to: at least one of them is of a known kind, and the version
/// resolved to satisfies each one of a known kind.
pub open spec fn entry_consistent(
    from: PackageView,
    table: Map<Seq<char>, PackageDataView>,
    entry: NodeDepView,
) -> bool {
    let found = resolve_spec(from.id, from.dependencies, table, entry.name, entry.pkg);
    (found is Ok && table.contains_key(entry.pkg)) ==> {
        &&& exists|k: int|
            0 <= k < found->Ok_0.deps.len() && (#[trigger] found->Ok_0.deps[k]).kind
                != DependencyKind::Unknown
        &&& forall|k: int|
            0 <= k < found->Ok_0.deps.len() && (#[trigger] found->Ok_0.deps[k]).kind
                != DependencyKind::Unknown ==> req_admits(
                found->Ok_0.deps[k].req,
                table[entry.pkg].version,
            )
    }
}

/// The resolved entries of package `i`.
pub open spec fn resolved_entries(m: MetadataView, i: int) -> Seq<NodeDepView> {
    resolve_table(m.resolve->0)[m.packages[i].id].deps
}

/// Whether every resolved entry of package `i` is consistent.
pub open spec fn package_consistent(m: MetadataView, i: int) -> bool {
    forall|j: int|
        0 <= j < resolved_entries(m, i).len() ==> entry_consistent(
            m.packages[i],
            package_table(m.packages),
            #[trigger] resolved_entries(m, i)[j],
        )
}

/// Whether the snapshot is consistent: what was resolved for each package
/// agrees with what the package declares.
pub open spec fn consistent(m: MetadataView) -> bool {
    forall|i: int|
        0 <= i < m.packages.len() && has_resolve_data(m, i) ==> #[trigger] package_consistent(m, i)
}

/// Whether an edge carries a requirement, and `version` satisfies each
/// requirement it carries.
pub open spec fn edge_sound(edge: DependencyEdgeView, version: Version) -> bool {
    &&& edge.normal is Some || edge.build is Some || edge.dev is Some
    &&& edge.normal is Some ==> req_admits(edge.normal->0.req, version)
    &&& edge.build is Some ==> req_admits(edge.build->0.req, version)
    &&& edge.dev is Some ==> req_admits(edge.dev->0.req, version)
}

/// Whether every edge of `edges` lies between two of the `packages` and is
/// sound for the version it leads to.
pub open spec fn edges_sound(packages: Seq<PackageView>, edges: Seq<EdgeRecord>) -> bool {
    forall|k: int|
        0 <= k < edges.len() ==> {
            &&& 0 <= (#[trigger] edges[k]).from < packages.len()
            &&& 0 <= edges[k].to < packages.len()
            &&& edge_sound(edges[k].edge, packages[edges[k].to].version)
        }
}

/// The slot of a kind holds a requirement of that kind from among those
/// merged, and holds one where there is one.
proof fn lemma_slot_source(deps: Seq<DependencyView>, kind: DependencyKind)
    ensures
        match slot_spec(deps, kind) {
            Some(slot) => exists|k: int|
                0 <= k < deps.len() && (#[trigger] deps[k]).kind == kind && slot == slot_of(
                    deps[k],
                ),
            None => forall|k: int| 0 <= k < deps.len() ==> (#[trigger] deps[k]).kind != kind,
        },
{
    lemma_first_candidate(deps, kind, true);
    lemma_first_candidate(deps, kind, false);
    match first_candidate(deps, kind, true) {
        Some(d) => {
            let k = choose|k: int| 0 <= k < deps.len() && deps[k] == d;
            assert(deps[k].kind == kind && slot_of(d) == slot_of(deps[k]));
        },
        None => match first_candidate(deps, kind, false) {
            Some(d) => {
                let k = choose|k: int| 0 <= k < deps.len() && deps[k] == d;
                assert(deps[k].kind == kind && slot_of(d) == slot_of(deps[k]));
            },
            None => {
                assert forall|k: int| 0 <= k < deps.len() implies (#[trigger] deps[k]).kind
                    != kind by {
                    assert(!fills(deps[k], kind, false));
                }
            },
        },
    }
}

/// The edge of a consistent entry is sound.
proof fn lemma_link_sound(
    packages: Seq<PackageView>,
    from: PackageView,
    entry: NodeDepView,
)
    requires
        entry_consistent(from, package_table(packages), entry),
        link_spec(from, package_table(packages), entry) is Ok,
        package_table(packages).contains_key(from.id),
    ensures
        ({
            let r = link_spec(from, package_table(packages), entry)->Ok_0;
            &&& 0 <= r.from < packages.len()
            &&& 0 <= r.to < packages.len()
            &&& edge_sound(r.edge, packages[r.to].version)
        }),
{
    let table = package_table(packages);
    lemma_package_table(packages);
    let found = resolve_spec(from.id, from.dependencies, table, entry.name, entry.pkg)->Ok_0;
    let deps = found.deps;
    let version = table[entry.pkg].version;
    let edge = assemble_spec(from.id, found.name, entry.name, deps)->Ok_0;
    lemma_slot_source(deps, DependencyKind::Normal);
    lemma_slot_source(deps, DependencyKind::Build);
    lemma_slot_source(deps, DependencyKind::Development);
    let known = choose|k: int| 0 <= k < deps.len() && (#[trigger] deps[k]).kind != DependencyKind::Unknown;
    assert(deps[known].kind != DependencyKind::Unknown);
    if edge.normal is Some {
        let k = choose|k: int|
            0 <= k < deps.len() && (#[trigger] deps[k]).kind == DependencyKind::Normal
                && edge.normal->0 == slot_of(deps[k]);
        assert(req_admits(deps[k].req, version));
    }
    if edge.build is Some {
        let k = choose|k: int|
            0 <= k < deps.len() && (#[trigger] deps[k]).kind == DependencyKind::Build
                && edge.build->0 == slot_of(deps[k]);
        assert(req_admits(deps[k].req, version));
    }
    if edge.dev is Some {
        let k = choose|k: int|
            0 <= k < deps.len() && (#[trigger] deps[k]).kind == DependencyKind::Development
                && edge.dev->0 == slot_of(deps[k]);
        assert(req_admits(deps[k].req, version));
    }
}

/// The edges of consistent entries are sound.
proof fn lemma_links_sound(
    packages: Seq<PackageView>,
    from: PackageView,
    entries: Seq<NodeDepView>,
)
    requires
        forall|j: int|
            0 <= j < entries.len() ==> entry_consistent(
                from,
                package_table(packages),
                #[trigger] entries[j],
            ),
        links_spec(from, package_table(packages), entries) is Ok,
        package_table(packages).contains_key(from.id),
    ensures
        edges_sound(packages, links_spec(from, package_table(packages), entries)->Ok_0),
    decreases entries.len(),
{
    if entries.len() > 0 {
        let rest = entries.drop_last();
        assert forall|j: int| 0 <= j < rest.len() implies entry_consistent(
            from,
            package_table(packages),
            #[trigger] rest[j],
        ) by {
            assert(rest[j] == entries[j]);
        }
        lemma_links_sound(packages, from, rest);
        assert(entries.last() == entries[entries.len() - 1]);
        lemma_link_sound(packages, from, entries.last());
    }
}

/// The edges of a consistent snapshot are sound.
proof fn lemma_graph_links_sound(m: MetadataView, n: int)
    requires
        0 <= n <= m.packages.len(),
        consistent(m),
        graph_links_spec(m, n) is Ok,
    ensures
        edges_sound(m.packages, graph_links_spec(m, n)->Ok_0),
    decreases n,
{
    if n > 0 {
        lemma_graph_links_sound(m, n - 1);
        lemma_package_table(m.packages);
        assert(has_resolve_data(m, n - 1));
        assert(package_consistent(m, n - 1));
        let p = m.packages[n - 1];
        lemma_links_sound(m.packages, p, resolved_entries(m, n - 1));
    }
}

/// No complaint about any of the given edges, no complaint about them all.
proof fn lemma_check_deps_none(deps: Seq<PackageDepView>)
    requires
        forall|k: int| 0 <= k < deps.len() ==> check_dep(#[trigger] deps[k]) is None,
    ensures
        check_deps(deps) is None,
    decreases deps.len(),
{
    if deps.len() > 0 {
        let rest = deps.drop_last();
        assert forall|k: int| 0 <= k < rest.len() implies check_dep(#[trigger] rest[k]) is None by {
            assert(rest[k] == deps[k]);
        }
        lemma_check_deps_none(rest);
        assert(deps.last() == deps[deps.len() - 1]);
    }
}

/// A graph whose edges are all sound passes verification.
pub proof fn lemma_sound_graph_verifies(g: GraphView, n: int)
    requires
        0 <= n <= g.packages.len(),
        forall|k: int|
            0 <= k < g.edges.len() ==> {
                &&& 0 <= (#[trigger] g.edges[k]).from < g.packages.len()
                &&& 0 <= g.edges[k].to < g.packages.len()
                &&& edge_sound(g.edges[k].edge, g.packages[g.edges[k].to].version)
            },
    ensures
        verify_upto(g, n) is None,
    decreases n,
{
    if n > 0 {
        lemma_sound_graph_verifies(g, n - 1);
        let found = links_at(g.edges, n - 1, Direction::Outgoing);
        let deps = deps_at(g, n - 1);
        assert forall|k: int| 0 <= k < deps.len() implies check_dep(#[trigger] deps[k]) is None by {
            let r = found[k];
            assert(found.contains(r));
            lemma_links_at_members(g.edges, n - 1, Direction::Outgoing, r);
            let p = choose|p: int| 0 <= p < g.edges.len() && g.edges[p] == r;
            assert(edge_sound(g.edges[p].edge, g.packages[g.edges[p].to].version));
            assert(deps[k] == dep_of(g, r));
        }
        lemma_check_deps_none(deps);
    }
}

/// The round trip. A snapshot from which a graph can be built, and in which
/// what was resolved for each package agrees with what the package declares,
/// gives a graph that passes verification.
pub proof fn lemma_round_trip(m: MetadataView)
    requires
        build_spec(m) is Ok,
        consistent(m),
    ensures
        verify_spec(build_spec(m)->Ok_0) == Ok::<(), ErrorView>(()),
{
    let g = build_spec(m)->Ok_0;
    let total = m.packages.len() as int;
    lemma_graph_links_sound(m, total);
    assert forall|k: int| 0 <= k < g.edges.len() implies {
        &&& 0 <= (#[trigger] g.edges[k]).from < g.packages.len()
        &&& 0 <= g.edges[k].to < g.packages.len()
        &&& edge_sound(g.edges[k].edge, g.packages[g.edges[k].to].version)
    } by {
        let to = g.edges[k].to;
        assert(g.packages[to] == package_metadata_spec(m, to));
    }
    lemma_sound_graph_verifies(g, total);
}

/// Whether a resolved entry can be traced back: declared requirements account
/// for it, the snapshot holds the package it resolved to, and no two of the
/// requirements are unconditional and of one kind.
pub open spec fn entry_traceable(
    from: PackageView,
    table: Map<Seq<char>, PackageDataView>,
    entry: NodeDepView,
) -> bool {
    let found = resolve_spec(from.id, from.dependencies, table, entry.name, entry.pkg);
    &&& found is Ok
    &&& table.contains_key(entry.pkg)
    &&& first_duplicate(found->Ok_0.deps) is None
}

/// Whether every resolved entry of package `i` can be traced back.
pub open spec fn package_traceable(m: MetadataView, i: int) -> bool {
    forall|j: int|
        0 <= j < resolved_entries(m, i).len() ==> entry_traceable(
            m.packages[i],
            package_table(m.packages),
            #[trigger] resolved_entries(m, i)[j],
        )
}

/// Whether a graph can be built from the snapshot: it holds resolved data,
/// every package has resolved data of its own, and every resolved entry can
/// be traced back.
pub open spec fn buildable(m: MetadataView) -> bool {
    &&& m.resolve is Some
    &&& forall|i: int| 0 <= i < m.packages.len() ==> #[trigger] has_resolve_data(m, i)
    &&& forall|i: int| 0 <= i < m.packages.len() ==> #[trigger] package_traceable(m, i)
}

/// Entries that can be traced back all give an edge.
proof fn lemma_links_built(
    from: PackageView,
    table: Map<Seq<char>, PackageDataView>,
    entries: Seq<NodeDepView>,
)
    requires
        forall|j: int| 0 <= j < entries.len() ==> entry_traceable(from, table, #[trigger] entries[j]),
    ensures
        links_spec(from, table, entries) is Ok,
    decreases entries.len(),
{
    if entries.len() > 0 {
        let rest = entries.drop_last();
        assert forall|j: int| 0 <= j < rest.len() implies entry_traceable(
            from,
            table,
            #[trigger] rest[j],
        ) by {
            assert(rest[j] == entries[j]);
        }
        lemma_links_built(from, table, rest);
        assert(entries.last() == entries[entries.len() - 1]);
        assert(entry_traceable(from, table, entries.last()));
    }
}

/// Construction gets through every package of a buildable snapshot.
proof fn lemma_graph_links_built(m: MetadataView, n: int)
    requires
        buildable(m),
        0 <= n <= m.packages.len(),
    ensures
        graph_links_spec(m, n) is Ok,
    decreases n,
{
    if n > 0 {
        lemma_graph_links_built(m, n - 1);
        assert(has_resolve_data(m, n - 1));
        assert(package_traceable(m, n - 1));
        lemma_links_built(
            m.packages[n - 1],
            package_table(m.packages),
            resolved_entries(m, n - 1),
        );
    }
}

/// An edge is given only by an entry that can be traced back.
proof fn lemma_links_traceable(
    from: PackageView,
    table: Map<Seq<char>, PackageDataView>,
    entries: Seq<NodeDepView>,
)
    requires
        links_spec(from, table, entries) is Ok,
    ensures
        forall|j: int| 0 <= j < entries.len() ==> entry_traceable(from, table, #[trigger] entries[j]),
    decreases entries.len(),
{
    if entries.len() > 0 {
        let rest = entries.drop_last();
        lemma_links_traceable(from, table, rest);
        assert forall|j: int| 0 <= j < entries.len() implies entry_traceable(
            from,
            table,
            #[trigger] entries[j],
        ) by {
            if j < rest.len() {
                assert(rest[j] == entries[j]);
            } else {
                assert(entries[j] == entries.last());
                assert(link_spec(from, table, entries.last()) is Ok);
            }
        }
    }
}

/// Where construction gets through the first `n` packages, each of them has
/// resolved data of its own and entries that can be traced back.
proof fn lemma_graph_links_traceable(m: MetadataView, n: int)
    requires
        0 <= n <= m.packages.len(),
        graph_links_spec(m, n) is Ok,
    ensures
        forall|i: int| 0 <= i < n ==> #[trigger] has_resolve_data(m, i),
        forall|i: int| 0 <= i < n ==> #[trigger] package_traceable(m, i),
    decreases n,
{
    if n > 0 {
        lemma_graph_links_traceable(m, n - 1);
        assert(package_links_spec(m, n - 1) is Ok);
        assert(has_resolve_data(m, n - 1));
        lemma_links_traceable(
            m.packages[n - 1],
            package_table(m.packages),
            resolved_entries(m, n - 1),
        );
    }
}

/// A graph can be built from a snapshot exactly where the snapshot holds
/// resolved data, every package has resolved data of its own, every resolved
/// entry is accounted for by declared requirements and leads to a package of
/// the snapshot, and no entry has two unconditional requirements of one kind.
pub proof fn lemma_builds_exactly_when_buildable(m: MetadataView)
    ensures
        build_spec(m) is Ok <==> buildable(m),
{
    let total = m.packages.len() as int;
    if buildable(m) {
        lemma_graph_links_built(m, total);
    }
    if build_spec(m) is Ok {
        lemma_graph_links_traceable(m, total);
    }
}

/// The round trip in full. From a self-consistent snapshot, one that is
/// buildable and in which what was resolved for each package agrees with what
/// the package declares, a graph is built, and that graph passes
/// verification.
pub proof fn lemma_build_then_verify(m: MetadataView)
    requires
        buildable(m),
        consistent(m),
    ensures
        build_spec(m) is Ok,
        verify_spec(build_spec(m)->Ok_0) == Ok::<(), ErrorView>(()),
{
    lemma_builds_exactly_when_buildable(m);
    lemma_round_trip(m);
}

} // verus!
