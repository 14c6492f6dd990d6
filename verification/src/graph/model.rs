//! The mathematical model of graph construction: what graph, or what error, a
//! snapshot gives. The executable builder is proved against these definitions.

use crate::errors::ErrorView;
use crate::graph::edge::{assemble_spec, DependencyEdgeView, DependencyMetadataView};
use crate::metadata::{
    DependencyKind, DependencyView, MetadataView, NodeDepView, NodeView, PackageView,
};
use crate::petgraph_support::Direction;
use crate::strings::dash_to_underscore;
use crate::version::req_admits;
use semver::Version;
use vstd::prelude::*;

verus! {

/// What the builder remembers of a package: its handle, its name and its
/// version.
pub struct PackageDataView {
    pub node_idx: int,
    pub name: Seq<char>,
    pub version: Version,
}

/// The package index: for each identifier, the data of the last package that
/// carries it. The handle of a package is its position in the snapshot.
pub open spec fn package_table(packages: Seq<PackageView>) -> Map<Seq<char>, PackageDataView>
    decreases packages.len(),
{
    if packages.len() == 0 {
        Map::empty()
    } else {
        package_table(packages.drop_last()).insert(
            packages.last().id,
            PackageDataView {
                node_idx: packages.len() - 1,
                name: packages.last().name,
                version: packages.last().version,
            },
        )
    }
}

/// The resolved data by package identifier; of two nodes with one identifier
/// the later one counts.
pub open spec fn resolve_table(nodes: Seq<NodeView>) -> Map<Seq<char>, NodeView>
    decreases nodes.len(),
{
    if nodes.len() == 0 {
        Map::empty()
    } else {
        resolve_table(nodes.drop_last()).insert(nodes.last().id, nodes.last())
    }
}

/// Whether the manifest uses the dependency under another name than its own.
pub open spec fn is_renamed(d: DependencyView) -> bool {
    d.rename is Some && d.rename->0 != d.name
}

/// The key under which a declared requirement is filed: in the table of
/// renamed requirements the rename with `-` replaced by `_`, in the table of
/// the others the name of the crate. `None` where the requirement belongs to
/// the other table.
pub open spec fn table_key(d: DependencyView, renamed: bool) -> Option<Seq<char>> {
    if is_renamed(d) {
        if renamed {
            Some(dash_to_underscore(d.rename->0))
        } else {
            None
        }
    } else {
        if renamed {
            None
        } else {
            Some(d.name)
        }
    }
}

/// The name an edge shows for a requirement filed in the given table.
pub open spec fn display_name(d: DependencyView, renamed: bool) -> Seq<char> {
    if renamed {
        d.rename->0
    } else {
        d.name
    }
}

/// The declared requirements filed under `key`, in the order of the manifest.
pub open spec fn bucket(deps: Seq<DependencyView>, renamed: bool, key: Seq<char>) -> Seq<
    DependencyView,
>
    decreases deps.len(),
{
    if deps.len() == 0 {
        Seq::empty()
    } else {
        let rest = bucket(deps.drop_last(), renamed, key);
        if table_key(deps.last(), renamed) == Some(key) {
            rest.push(deps.last())
        } else {
            rest
        }
    }
}

/// The declared requirements that account for one resolved dependency, and the
/// name the edge shows.
pub struct Resolution {
    pub name: Seq<char>,
    pub deps: Seq<DependencyView>,
}

/// Finds the requirements, among those `deps` that the package `from`
/// declares, behind the resolved entry `(resolved_name, pkg)`. A rename that
/// matches the resolved name wins; otherwise the name of the package resolved
/// to decides.
pub open spec fn resolve_spec(
    from: Seq<char>,
    deps: Seq<DependencyView>,
    table: Map<Seq<char>, PackageDataView>,
    resolved_name: Seq<char>,
    pkg: Seq<char>,
) -> Result<Resolution, ErrorView> {
    let renamed = bucket(deps, true, resolved_name);
    if renamed.len() > 0 {
        Ok(Resolution { name: display_name(renamed[0], true), deps: renamed })
    } else if !table.contains_key(pkg) {
        Err(ErrorView::MissingDependencyData { from, dependency: pkg })
    } else {
        let name = table[pkg].name;
        let original = bucket(deps, false, name);
        if original.len() > 0 {
            Ok(Resolution { name, deps: original })
        } else {
            Err(ErrorView::MissingDependencyInfo { from, name, dependency: pkg })
        }
    }
}

/// One edge of the graph with the handles of its two ends.
pub struct EdgeRecord {
    pub from: int,
    pub to: int,
    pub edge: DependencyEdgeView,
}

/// The edge that one resolved entry of the package `from` gives.
pub open spec fn link_spec(
    from: PackageView,
    table: Map<Seq<char>, PackageDataView>,
    entry: NodeDepView,
) -> Result<EdgeRecord, ErrorView> {
    match resolve_spec(from.id, from.dependencies, table, entry.name, entry.pkg) {
        Err(e) => Err(e),
        Ok(found) => if !table.contains_key(entry.pkg) {
            Err(ErrorView::MissingPackageData { package: entry.pkg })
        } else {
            match assemble_spec(from.id, found.name, entry.name, found.deps) {
                Err(e) => Err(e),
                Ok(edge) => Ok(
                    EdgeRecord {
                        from: table[from.id].node_idx,
                        to: table[entry.pkg].node_idx,
                        edge,
                    },
                ),
            }
        },
    }
}

/// The edges of the resolved entries of one package, in order, or the error of
/// the first entry that gives none.
pub open spec fn links_spec(
    from: PackageView,
    table: Map<Seq<char>, PackageDataView>,
    entries: Seq<NodeDepView>,
) -> Result<Seq<EdgeRecord>, ErrorView>
    decreases entries.len(),
{
    if entries.len() == 0 {
        Ok(Seq::empty())
    } else {
        match links_spec(from, table, entries.drop_last()) {
            Err(e) => Err(e),
            Ok(edges) => match link_spec(from, table, entries.last()) {
                Err(e) => Err(e),
                Ok(edge) => Ok(edges.push(edge)),
            },
        }
    }
}

/// Whether one of the first `n` packages carries the identifier `id`.
pub open spec fn taken(packages: Seq<PackageView>, n: int, id: Seq<char>) -> bool {
    exists|k: int| 0 <= k < n && k < packages.len() && (#[trigger] packages[k]).id == id
}

/// Whether resolved data is at hand for package `i`: the snapshot holds a node
/// for it, and no earlier package has used it up.
pub open spec fn has_resolve_data(m: MetadataView, i: int) -> bool {
    &&& m.resolve is Some
    &&& resolve_table(m.resolve->0).contains_key(m.packages[i].id)
    &&& !taken(m.packages, i, m.packages[i].id)
}

/// The edges that leave package `i`.
pub open spec fn package_links_spec(m: MetadataView, i: int) -> Result<Seq<EdgeRecord>, ErrorView> {
    let p = m.packages[i];
    if !has_resolve_data(m, i) {
        Err(ErrorView::MissingResolveData { package: p.id })
    } else {
        links_spec(p, package_table(m.packages), resolve_table(m.resolve->0)[p.id].deps)
    }
}

/// The edges that leave the first `n` packages, package by package, or the
/// error of the first package that fails.
pub open spec fn graph_links_spec(m: MetadataView, n: int) -> Result<Seq<EdgeRecord>, ErrorView>
    decreases n,
{
    if n <= 0 {
        Ok(Seq::empty())
    } else {
        match graph_links_spec(m, n - 1) {
            Err(e) => Err(e),
            Ok(edges) => match package_links_spec(m, n - 1) {
                Err(e) => Err(e),
                Ok(more) => Ok(edges + more),
            },
        }
    }
}

/// What the graph holds of one package.
pub struct PackageMetadataView {
    pub id: Seq<char>,
    pub name: Seq<char>,
    pub version: Version,
    pub authors: Seq<Seq<char>>,
    pub description: Option<Seq<char>>,
    pub license: Option<Seq<char>>,
    pub deps: Seq<DependencyView>,
    pub node_idx: int,
    pub in_workspace: bool,
    pub resolved_deps: Seq<NodeDepView>,
    pub resolved_features: Seq<Seq<char>>,
}

/// What a graph built from `m` holds of package `i`.
pub open spec fn package_metadata_spec(m: MetadataView, i: int) -> PackageMetadataView {
    let p = m.packages[i];
    let node = resolve_table(m.resolve->0)[p.id];
    PackageMetadataView {
        id: p.id,
        name: p.name,
        version: p.version,
        authors: p.authors,
        description: p.description,
        license: p.license,
        deps: p.dependencies,
        node_idx: package_table(m.packages)[p.id].node_idx,
        in_workspace: m.workspace_members.contains(p.id),
        resolved_deps: node.deps,
        resolved_features: node.features,
    }
}

/// A package graph: the packages by handle, the edges in the order in which
/// they were added, and the set of workspace members.
pub struct GraphView {
    pub packages: Seq<PackageMetadataView>,
    pub edges: Seq<EdgeRecord>,
    pub workspace_members: Set<Seq<char>>,
}

/// The graph that the snapshot `m` gives, or the error that construction ends
/// with.
pub open spec fn build_spec(m: MetadataView) -> Result<GraphView, ErrorView> {
    if m.resolve is None {
        Err(ErrorView::NoResolve)
    } else {
        match graph_links_spec(m, m.packages.len() as int) {
            Err(e) => Err(e),
            Ok(edges) => Ok(
                GraphView {
                    packages: Seq::new(m.packages.len(), |i: int| package_metadata_spec(m, i)),
                    edges,
                    workspace_members: m.workspace_members.to_set(),
                },
            ),
        }
    }
}

} // verus!

verus! {

/// The package index knows exactly the identifiers that occur, and gives for
/// each the last package that carries it.
pub proof fn lemma_package_table(packages: Seq<PackageView>)
    ensures
        forall|i: int|
            0 <= i < packages.len() ==> package_table(packages).contains_key(
                (#[trigger] packages[i]).id,
            ),
        forall|id: Seq<char>| #[trigger]
            package_table(packages).contains_key(id) ==> {
                let data = package_table(packages)[id];
                &&& 0 <= data.node_idx < packages.len()
                &&& packages[data.node_idx].id == id
                &&& packages[data.node_idx].name == data.name
                &&& packages[data.node_idx].version == data.version
                &&& forall|j: int|
                    data.node_idx < j < packages.len() ==> (#[trigger] packages[j]).id != id
            },
    decreases packages.len(),
{
    if packages.len() > 0 {
        let rest = packages.drop_last();
        lemma_package_table(rest);
        assert forall|i: int| 0 <= i < packages.len() implies package_table(
            packages,
        ).contains_key((#[trigger] packages[i]).id) by {
            if i < rest.len() {
                assert(rest[i] == packages[i]);
            }
        }
        assert forall|id: Seq<char>| #[trigger]
            package_table(packages).contains_key(id) implies {
            let data = package_table(packages)[id];
            &&& 0 <= data.node_idx < packages.len()
            &&& packages[data.node_idx].id == id
            &&& packages[data.node_idx].name == data.name
            &&& packages[data.node_idx].version == data.version
            &&& forall|j: int|
                data.node_idx < j < packages.len() ==> (#[trigger] packages[j]).id != id
        } by {
            if id != packages.last().id {
                assert(package_table(rest).contains_key(id));
                let data = package_table(rest)[id];
                assert(rest[data.node_idx] == packages[data.node_idx]);
                assert forall|j: int| data.node_idx < j < packages.len() implies (
                #[trigger] packages[j]).id != id by {
                    if j < rest.len() {
                        assert(rest[j] == packages[j]);
                    }
                }
            }
        }
    }
}

/// The resolved data of an identifier is one of the nodes that carry it.
pub proof fn lemma_resolve_table(nodes: Seq<NodeView>)
    ensures
        forall|i: int|
            0 <= i < nodes.len() ==> resolve_table(nodes).contains_key((#[trigger] nodes[i]).id),
        forall|id: Seq<char>| #[trigger]
            resolve_table(nodes).contains_key(id) ==> nodes.contains(resolve_table(nodes)[id])
                && resolve_table(nodes)[id].id == id,
    decreases nodes.len(),
{
    if nodes.len() > 0 {
        let rest = nodes.drop_last();
        lemma_resolve_table(rest);
        assert forall|i: int| 0 <= i < nodes.len() implies resolve_table(nodes).contains_key(
            (#[trigger] nodes[i]).id,
        ) by {
            if i < rest.len() {
                assert(rest[i] == nodes[i]);
            }
        }
        assert forall|id: Seq<char>| #[trigger]
            resolve_table(nodes).contains_key(id) implies nodes.contains(resolve_table(nodes)[id])
            && resolve_table(nodes)[id].id == id by {
            if id != nodes.last().id {
                let node = resolve_table(rest)[id];
                let p = choose|p: int| 0 <= p < rest.len() && rest[p] == node;
                assert(nodes[p] == node);
            } else {
                assert(nodes[nodes.len() - 1] == nodes.last());
            }
        }
    }
}

/// An entry that gives no edge ends the whole list of entries.
pub proof fn lemma_links_error(
    from: PackageView,
    table: Map<Seq<char>, PackageDataView>,
    entries: Seq<NodeDepView>,
    n: int,
)
    requires
        0 <= n <= entries.len(),
        links_spec(from, table, entries.take(n)) is Err,
    ensures
        links_spec(from, table, entries) == links_spec(from, table, entries.take(n)),
    decreases entries.len() - n,
{
    if n < entries.len() {
        assert(entries.take(n + 1).drop_last() =~= entries.take(n));
        lemma_links_error(from, table, entries, n + 1);
    } else {
        assert(entries.take(n) =~= entries);
    }
}

/// A package that fails ends construction.
pub proof fn lemma_graph_links_error(m: MetadataView, n: int, total: int)
    requires
        0 <= n <= total,
        graph_links_spec(m, n) is Err,
    ensures
        graph_links_spec(m, total) == graph_links_spec(m, n),
    decreases total - n,
{
    if n < total {
        lemma_graph_links_error(m, n + 1, total);
    }
}

} // verus!

verus! {

impl GraphView {
    /// What holds of every graph that construction gives: the handle of a
    /// package is its position, no identifier occurs twice, and every edge
    /// lies between two packages.
    pub open spec fn valid(self) -> bool {
        &&& forall|i: int| 0 <= i < self.packages.len() ==> (#[trigger] self.packages[i]).node_idx == i
        &&& forall|i: int, j: int|
            0 <= i < self.packages.len() && 0 <= j < self.packages.len() && i != j ==> (
            #[trigger] self.packages[i]).id != (#[trigger] self.packages[j]).id
        &&& forall|k: int|
            0 <= k < self.edges.len() ==> {
                &&& 0 <= (#[trigger] self.edges[k]).from < self.packages.len()
                &&& 0 <= self.edges[k].to < self.packages.len()
            }
    }

    /// Whether the graph holds a package with the identifier `id`.
    pub open spec fn has_package(self, id: Seq<char>) -> bool {
        exists|i: int| 0 <= i < self.packages.len() && (#[trigger] self.packages[i]).id == id
    }

    /// The handle of the package with the identifier `id`.
    pub open spec fn handle_of(self, id: Seq<char>) -> int {
        choose|i: int| 0 <= i < self.packages.len() && (#[trigger] self.packages[i]).id == id
    }
}

/// The end of an edge by which it is found when walking in direction `dir`.
pub open spec fn record_near_end(r: EdgeRecord, dir: Direction) -> int {
    match dir {
        Direction::Outgoing => r.from,
        Direction::Incoming => r.to,
    }
}

/// The edges at the package with handle `a` in direction `dir`: those that
/// leave it, or those that arrive at it, the most recently added first.
pub open spec fn links_at(edges: Seq<EdgeRecord>, a: int, dir: Direction) -> Seq<EdgeRecord>
    decreases edges.len(),
{
    if edges.len() == 0 {
        Seq::empty()
    } else {
        let earlier = links_at(edges.drop_last(), a, dir);
        if record_near_end(edges.last(), dir) == a {
            seq![edges.last()] + earlier
        } else {
            earlier
        }
    }
}

/// An edge together with the packages at its two ends.
pub struct PackageDepView {
    pub from: PackageMetadataView,
    pub to: PackageMetadataView,
    pub edge: DependencyEdgeView,
}

/// The edge `r` of the graph `g` with the packages at its ends.
pub open spec fn dep_of(g: GraphView, r: EdgeRecord) -> PackageDepView {
    PackageDepView { from: g.packages[r.from], to: g.packages[r.to], edge: r.edge }
}

/// What a query for the dependencies of the package `id` in direction `dir`
/// yields: nothing for an unknown package.
pub open spec fn deps_spec(g: GraphView, id: Seq<char>, dir: Direction) -> Seq<PackageDepView> {
    if g.has_package(id) {
        let found = links_at(g.edges, g.handle_of(id), dir);
        Seq::new(found.len(), |k: int| dep_of(g, found[k]))
    } else {
        Seq::empty()
    }
}

/// The complaint about one requirement of an edge: the version the edge leads
/// to does not satisfy it.
pub open spec fn check_slot(
    from: PackageMetadataView,
    to: PackageMetadataView,
    kind: DependencyKind,
    slot: Option<DependencyMetadataView>,
) -> Option<ErrorView> {
    match slot {
        Some(s) => if req_admits(s.req, to.version) {
            None
        } else {
            Some(
                ErrorView::VersionMismatch {
                    from: from.id,
                    to: to.id,
                    kind,
                    version: to.version,
                    req: s.req,
                },
            )
        },
        None => None,
    }
}

/// The first complaint about an edge: a requirement not satisfied, looked for
/// in the order normal, build, development, or no requirement at all.
pub open spec fn check_dep(d: PackageDepView) -> Option<ErrorView> {
    let normal = check_slot(d.from, d.to, DependencyKind::Normal, d.edge.normal);
    let build = check_slot(d.from, d.to, DependencyKind::Build, d.edge.build);
    let dev = check_slot(d.from, d.to, DependencyKind::Development, d.edge.dev);
    if normal is Some {
        normal
    } else if build is Some {
        build
    } else if dev is Some {
        dev
    } else if d.edge.normal is None && d.edge.build is None && d.edge.dev is None {
        Some(ErrorView::MissingEdgeInfo { from: d.from.id, to: d.to.id })
    } else {
        None
    }
}

/// The first complaint about one of the given edges, in order.
pub open spec fn check_deps(deps: Seq<PackageDepView>) -> Option<ErrorView>
    decreases deps.len(),
{
    if deps.len() == 0 {
        None
    } else {
        match check_deps(deps.drop_last()) {
            Some(e) => Some(e),
            None => check_dep(deps.last()),
        }
    }
}

/// The edges that leave the package with handle `a`, with the packages at
/// their ends.
pub open spec fn deps_at(g: GraphView, a: int) -> Seq<PackageDepView> {
    let found = links_at(g.edges, a, Direction::Outgoing);
    Seq::new(found.len(), |k: int| dep_of(g, found[k]))
}

/// The first complaint about an edge that leaves one of the first `n`
/// packages, package by package.
pub open spec fn verify_upto(g: GraphView, n: int) -> Option<ErrorView>
    decreases n,
{
    if n <= 0 {
        None
    } else {
        match verify_upto(g, n - 1) {
            Some(e) => Some(e),
            None => check_deps(deps_at(g, n - 1)),
        }
    }
}

/// What verification of the graph `g` answers.
pub open spec fn verify_spec(g: GraphView) -> Result<(), ErrorView> {
    match verify_upto(g, g.packages.len() as int) {
        Some(e) => Err(e),
        None => Ok(()),
    }
}

} // verus!
