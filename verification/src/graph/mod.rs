//! The package graph: its edges, the builder that reconciles declared and
//! resolved dependencies, and the queries on the finished graph.

use crate::errors::{Error, ErrorView};
use crate::graph::builder::{recorded_edges, storage_wf, GraphBuildState};
use crate::graph::edge::{DependencyEdge, DependencyMetadata};
use crate::graph::model::{
    build_spec, check_dep, check_deps, check_slot, dep_of, deps_at, deps_spec, graph_links_spec,
    has_resolve_data, lemma_graph_links_error, lemma_package_table, links_at,
    package_metadata_spec, package_table, taken, verify_spec, verify_upto, EdgeRecord, GraphView,
    PackageDepView,
};
use crate::graph::package::PackageMetadata;
use crate::graph::workspace::{strictly_sorted, WorkspaceMembers};
use crate::metadata::{views, DependencyKind, Metadata, MetadataView, PackageId};
use crate::petgraph_support::{
    edge_list, graph_edges, graph_edges_directed, incident, lemma_walk_is_incident, Direction,
    EdgeReference,
};
use crate::version::version_matches;
use petgraph::graph::Graph;
use petgraph::Directed;
use vstd::hash_map::StringHashMap;
use vstd::prelude::*;

pub mod builder;
pub mod edge;
pub mod laws;
pub mod model;
pub mod package;
pub mod resolver;
pub mod round_trip;
pub mod workspace;

verus! {

/// A graph of packages and the dependencies between them.
pub struct PackageGraph {
    /// The packages by handle.
    packages: Vec<PackageMetadata>,
    /// The handle of each package by identifier.
    index: StringHashMap<usize>,
    /// Nodes and edges; the weight of a node is the handle of its package, the
    /// weight of an edge the position of its data in `edges`.
    dep_graph: Graph<usize, usize, Directed, usize>,
    edges: Vec<DependencyEdge>,
    workspace_members: WorkspaceMembers,
}

impl View for PackageGraph {
    type V = GraphView;

    closed spec fn view(&self) -> GraphView {
        GraphView {
            packages: views(self.packages@),
            edges: recorded_edges(self.dep_graph, self.edges@),
            workspace_members: self.workspace_members@,
        }
    }
}

impl PackageGraph {
    #[verifier::type_invariant]
    spec fn inv(self) -> bool {
        &&& storage_wf(self.dep_graph, self.edges@, self.packages.len() as nat)
        &&& forall|i: int|
            0 <= i < self.packages.len() ==> {
                &&& (#[trigger] self.packages[i])@.node_idx == i
                &&& self.index@.contains_key(self.packages[i]@.id)
                &&& self.index@[self.packages[i]@.id] == i
            }
        &&& forall|id: Seq<char>| #[trigger]
            self.index@.contains_key(id) ==> {
                &&& self.index@[id] < self.packages.len()
                &&& self.packages[self.index@[id] as int]@.id == id
            }
    }

    /// Builds the graph of a snapshot. Construction succeeds as a whole or
    /// fails with the error of the first package, and of its first resolved
    /// dependency, that cannot be accounted for.
    pub fn new(metadata: Metadata) -> (r: Result<Self, Error>)
        ensures
            match r {
                Ok(graph) => build_spec(metadata@) == Ok::<GraphView, ErrorView>(graph@)
                    && graph@.valid(),
                Err(e) => build_spec(metadata@) == Err::<GraphView, ErrorView>(e@),
            },
    {
        let ghost m = metadata@;
        let resolve = match metadata.resolve {
            Some(resolve) => resolve,
            None => {
                return Err(Error::NoResolve);
            },
        };
        let workspace_members = WorkspaceMembers::from_ids(&metadata.workspace_members);
        let mut build_state = GraphBuildState::new(
            &metadata.packages,
            resolve,
            workspace_members.as_set(),
            Ghost(m),
        );
        let mut packages: Vec<PackageMetadata> = Vec::new();
        let mut index: StringHashMap<usize> = StringHashMap::new();
        let ghost all = metadata.packages@;
        for package in it: metadata.packages
            invariant
                it.seq() == all,
                views(all) == m.packages,
                m == metadata@,
                m.resolve is Some,
                build_state.wf(),
                build_state.resolve_wf(it.index() as int),
                build_state.input() == m,
                graph_links_spec(m, it.index() as int) == Ok::<Seq<EdgeRecord>, ErrorView>(
                    build_state.recorded(),
                ),
                packages.len() == it.index(),
                forall|i: int|
                    0 <= i < packages.len() ==> {
                        &&& (#[trigger] packages[i])@ == package_metadata_spec(m, i)
                        &&& !taken(m.packages, i, m.packages[i].id)
                        &&& index@.contains_key(m.packages[i].id)
                        &&& index@[m.packages[i].id] == i
                    },
                forall|id: Seq<char>| #[trigger]
                    index@.contains_key(id) ==> {
                        &&& index@[id] < packages.len()
                        &&& m.packages[index@[id] as int].id == id
                    },
        {
            let ghost n = it.index() as int;
            assert(package@ == m.packages[n]);
            match build_state.process_package(package, Ghost(n)) {
                Ok(package_metadata) => {
                    proof {
                        assert(has_resolve_data(m, n));
                    }
                    index.insert(package_metadata.id().repr.clone(), packages.len());
                    packages.push(package_metadata);
                    proof {
                        assert forall|i: int| 0 <= i < packages.len() implies {
                            &&& (#[trigger] packages[i])@ == package_metadata_spec(m, i)
                            &&& !taken(m.packages, i, m.packages[i].id)
                            &&& index@.contains_key(m.packages[i].id)
                            &&& index@[m.packages[i].id] == i
                        } by {
                            if i < n {
                                assert(m.packages[i].id != m.packages[n].id);
                            }
                        }
                    }
                },
                Err(e) => {
                    proof {
                        lemma_graph_links_error(m, n + 1, m.packages.len() as int);
                    }
                    return Err(e);
                },
            }
        }
        let (dep_graph, edges) = build_state.finish();
        proof {
            lemma_package_table(m.packages);
            assert(packages.len() == m.packages.len());
            assert forall|i: int| 0 <= i < packages.len() implies (#[trigger] packages[i])@.node_idx
                == i by {
                let id = m.packages[i].id;
                let at = package_table(m.packages)[id].node_idx;
                if at != i {
                    if at < i {
                        assert(m.packages[at].id == id);
                        assert(taken(m.packages, i, id));
                    } else {
                        assert(m.packages[i].id == id);
                        assert(packages[at]@ == package_metadata_spec(m, at));
                        assert(taken(m.packages, at, m.packages[at].id));
                    }
                }
            }
            assert(views(packages@) =~= Seq::new(
                m.packages.len(),
                |i: int| package_metadata_spec(m, i),
            ));
        }
        let graph = PackageGraph { packages, index, dep_graph, edges, workspace_members };
        proof {
            assert(graph@.valid());
        }
        Ok(graph)
    }
}

/// An edge of the graph together with the packages at its two ends.
#[derive(Clone, Debug)]
pub struct PackageDep<'a> {
    pub from: &'a PackageMetadata,
    pub to: &'a PackageMetadata,
    pub edge: &'a DependencyEdge,
}

impl<'a> View for PackageDep<'a> {
    type V = PackageDepView;

    open spec fn view(&self) -> PackageDepView {
        PackageDepView { from: self.from@, to: self.to@, edge: self.edge@ }
    }
}

/// The record that an edge reference of the storage stands for.
spec fn record_of(e: EdgeReference, table: Seq<DependencyEdge>) -> EdgeRecord {
    EdgeRecord { from: e.source as int, to: e.target as int, edge: table[e.weight as int]@ }
}

/// The edges that the storage reports at a node are the edges of the model
/// at that node, in the same order.
proof fn lemma_incident_links(
    refs: Seq<EdgeReference>,
    records: Seq<EdgeRecord>,
    table: Seq<DependencyEdge>,
    nodes: nat,
    a: usize,
    dir: Direction,
)
    requires
        refs.len() == records.len(),
        forall|k: int|
            0 <= k < refs.len() ==> {
                &&& (#[trigger] refs[k]).source < nodes
                &&& refs[k].target < nodes
                &&& refs[k].weight < table.len()
                &&& records[k] == record_of(refs[k], table)
            },
    ensures
        incident(refs, a, dir).len() == links_at(records, a as int, dir).len(),
        forall|k: int|
            0 <= k < incident(refs, a, dir).len() ==> {
                &&& (#[trigger] incident(refs, a, dir)[k]).source < nodes
                &&& incident(refs, a, dir)[k].target < nodes
                &&& incident(refs, a, dir)[k].weight < table.len()
                &&& links_at(records, a as int, dir)[k] == record_of(
                    incident(refs, a, dir)[k],
                    table,
                )
            },
    decreases refs.len(),
{
    if refs.len() > 0 {
        let n = refs.len() - 1;
        assert(records[n] == record_of(refs[n], table));
        assert forall|k: int| 0 <= k < refs.drop_last().len() implies {
            &&& (#[trigger] refs.drop_last()[k]).source < nodes
            &&& refs.drop_last()[k].target < nodes
            &&& refs.drop_last()[k].weight < table.len()
            &&& records.drop_last()[k] == record_of(refs.drop_last()[k], table)
        } by {
            assert(refs.drop_last()[k] == refs[k]);
        }
        lemma_incident_links(refs.drop_last(), records.drop_last(), table, nodes, a, dir);
    }
}

impl PackageGraph {
    /// The edges at the package with the given handle, each with the packages
    /// at its ends.
    fn links<'a>(&'a self, handle: usize, dir: Direction) -> (r: Vec<PackageDep<'a>>)
        ensures
            self@.valid(),
            views(r@) == Seq::new(
                links_at(self@.edges, handle as int, dir).len(),
                |k: int| dep_of(self@, links_at(self@.edges, handle as int, dir)[k]),
            ),
    {
        proof {
            use_type_invariant(self);
        }
        let refs = graph_edges_directed(&self.dep_graph, handle, dir);
        let ghost found = links_at(self@.edges, handle as int, dir);
        proof {
            let all = edge_list(self.dep_graph);
            lemma_walk_is_incident(self.dep_graph, handle, dir);
            assert forall|k: int| 0 <= k < all.len() implies {
                &&& (#[trigger] all[k]).source < self.packages.len()
                &&& all[k].target < self.packages.len()
                &&& all[k].weight < self.edges@.len()
                &&& self@.edges[k] == record_of(all[k], self.edges@)
            } by {
                assert(graph_edges(self.dep_graph)[k].2 == k);
            }
            lemma_incident_links(
                all,
                self@.edges,
                self.edges@,
                self.packages.len() as nat,
                handle,
                dir,
            );
        }
        let mut out: Vec<PackageDep<'a>> = Vec::new();
        let mut k: usize = 0;
        while k < refs.len()
            invariant
                k <= refs.len(),
                out.len() == k,
                refs.len() == found.len(),
                found == links_at(self@.edges, handle as int, dir),
                forall|i: int|
                    0 <= i < refs.len() ==> {
                        &&& (#[trigger] refs[i]).source < self.packages.len()
                        &&& refs[i].target < self.packages.len()
                        &&& refs[i].weight < self.edges.len()
                        &&& found[i] == record_of(refs[i], self.edges@)
                    },
                forall|i: int| 0 <= i < k ==> (#[trigger] out[i])@ == dep_of(self@, found[i]),
            decreases refs.len() - k,
        {
            let e = refs[k];
            out.push(
                PackageDep {
                    from: &self.packages[e.source],
                    to: &self.packages[e.target],
                    edge: &self.edges[e.weight],
                },
            );
            k += 1;
        }
        proof {
            assert(views(out@) =~= Seq::new(found.len(), |k: int| dep_of(self@, found[k])));
        }
        out
    }

    /// What the graph holds of the package `package_id`.
    pub fn metadata(&self, package_id: &PackageId) -> (r: Option<&PackageMetadata>)
        ensures
            self@.valid(),
            match r {
                Some(metadata) => self@.has_package(package_id@) && metadata@
                    == self@.packages[self@.handle_of(package_id@)],
                None => !self@.has_package(package_id@),
            },
    {
        proof {
            use_type_invariant(self);
        }
        match self.index.get(package_id.repr.as_str()) {
            Some(idx) => {
                proof {
                    assert(self.index@.contains_key(package_id@));
                    assert(self@.packages[*idx as int].id == package_id@);
                    let h = self@.handle_of(package_id@);
                    assert(self.packages[h]@.id == package_id@);
                }
                Some(&self.packages[*idx])
            },
            None => {
                proof {
                    if self@.has_package(package_id@) {
                        let h = self@.handle_of(package_id@);
                        assert(self.packages[h]@.id == package_id@);
                    }
                }
                None
            },
        }
    }

    /// The edges that leave the package `package_id`: its dependencies.
    pub fn deps<'a>(&'a self, package_id: &PackageId) -> (r: Vec<PackageDep<'a>>)
        ensures
            self@.valid(),
            views(r@) == deps_spec(self@, package_id@, Direction::Outgoing),
    {
        self.deps_directed(package_id, Direction::Outgoing)
    }

    /// The edges that arrive at the package `package_id`: the packages that
    /// depend on it.
    pub fn reverse_deps<'a>(&'a self, package_id: &PackageId) -> (r: Vec<PackageDep<'a>>)
        ensures
            self@.valid(),
            views(r@) == deps_spec(self@, package_id@, Direction::Incoming),
    {
        self.deps_directed(package_id, Direction::Incoming)
    }

    fn deps_directed<'a>(&'a self, package_id: &PackageId, dir: Direction) -> (r: Vec<
        PackageDep<'a>,
    >)
        ensures
            self@.valid(),
            views(r@) == deps_spec(self@, package_id@, dir),
    {
        match self.metadata(package_id) {
            Some(metadata) => {
                let r = self.links(metadata.node_idx(), dir);
                r
            },
            None => {
                let r: Vec<PackageDep<'a>> = Vec::new();
                proof {
                    assert(views(r@) =~= Seq::<PackageDepView>::empty());
                }
                r
            },
        }
    }

    /// The workspace members in ascending order of their identifiers.
    pub fn workspace_members(&self) -> (r: &Vec<PackageId>)
        ensures
            strictly_sorted(views(r@)),
            views(r@).to_set() == self@.workspace_members,
    {
        self.workspace_members.members()
    }

    /// Whether the package `package_id` is a workspace member.
    pub fn in_workspace(&self, package_id: &PackageId) -> (r: bool)
        ensures
            r == self@.workspace_members.contains(package_id@),
    {
        self.workspace_members.contains(package_id)
    }

    /// The identifiers of all packages, by handle.
    pub fn package_ids(&self) -> (r: Vec<&PackageId>)
        ensures
            r.len() == self@.packages.len(),
            forall|i: int| 0 <= i < r.len() ==> (#[trigger] r[i])@ == self@.packages[i].id,
    {
        let mut out: Vec<&PackageId> = Vec::new();
        let mut i: usize = 0;
        while i < self.packages.len()
            invariant
                i <= self.packages.len(),
                out.len() == i,
                forall|k: int| 0 <= k < i ==> (#[trigger] out[k])@ == self.packages[k]@.id,
            decreases self.packages.len() - i,
        {
            out.push(self.packages[i].id());
            i += 1;
        }
        out
    }

    /// All packages with their identifiers, by handle.
    pub fn packages(&self) -> (r: Vec<(&PackageId, &PackageMetadata)>)
        ensures
            r.len() == self@.packages.len(),
            forall|i: int|
                0 <= i < r.len() ==> (#[trigger] r[i]).0@ == self@.packages[i].id && r[i].1@
                    == self@.packages[i],
    {
        let mut out: Vec<(&PackageId, &PackageMetadata)> = Vec::new();
        let mut i: usize = 0;
        while i < self.packages.len()
            invariant
                i <= self.packages.len(),
                out.len() == i,
                forall|k: int|
                    0 <= k < i ==> (#[trigger] out[k]).0@ == self.packages[k]@.id && out[k].1@
                        == self.packages[k]@,
            decreases self.packages.len() - i,
        {
            let metadata = &self.packages[i];
            out.push((metadata.id(), metadata));
            i += 1;
        }
        out
    }
}

/// A complaint about one of the first edges is the complaint about them all.
proof fn lemma_check_deps_error(deps: Seq<PackageDepView>, n: int)
    requires
        0 <= n <= deps.len(),
        check_deps(deps.take(n)) is Some,
    ensures
        check_deps(deps) == check_deps(deps.take(n)),
    decreases deps.len() - n,
{
    if n < deps.len() {
        assert(deps.take(n + 1).drop_last() =~= deps.take(n));
        lemma_check_deps_error(deps, n + 1);
    } else {
        assert(deps.take(n) =~= deps);
    }
}

/// A complaint about one of the first packages is the answer of verification.
proof fn lemma_verify_error(g: GraphView, n: int, total: int)
    requires
        0 <= n <= total,
        verify_upto(g, n) is Some,
    ensures
        verify_upto(g, total) == verify_upto(g, n),
    decreases total - n,
{
    if n < total {
        lemma_verify_error(g, n + 1, total);
    }
}

/// What to make of one requirement of an edge, given whether the version the
/// edge leads to satisfies it: nothing where it does, and otherwise the
/// complaint that names both packages, the kind, the version and the
/// requirement.
pub fn version_verdict(
    from: &PackageMetadata,
    to: &PackageMetadata,
    dep_metadata: &DependencyMetadata,
    kind: DependencyKind,
    admitted: bool,
) -> (r: Result<(), Error>)
    ensures
        match r {
            Ok(()) => admitted,
            Err(e) => !admitted && e@ == (ErrorView::VersionMismatch {
                from: from@.id,
                to: to@.id,
                kind,
                version: to@.version,
                req: dep_metadata@.req,
            }),
        },
{
    if admitted {
        Ok(())
    } else {
        Err(
            Error::VersionMismatch {
                from: from.id().clone(),
                to: to.id().clone(),
                kind,
                version: to.version().clone(),
                req: dep_metadata.req().clone(),
            },
        )
    }
}

/// Checks the version that an edge leads to against one requirement of the
/// edge.
fn version_check(
    from: &PackageMetadata,
    to: &PackageMetadata,
    dep_metadata: &DependencyMetadata,
    kind: DependencyKind,
) -> (r: Result<(), Error>)
    ensures
        match r {
            Ok(()) => check_slot(from@, to@, kind, Some(dep_metadata@)) is None,
            Err(e) => check_slot(from@, to@, kind, Some(dep_metadata@)) == Some(e@),
        },
{
    let admitted = version_matches(dep_metadata.req(), to.version());
    version_verdict(from, to, dep_metadata, kind, admitted)
}

/// Checks one edge: each of its requirements must be satisfied by the version
/// it leads to, and it must carry at least one.
fn check_edge(dep: &PackageDep) -> (r: Result<(), Error>)
    ensures
        match r {
            Ok(()) => check_dep(dep@) is None,
            Err(e) => check_dep(dep@) == Some(e@),
        },
{
    let mut edge_set = false;
    match dep.edge.normal() {
        Some(dep_metadata) => {
            edge_set = true;
            match version_check(dep.from, dep.to, dep_metadata, DependencyKind::Normal) {
                Ok(()) => {},
                Err(e) => {
                    return Err(e);
                },
            }
        },
        None => {},
    }
    match dep.edge.build() {
        Some(dep_metadata) => {
            edge_set = true;
            match version_check(dep.from, dep.to, dep_metadata, DependencyKind::Build) {
                Ok(()) => {},
                Err(e) => {
                    return Err(e);
                },
            }
        },
        None => {},
    }
    match dep.edge.dev() {
        Some(dep_metadata) => {
            edge_set = true;
            match version_check(dep.from, dep.to, dep_metadata, DependencyKind::Development) {
                Ok(()) => {},
                Err(e) => {
                    return Err(e);
                },
            }
        },
        None => {},
    }
    if !edge_set {
        return Err(Error::MissingEdgeInfo { from: dep.from.id().clone(), to: dep.to.id().clone() });
    }
    Ok(())
}

impl PackageGraph {
    /// Verifies the graph against itself: every edge must carry a requirement
    /// of at least one kind, and the version it leads to must satisfy each
    /// requirement it carries. The graph is left as it is. The packages are
    /// gone through by handle, the edges of each from the most recently added
    /// on, and the first complaint is the answer.
    pub fn verify(&self) -> (r: Result<(), Error>)
        ensures
            match r {
                Ok(()) => verify_spec(self@) == Ok::<(), ErrorView>(()),
                Err(e) => verify_spec(self@) == Err::<(), ErrorView>(e@),
            },
    {
        let ghost g = self@;
        let mut i: usize = 0;
        while i < self.packages.len()
            invariant
                i <= self.packages.len(),
                g == self@,
                g.packages.len() == self.packages.len(),
                verify_upto(g, i as int) is None,
            decreases self.packages.len() - i,
        {
            let deps = self.links(i, Direction::Outgoing);
            let ghost all = views(deps@);
            assert(all == deps_at(g, i as int));
            let mut k: usize = 0;
            while k < deps.len()
                invariant
                    k <= deps.len(),
                    all == views(deps@),
                    all == deps_at(g, i as int),
                    g == self@,
                    i < g.packages.len(),
                    verify_upto(g, i as int) is None,
                    check_deps(all.take(k as int)) is None,
                decreases deps.len() - k,
            {
                proof {
                    assert(all.take(k + 1).drop_last() =~= all.take(k as int));
                    assert(all.take(k + 1).last() == deps[k as int]@);
                }
                match check_edge(&deps[k]) {
                    Ok(()) => {},
                    Err(e) => {
                        proof {
                            lemma_check_deps_error(all, k + 1);
                            lemma_verify_error(g, i + 1, g.packages.len() as int);
                        }
                        return Err(e);
                    },
                }
                k += 1;
            }
            proof {
                assert(all.take(k as int) =~= all);
            }
            i += 1;
        }
        Ok(())
    }
}

} // verus!
