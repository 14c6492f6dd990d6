//! The state of a graph under construction. It lives only while a graph is
//! being built: the nodes are created up front, so that every handle is known
//! before the first edge is added, and the packages are then processed one by
//! one.

use crate::errors::{Error, ErrorView};
use crate::graph::edge::DependencyEdge;
use crate::graph::model::{
    graph_links_spec, has_resolve_data, lemma_links_error, lemma_package_table,
    link_spec, links_spec, package_links_spec, package_metadata_spec,
    package_table, resolve_table, taken, EdgeRecord, PackageDataView,
};
use crate::graph::package::PackageMetadata;
use crate::graph::resolver::{data_views, DependencyResolver, PackageData};
use crate::metadata::{
    views, MetadataView, Node, Package, PackageId, Resolve,
};
use crate::petgraph_support::{
    graph_add_edge, graph_add_node, graph_adjacency, graph_edges, graph_new, graph_nodes,
    lemma_add_edge_descends, lists_after_add,
    lemma_add_node_descends, lemma_new_descends, walks_descend,
};
use petgraph::graph::Graph;
use petgraph::Directed;
use semver::Version;
use vstd::hash_map::StringHashMap;
use vstd::hash_set::StringHashSet;
use vstd::prelude::*;

verus! {

/// The edges that a graph and the table of its edge data stand for.
pub open spec fn recorded_edges(
    graph: Graph<usize, usize, Directed, usize>,
    table: Seq<DependencyEdge>,
) -> Seq<EdgeRecord> {
    let edges = graph_edges(graph);
    Seq::new(
        edges.len(),
        |k: int|
            EdgeRecord {
                from: edges[k].0 as int,
                to: edges[k].1 as int,
                edge: table[edges[k].2 as int]@,
            },
    )
}

/// Whether the edges of a graph lie between its nodes, each edge carries the
/// handle of its own data, and the graph walks the edges at each node from
/// the most recently added one on.
pub open spec fn storage_wf(
    graph: Graph<usize, usize, Directed, usize>,
    table: Seq<DependencyEdge>,
    nodes: nat,
) -> bool {
    &&& graph_nodes(graph) == Seq::new(nodes, |i: int| i as usize)
    &&& graph_edges(graph).len() == table.len()
    &&& walks_descend(graph)
    &&& forall|k: int|
        0 <= k < graph_edges(graph).len() ==> {
            &&& (#[trigger] graph_edges(graph)[k]).0 < nodes
            &&& graph_edges(graph)[k].1 < nodes
            &&& graph_edges(graph)[k].2 == k
        }
}

pub struct GraphBuildState<'a> {
    pub(crate) dep_graph: Graph<usize, usize, Directed, usize>,
    pub(crate) edges: Vec<DependencyEdge>,
    /// Handle, name and version of every package, by identifier.
    pub(crate) package_data: StringHashMap<PackageData>,
    /// Where the resolved data of each package waits, by identifier.
    pub(crate) resolve_index: StringHashMap<usize>,
    pub(crate) resolve_nodes: Vec<Option<Node>>,
    pub(crate) workspace_members: &'a StringHashSet,
    pub(crate) input: Ghost<MetadataView>,
}

impl<'a> GraphBuildState<'a> {
    /// The snapshot that the graph is built from.
    pub closed spec fn input(&self) -> MetadataView {
        self.input@
    }

    /// The edges added so far.
    pub closed spec fn recorded(&self) -> Seq<EdgeRecord> {
        recorded_edges(self.dep_graph, self.edges@)
    }

    /// What holds of the state throughout: the package index and the nodes are
    /// those of the snapshot, and the edges lie between the nodes.
    pub closed spec fn wf(&self) -> bool {
        &&& self.input@.resolve is Some
        &&& data_views(self.package_data@) == package_table(self.input@.packages)
        &&& storage_wf(self.dep_graph, self.edges@, self.input@.packages.len())
        &&& self.workspace_members@ == self.input@.workspace_members.to_set()
    }

    /// What holds of the resolved data after `done` packages: the data of a
    /// package waits exactly where the snapshot holds it and no package has
    /// taken it.
    pub closed spec fn resolve_wf(&self, done: int) -> bool {
        let table = resolve_table(self.input@.resolve->0);
        &&& forall|id: Seq<char>| #[trigger]
            self.resolve_index@.contains_key(id) <==> (table.contains_key(id) && !taken(
                self.input@.packages,
                done,
                id,
            ))
        &&& forall|id: Seq<char>| #[trigger]
            self.resolve_index@.contains_key(id) ==> {
                let idx = self.resolve_index@[id];
                &&& idx < self.resolve_nodes.len()
                &&& self.resolve_nodes[idx as int] is Some
                &&& self.resolve_nodes[idx as int]->0@ == table[id]
            }
        &&& forall|k1: Seq<char>, k2: Seq<char>|
            #![trigger self.resolve_index@.contains_key(k1), self.resolve_index@.contains_key(k2)]
            self.resolve_index@.contains_key(k1) && self.resolve_index@.contains_key(k2) && k1
                != k2 ==> self.resolve_index@[k1] != self.resolve_index@[k2]
    }

    /// Creates one node for each package and files the resolved data.
    pub fn new(
        packages: &Vec<Package>,
        resolve: Resolve,
        workspace_members: &'a StringHashSet,
        Ghost(input): Ghost<MetadataView>,
    ) -> (r: Self)
        requires
            input.packages == views(packages@),
            input.resolve == Some(resolve@),
            workspace_members@ == input.workspace_members.to_set(),
        ensures
            r.wf(),
            r.resolve_wf(0),
            r.input() == input,
            r.recorded() == Seq::<EdgeRecord>::empty(),
    {
        let mut dep_graph = graph_new();
        proof {
            lemma_new_descends(dep_graph);
        }
        let mut package_data: StringHashMap<PackageData> = StringHashMap::new();
        let ghost all = views(packages@);
        let mut i: usize = 0;
        while i < packages.len()
            invariant
                i <= packages.len(),
                all == views(packages@),
                graph_nodes(dep_graph) == Seq::new(i as nat, |k: int| k as usize),
                graph_edges(dep_graph) == Seq::<(usize, usize, usize)>::empty(),
                walks_descend(dep_graph),
                data_views(package_data@) == package_table(all.take(i as int)),
            decreases packages.len() - i,
        {
            let package = &packages[i];
            let ghost graph_before = dep_graph;
            let node_idx = graph_add_node(&mut dep_graph, i);
            proof {
                lemma_add_node_descends(graph_before, dep_graph, i);
            }
            let ghost before = package_data@;
            package_data.insert(
                package.id.repr.clone(),
                PackageData {
                    node_idx,
                    name: package.name.clone(),
                    version: package.version.clone(),
                },
            );
            proof {
                assert(all.take(i + 1).drop_last() =~= all.take(i as int));
                assert(all.take(i + 1).last() == package@);
                assert(data_views(package_data@) =~= data_views(before).insert(
                    package@.id,
                    PackageDataView {
                        node_idx: i as int,
                        name: package@.name,
                        version: package@.version,
                    },
                ));
                assert(graph_nodes(dep_graph) =~= Seq::new((i + 1) as nat, |k: int| k as usize));
            }
            i += 1;
        }
        proof {
            assert(all.take(i as int) =~= all);
        }
        let mut resolve_index: StringHashMap<usize> = StringHashMap::new();
        let mut resolve_nodes: Vec<Option<Node>> = Vec::new();
        let ghost nodes = resolve.nodes@;
        let ghost node_views = views(nodes);
        for node in it: resolve.nodes
            invariant
                it.seq() == nodes,
                node_views == views(nodes),
                resolve_nodes.len() == it.index(),
                forall|k: int| 0 <= k < resolve_nodes.len() ==> resolve_nodes[k] == Some(nodes[k]),
                forall|id: Seq<char>| #[trigger]
                    resolve_index@.contains_key(id) <==> resolve_table(
                        node_views.take(it.index() as int),
                    ).contains_key(id),
                forall|id: Seq<char>| #[trigger]
                    resolve_index@.contains_key(id) ==> {
                        let idx = resolve_index@[id];
                        &&& idx < resolve_nodes.len()
                        &&& nodes[idx as int]@ == resolve_table(
                            node_views.take(it.index() as int),
                        )[id]
                        &&& nodes[idx as int]@.id == id
                    },
        {
            let ghost n = it.index() as int;
            let idx = resolve_nodes.len();
            proof {
                assert(node_views.take(n + 1).drop_last() =~= node_views.take(n));
                assert(node_views.take(n + 1).last() == node@);
            }
            resolve_index.insert(node.id.repr.clone(), idx);
            resolve_nodes.push(Some(node));
        }
        proof {
            assert(node_views.take(nodes.len() as int) =~= node_views);
        }
        let state = GraphBuildState {
            dep_graph,
            edges: Vec::new(),
            package_data,
            resolve_index,
            resolve_nodes,
            workspace_members,
            input: Ghost(input),
        };
        proof {
            assert(state.recorded() =~= Seq::<EdgeRecord>::empty());
            assert forall|id: Seq<char>| !taken(input.packages, 0, id) by {}
        }
        state
    }
}

impl<'a> GraphBuildState<'a> {
    /// The package index.
    pub closed spec fn table(&self) -> Map<Seq<char>, PackageDataView> {
        data_views(self.package_data@)
    }

    /// Handle, name and version of the package `id`.
    pub fn package_data(&self, id: &PackageId) -> (r: Result<(usize, &str, &Version), Error>)
        ensures
            match r {
                Ok((node_idx, name, version)) => self.table().contains_key(id@) && self.table()[id@]
                    == (PackageDataView {
                    node_idx: node_idx as int,
                    name: name@,
                    version: *version,
                }),
                Err(e) => !self.table().contains_key(id@) && e@ == (ErrorView::MissingPackageData {
                    package: id@,
                }),
            },
    {
        match self.package_data.get(id.repr.as_str()) {
            Some(data) => Ok((data.node_idx, data.name.as_str(), &data.version)),
            None => Err(Error::MissingPackageData { package: id.clone() }),
        }
    }

    /// Hands over the finished graph with the table of its edge data.
    pub fn finish(self) -> (r: (Graph<usize, usize, Directed, usize>, Vec<DependencyEdge>))
        requires
            self.wf(),
        ensures
            recorded_edges(r.0, r.1@) == self.recorded(),
            storage_wf(r.0, r.1@, self.input().packages.len()),
    {
        (self.dep_graph, self.edges)
    }
}

/// Adding an edge with its data extends the recorded edges by one.
proof fn lemma_record_push(
    before: Graph<usize, usize, Directed, usize>,
    after: Graph<usize, usize, Directed, usize>,
    table: Seq<DependencyEdge>,
    edge: DependencyEdge,
    a: usize,
    b: usize,
    nodes: nat,
)
    requires
        storage_wf(before, table, nodes),
        a < nodes,
        b < nodes,
        graph_nodes(after) == graph_nodes(before),
        graph_edges(after) == graph_edges(before).push((a, b, table.len() as usize)),
        graph_adjacency(after) == lists_after_add(
            graph_adjacency(before),
            a,
            b,
            table.len() as usize,
        ),
        table.len() < usize::MAX,
    ensures
        storage_wf(after, table.push(edge), nodes),
        recorded_edges(after, table.push(edge)) == recorded_edges(before, table).push(
            EdgeRecord { from: a as int, to: b as int, edge: edge@ },
        ),
{
    lemma_add_edge_descends(before, after, a, b, table.len() as usize);
    assert(recorded_edges(after, table.push(edge)) =~= recorded_edges(before, table).push(
        EdgeRecord { from: a as int, to: b as int, edge: edge@ },
    ));
}

impl<'a> GraphBuildState<'a> {
    /// Processes the next package: takes its resolved data, finds for each
    /// resolved dependency the requirements that declared it, and adds the
    /// edge they merge into.
    pub fn process_package(&mut self, package: Package, Ghost(done): Ghost<int>) -> (r: Result<
        PackageMetadata,
        Error,
    >)
        requires
            old(self).wf(),
            old(self).resolve_wf(done),
            0 <= done < old(self).input().packages.len(),
            package@ == old(self).input().packages[done],
            graph_links_spec(old(self).input(), done) == Ok::<Seq<EdgeRecord>, ErrorView>(
                old(self).recorded(),
            ),
        ensures
            final(self).input() == old(self).input(),
            match r {
                Ok(metadata) => {
                    &&& final(self).wf()
                    &&& final(self).resolve_wf(done + 1)
                    &&& graph_links_spec(old(self).input(), done + 1) == Ok::<
                        Seq<EdgeRecord>,
                        ErrorView,
                    >(final(self).recorded())
                    &&& metadata@ == package_metadata_spec(old(self).input(), done)
                },
                Err(e) => graph_links_spec(old(self).input(), done + 1) == Err::<
                    Seq<EdgeRecord>,
                    ErrorView,
                >(e@),
            },
    {
        let ghost m = self.input@;
        let ghost p = package@;
        let ghost table = package_table(m.packages);
        let ghost resolved = resolve_table(m.resolve->0);
        let ghost earlier = self.recorded();
        proof {
            lemma_package_table(m.packages);
            assert(table.contains_key(m.packages[done].id));
        }
        let node_idx = match self.package_data(&package.id) {
            Ok((node_idx, _, _)) => node_idx,
            Err(e) => {
                assert(false);
                return Err(e);
            },
        };
        let in_workspace = self.workspace_members.contains(package.id.repr.as_str());
        let idx = match self.resolve_index.get(package.id.repr.as_str()) {
            Some(idx) => *idx,
            None => {
                assert(!has_resolve_data(m, done));
                return Err(Error::MissingResolveData { package: package.id.clone() });
            },
        };
        let ghost index_before = self.resolve_index@;
        assert(index_before.contains_key(p.id));
        assert(has_resolve_data(m, done));
        self.resolve_index.remove(package.id.repr.as_str());
        let (resolved_deps, resolved_features) = match self.resolve_nodes[idx].take() {
            Some(node) => (node.deps, node.features),
            None => {
                assert(false);
                return Err(Error::MissingResolveData { package: package.id.clone() });
            },
        };
        let ghost entries = views(resolved_deps@);
        proof {
            assert(entries == resolved[p.id].deps);
            assert(views(resolved_features@) == resolved[p.id].features);
            assert(taken(m.packages, done + 1, p.id)) by {
                assert(m.packages[done].id == p.id);
            }
            assert forall|id: Seq<char>| #[trigger]
                self.resolve_index@.contains_key(id) <==> (resolved.contains_key(id) && !taken(
                    m.packages,
                    done + 1,
                    id,
                )) by {
                if id != p.id {
                    assert(index_before.contains_key(id) <==> (resolved.contains_key(id) && !taken(
                        m.packages,
                        done,
                        id,
                    )));
                    if taken(m.packages, done + 1, id) {
                        let k = choose|k: int|
                            0 <= k < done + 1 && k < m.packages.len() && (
                            #[trigger] m.packages[k]).id == id;
                        assert(k < done);
                    }
                }
            }
            assert forall|id: Seq<char>| #[trigger]
                self.resolve_index@.contains_key(id) implies {
                let at = self.resolve_index@[id];
                &&& at < self.resolve_nodes.len()
                &&& self.resolve_nodes[at as int] is Some
                &&& self.resolve_nodes[at as int]->0@ == resolved[id]
            } by {
                assert(index_before.contains_key(id));
                assert(index_before[id] != idx);
            }
            assert forall|k1: Seq<char>, k2: Seq<char>|
                #![trigger self.resolve_index@.contains_key(k1), self.resolve_index@.contains_key(k2)]
                self.resolve_index@.contains_key(k1) && self.resolve_index@.contains_key(k2) && k1
                    != k2 implies self.resolve_index@[k1] != self.resolve_index@[k2] by {
                assert(index_before.contains_key(k1));
                assert(index_before.contains_key(k2));
            }
            assert(self.resolve_wf(done + 1));
            assert(links_spec(p, table, entries.take(0)) == Ok::<Seq<EdgeRecord>, ErrorView>(
                Seq::empty(),
            ));
            assert(earlier + Seq::<EdgeRecord>::empty() =~= earlier);
        }
        let dep_resolver = DependencyResolver::new(
            &package.id,
            &self.package_data,
            &package.dependencies,
        );
        let mut j: usize = 0;
        while j < resolved_deps.len()
            invariant
                j <= resolved_deps.len(),
                self.wf(),
                self.resolve_wf(done + 1),
                self.input@ == m,
                old(self).input() == m,
                graph_links_spec(m, done) == Ok::<Seq<EdgeRecord>, ErrorView>(earlier),
                has_resolve_data(m, done),
                entries == resolve_table(m.resolve->0)[p.id].deps,
                0 <= done < m.packages.len(),
                p == package@,
                p == m.packages[done],
                table == package_table(m.packages),
                entries == views(resolved_deps@),
                dep_resolver.from() == p.id,
                dep_resolver.declared() == p.dependencies,
                dep_resolver.table() == table,
                table.contains_key(p.id),
                node_idx == table[p.id].node_idx,
                links_spec(p, table, entries.take(j as int)) is Ok,
                self.recorded() == earlier + links_spec(p, table, entries.take(j as int))->Ok_0,
            decreases resolved_deps.len() - j,
        {
            let entry = &resolved_deps[j];
            let ghost seen = entries.take(j as int);
            proof {
                lemma_package_table(m.packages);
                assert(entries.take(j + 1).drop_last() =~= seen);
                assert(entries.take(j + 1).last() == entry@);
            }
            let (name, deps) = match dep_resolver.resolve(entry.name.as_str(), &entry.pkg) {
                Ok(found) => found,
                Err(e) => {
                    proof {
                        lemma_links_error(p, table, entries, j + 1);
                    }
                    return Err(e);
                },
            };
            let dep_idx = match self.package_data(&entry.pkg) {
                Ok((dep_idx, _, _)) => dep_idx,
                Err(e) => {
                    proof {
                        lemma_links_error(p, table, entries, j + 1);
                    }
                    return Err(e);
                },
            };
            let edge = match DependencyEdge::new(&package.id, name, entry.name.as_str(), deps) {
                Ok(edge) => edge,
                Err(e) => {
                    proof {
                        lemma_links_error(p, table, entries, j + 1);
                    }
                    return Err(e);
                },
            };
            let ghost graph_before = self.dep_graph;
            let ghost table_before = self.edges@;
            let ghost added = EdgeRecord { from: node_idx as int, to: dep_idx as int, edge: edge@ };
            proof {
                assert(link_spec(p, table, entry@) == Ok::<EdgeRecord, ErrorView>(added));
            }
            let weight = self.edges.len();
            graph_add_edge(&mut self.dep_graph, node_idx, dep_idx, weight);
            self.edges.push(edge);
            let count = self.edges.len();
            proof {
                assert(table_before.len() + 1 == count);
                lemma_record_push(
                    graph_before,
                    self.dep_graph,
                    table_before,
                    edge,
                    node_idx,
                    dep_idx,
                    m.packages.len(),
                );
                let so_far = links_spec(p, table, seen)->Ok_0;
                assert(earlier + so_far.push(added) =~= (earlier + so_far).push(added));
            }
            j += 1;
        }
        proof {
            assert(entries.take(j as int) =~= entries);
            assert(package_links_spec(m, done) == links_spec(p, table, entries));
        }
        Ok(
            PackageMetadata::assemble(
                package,
                node_idx,
                in_workspace,
                resolved_deps,
                resolved_features,
            ),
        )
    }
}

} // verus!
