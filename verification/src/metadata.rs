//! The input snapshot a package graph is built from: the packages with their
//! declared dependency requirements, the resolved dependencies of each package,
//! and the workspace members. Every type has a view, a plain mathematical value
//! that the contracts of the library speak of.

use semver::{Version, VersionReq};
use vstd::prelude::*;

verus! {

/// The views of the items of a sequence, in order.
pub open spec fn views<T: View>(items: Seq<T>) -> Seq<T::V> {
    Seq::new(items.len(), |i: int| items[i]@)
}

/// The view of an optional string.
pub open spec fn option_view(text: Option<String>) -> Option<Seq<char>> {
    match text {
        Some(s) => Some(s@),
        None => None,
    }
}

/// A copy of a list of strings.
pub fn clone_strings(items: &Vec<String>) -> (r: Vec<String>)
    ensures
        views(r@) == views(items@),
{
    let r = items.clone();
    proof {
        assert forall|i: int| 0 <= i < items.len() implies r@[i]@ == items@[i]@ by {
            assert(cloned::<String>(items@[i], r@[i]));
        }
        assert(views(r@) =~= views(items@));
    }
    r
}

/// A copy of an optional string.
pub fn clone_option_string(text: &Option<String>) -> (r: Option<String>)
    ensures
        option_view(r) == option_view(*text),
{
    match text {
        Some(s) => Some(s.clone()),
        None => None,
    }
}

/// The globally unique identifier of one resolved package.
#[derive(Debug, PartialEq, Eq, Hash)]
pub struct PackageId {
    pub repr: String,
}

impl View for PackageId {
    type V = Seq<char>;

    open spec fn view(&self) -> Seq<char> {
        self.repr@
    }
}

impl Clone for PackageId {
    fn clone(&self) -> (r: Self)
        ensures
            r@ == self@,
    {
        PackageId { repr: self.repr.clone() }
    }
}

impl PackageId {
    /// The identifier with the given text.
    pub fn new(repr: &str) -> (r: Self)
        ensures
            r@ == repr@,
    {
        PackageId { repr: repr.to_owned() }
    }
}

/// The kind of a declared dependency requirement.
#[derive(Clone, Copy, Debug, PartialEq, Eq, Structural, Hash)]
pub enum DependencyKind {
    /// A normal dependency.
    Normal,
    /// A dependency of tests, examples and benchmarks.
    Development,
    /// A dependency of the build script.
    Build,
    /// A kind this library does not know.
    Unknown,
}

/// One dependency requirement as a package's manifest declares it.
#[derive(Clone, Debug)]
pub struct Dependency {
    /// The name of the crate depended on.
    pub name: String,
    /// The name it is used under, where the manifest renames it.
    pub rename: Option<String>,
    /// The versions accepted.
    pub req: VersionReq,
    pub kind: DependencyKind,
    pub optional: bool,
    pub uses_default_features: bool,
    pub features: Vec<String>,
    /// The conditional-compilation expression that gates the requirement;
    /// `None` where it applies unconditionally.
    pub target: Option<String>,
}

pub struct DependencyView {
    pub name: Seq<char>,
    pub rename: Option<Seq<char>>,
    pub req: VersionReq,
    pub kind: DependencyKind,
    pub optional: bool,
    pub uses_default_features: bool,
    pub features: Seq<Seq<char>>,
    pub target: Option<Seq<char>>,
}

impl View for Dependency {
    type V = DependencyView;

    open spec fn view(&self) -> DependencyView {
        DependencyView {
            name: self.name@,
            rename: option_view(self.rename),
            req: self.req,
            kind: self.kind,
            optional: self.optional,
            uses_default_features: self.uses_default_features,
            features: views(self.features@),
            target: option_view(self.target),
        }
    }
}

/// One package of the snapshot.
#[derive(Clone, Debug)]
pub struct Package {
    pub id: PackageId,
    pub name: String,
    pub version: Version,
    pub authors: Vec<String>,
    pub description: Option<String>,
    pub license: Option<String>,
    pub dependencies: Vec<Dependency>,
}

pub struct PackageView {
    pub id: Seq<char>,
    pub name: Seq<char>,
    pub version: Version,
    pub authors: Seq<Seq<char>>,
    pub description: Option<Seq<char>>,
    pub license: Option<Seq<char>>,
    pub dependencies: Seq<DependencyView>,
}

impl View for Package {
    type V = PackageView;

    open spec fn view(&self) -> PackageView {
        PackageView {
            id: self.id@,
            name: self.name@,
            version: self.version,
            authors: views(self.authors@),
            description: option_view(self.description),
            license: option_view(self.license),
            dependencies: views(self.dependencies@),
        }
    }
}

/// One resolved dependency of a package: the name the package uses it under
/// and the package it resolved to.
#[derive(Clone, Debug)]
pub struct NodeDep {
    pub name: String,
    pub pkg: PackageId,
}

pub struct NodeDepView {
    pub name: Seq<char>,
    pub pkg: Seq<char>,
}

impl View for NodeDep {
    type V = NodeDepView;

    open spec fn view(&self) -> NodeDepView {
        NodeDepView { name: self.name@, pkg: self.pkg@ }
    }
}

/// The resolved data of one package.
#[derive(Clone, Debug)]
pub struct Node {
    pub id: PackageId,
    pub deps: Vec<NodeDep>,
    pub features: Vec<String>,
}

pub struct NodeView {
    pub id: Seq<char>,
    pub deps: Seq<NodeDepView>,
    pub features: Seq<Seq<char>>,
}

impl View for Node {
    type V = NodeView;

    open spec fn view(&self) -> NodeView {
        NodeView { id: self.id@, deps: views(self.deps@), features: views(self.features@) }
    }
}

/// The resolved dependency data of the whole snapshot.
#[derive(Clone, Debug)]
pub struct Resolve {
    pub nodes: Vec<Node>,
}

impl View for Resolve {
    type V = Seq<NodeView>;

    open spec fn view(&self) -> Seq<NodeView> {
        views(self.nodes@)
    }
}

/// The whole snapshot.
#[derive(Clone, Debug)]
pub struct Metadata {
    pub packages: Vec<Package>,
    pub resolve: Option<Resolve>,
    pub workspace_members: Vec<PackageId>,
}

pub struct MetadataView {
    pub packages: Seq<PackageView>,
    pub resolve: Option<Seq<NodeView>>,
    pub workspace_members: Seq<Seq<char>>,
}

impl View for Metadata {
    type V = MetadataView;

    open spec fn view(&self) -> MetadataView {
        MetadataView {
            packages: views(self.packages@),
            resolve: match self.resolve {
                Some(r) => Some(r@),
                None => None,
            },
            workspace_members: views(self.workspace_members@),
        }
    }
}

} // verus!
