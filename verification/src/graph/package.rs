//! What the graph holds of each package.

use crate::graph::model::PackageMetadataView;
use crate::metadata::{option_view, views, Dependency, NodeDep, Package, PackageId};
use semver::Version;
use vstd::prelude::*;

verus! {

/// One package of the graph.
#[derive(Clone, Debug)]
pub struct PackageMetadata {
    // What the snapshot says of the package.
    pub(crate) id: PackageId,
    pub(crate) name: String,
    pub(crate) version: Version,
    pub(crate) authors: Vec<String>,
    pub(crate) description: Option<String>,
    pub(crate) license: Option<String>,
    pub(crate) deps: Vec<Dependency>,
    // What the builder adds.
    pub(crate) node_idx: usize,
    pub(crate) in_workspace: bool,
    pub(crate) resolved_deps: Vec<NodeDep>,
    pub(crate) resolved_features: Vec<String>,
}

impl View for PackageMetadata {
    type V = PackageMetadataView;

    closed spec fn view(&self) -> PackageMetadataView {
        PackageMetadataView {
            id: self.id@,
            name: self.name@,
            version: self.version,
            authors: views(self.authors@),
            description: option_view(self.description),
            license: option_view(self.license),
            deps: views(self.deps@),
            node_idx: self.node_idx as int,
            in_workspace: self.in_workspace,
            resolved_deps: views(self.resolved_deps@),
            resolved_features: views(self.resolved_features@),
        }
    }
}

impl PackageMetadata {
    /// Puts together what the snapshot says of a package and what the builder
    /// found out about it.
    pub(crate) fn assemble(
        package: Package,
        node_idx: usize,
        in_workspace: bool,
        resolved_deps: Vec<NodeDep>,
        resolved_features: Vec<String>,
    ) -> (r: Self)
        ensures
            r@ == (PackageMetadataView {
                id: package@.id,
                name: package@.name,
                version: package@.version,
                authors: package@.authors,
                description: package@.description,
                license: package@.license,
                deps: package@.dependencies,
                node_idx: node_idx as int,
                in_workspace,
                resolved_deps: views(resolved_deps@),
                resolved_features: views(resolved_features@),
            }),
    {
        PackageMetadata {
            id: package.id,
            name: package.name,
            version: package.version,
            authors: package.authors,
            description: package.description,
            license: package.license,
            deps: package.dependencies,
            node_idx,
            in_workspace,
            resolved_deps,
            resolved_features,
        }
    }

    /// The handle of the package in the graph.
    pub(crate) fn node_idx(&self) -> (r: usize)
        ensures
            r == self@.node_idx,
    {
        self.node_idx
    }

    pub fn id(&self) -> (r: &PackageId)
        ensures
            r@ == self@.id,
    {
        &self.id
    }

    pub fn name(&self) -> (r: &str)
        ensures
            r@ == self@.name,
    {
        self.name.as_str()
    }

    pub fn version(&self) -> (r: &Version)
        ensures
            *r == self@.version,
    {
        &self.version
    }

    pub fn authors(&self) -> (r: &[String])
        ensures
            views(r@) == self@.authors,
    {
        self.authors.as_slice()
    }

    pub fn description(&self) -> (r: Option<&str>)
        ensures
            match r {
                Some(t) => self@.description == Some(t@),
                None => self@.description is None,
            },
    {
        match &self.description {
            Some(t) => Some(t.as_str()),
            None => None,
        }
    }

    pub fn license(&self) -> (r: Option<&str>)
        ensures
            match r {
                Some(t) => self@.license == Some(t@),
                None => self@.license is None,
            },
    {
        match &self.license {
            Some(t) => Some(t.as_str()),
            None => None,
        }
    }
}

} // verus!
