//! The failures of graph construction and of graph verification. Each one is
//! terminal for the operation that raised it and names the packages involved.

use crate::graph::edge::{kind_str, kind_text};
use crate::metadata::{DependencyKind, PackageId};
use crate::version::{req_text, req_to_string, version_text, version_to_string};
use semver::{Version, VersionReq};
use vstd::prelude::*;
use vstd::string::StringExecFns;

verus! {

#[derive(Debug)]
pub enum Error {
    /// The snapshot holds no resolved dependency data at all.
    NoResolve,
    /// No resolved dependency data was found for a package.
    MissingResolveData { package: PackageId },
    /// No package data was found for the package an entry resolved to.
    MissingPackageData { package: PackageId },
    /// A package resolved to a dependency of which the snapshot holds no
    /// package data, while looking for the requirement that declared it.
    MissingDependencyData { from: PackageId, dependency: PackageId },
    /// None of the requirements that a package declares accounts for one of its
    /// resolved dependencies.
    MissingDependencyInfo { from: PackageId, name: String, dependency: PackageId },
    /// A package declares the same dependency twice for one kind, both times
    /// unconditionally.
    DuplicateDependency { from: PackageId, name: String, kind: DependencyKind },
    /// An edge of the graph carries no requirement of any kind.
    MissingEdgeInfo { from: PackageId, to: PackageId },
    /// The version an edge leads to does not satisfy a requirement of the edge.
    VersionMismatch {
        from: PackageId,
        to: PackageId,
        kind: DependencyKind,
        version: Version,
        req: VersionReq,
    },
}

pub enum ErrorView {
    NoResolve,
    MissingResolveData { package: Seq<char> },
    MissingPackageData { package: Seq<char> },
    MissingDependencyData { from: Seq<char>, dependency: Seq<char> },
    MissingDependencyInfo { from: Seq<char>, name: Seq<char>, dependency: Seq<char> },
    DuplicateDependency { from: Seq<char>, name: Seq<char>, kind: DependencyKind },
    MissingEdgeInfo { from: Seq<char>, to: Seq<char> },
    VersionMismatch {
        from: Seq<char>,
        to: Seq<char>,
        kind: DependencyKind,
        version: Version,
        req: VersionReq,
    },
}

impl View for Error {
    type V = ErrorView;

    open spec fn view(&self) -> ErrorView {
        match *self {
            Error::NoResolve => ErrorView::NoResolve,
            Error::MissingResolveData { package } => ErrorView::MissingResolveData {
                package: package@,
            },
            Error::MissingPackageData { package } => ErrorView::MissingPackageData {
                package: package@,
            },
            Error::MissingDependencyData { from, dependency } => ErrorView::MissingDependencyData {
                from: from@,
                dependency: dependency@,
            },
            Error::MissingDependencyInfo {
                from,
                name,
                dependency,
            } => ErrorView::MissingDependencyInfo {
                from: from@,
                name: name@,
                dependency: dependency@,
            },
            Error::DuplicateDependency { from, name, kind } => ErrorView::DuplicateDependency {
                from: from@,
                name: name@,
                kind,
            },
            Error::MissingEdgeInfo { from, to } => ErrorView::MissingEdgeInfo {
                from: from@,
                to: to@,
            },
            Error::VersionMismatch { from, to, kind, version, req } => ErrorView::VersionMismatch {
                from: from@,
                to: to@,
                kind,
                version,
                req,
            },
        }
    }
}

/// The message of an error.
pub open spec fn message_spec(e: ErrorView) -> Seq<char> {
    match e {
        ErrorView::NoResolve => "no 'resolve' entries found: ensure you don't have no_deps set"@,
        ErrorView::MissingResolveData { package } => "no resolved dependency data found for package '"@
            + package + "'"@,
        ErrorView::MissingPackageData { package } => "no package data found for package '"@
            + package + "'"@,
        ErrorView::MissingDependencyData { from, dependency } => from
            + ": no package data found for dependency '"@ + dependency + "'"@,
        ErrorView::MissingDependencyInfo { from, name, dependency } => from
            + ": no dependency information found for '"@ + name + "', package ID '"@ + dependency
            + "'"@,
        ErrorView::DuplicateDependency { from, name, kind } => from
            + ": duplicate dependencies found for '"@ + name + "' (kind: "@ + kind_text(kind)
            + ")"@,
        ErrorView::MissingEdgeInfo { from, to } => from + " -> "@ + to + ": no edge info found"@,
        ErrorView::VersionMismatch { from, to, kind, version, req } => from + " -> "@ + to
            + " ("@ + kind_text(kind) + "): version ("@ + version_text(version)
            + ") doesn't match requirement ("@ + req_text(req) + ")"@,
    }
}

/// The message about a version that does not satisfy a requirement, from the
/// texts of the two.
pub fn mismatch_message(
    from: &PackageId,
    to: &PackageId,
    kind: DependencyKind,
    version: &str,
    req: &str,
) -> (r: String)
    ensures
        r@ == from@ + " -> "@ + to@ + " ("@ + kind_text(kind) + "): version ("@ + version@
            + ") doesn't match requirement ("@ + req@ + ")"@,
{
    let mut s = from.repr.clone();
    s.append(" -> ");
    s.append(to.repr.as_str());
    s.append(" (");
    s.append(kind_str(kind));
    s.append("): version (");
    s.append(version);
    s.append(") doesn't match requirement (");
    s.append(req);
    s.append(")");
    s
}

impl Error {
    /// The message of the error, naming the packages involved.
    pub fn message(&self) -> (r: String)
        ensures
            r@ == message_spec(self@),
    {
        match self {
            Error::NoResolve => {
                "no 'resolve' entries found: ensure you don't have no_deps set".to_owned()
            },
            Error::MissingResolveData { package } => {
                let mut s = "no resolved dependency data found for package '".to_owned();
                s.append(package.repr.as_str());
                s.append("'");
                s
            },
            Error::MissingPackageData { package } => {
                let mut s = "no package data found for package '".to_owned();
                s.append(package.repr.as_str());
                s.append("'");
                s
            },
            Error::MissingDependencyData { from, dependency } => {
                let mut s = from.repr.clone();
                s.append(": no package data found for dependency '");
                s.append(dependency.repr.as_str());
                s.append("'");
                s
            },
            Error::MissingDependencyInfo { from, name, dependency } => {
                let mut s = from.repr.clone();
                s.append(": no dependency information found for '");
                s.append(name.as_str());
                s.append("', package ID '");
                s.append(dependency.repr.as_str());
                s.append("'");
                s
            },
            Error::DuplicateDependency { from, name, kind } => {
                let mut s = from.repr.clone();
                s.append(": duplicate dependencies found for '");
                s.append(name.as_str());
                s.append("' (kind: ");
                s.append(kind_str(*kind));
                s.append(")");
                s
            },
            Error::MissingEdgeInfo { from, to } => {
                let mut s = from.repr.clone();
                s.append(" -> ");
                s.append(to.repr.as_str());
                s.append(": no edge info found");
                s
            },
            Error::VersionMismatch { from, to, kind, version, req } => {
                let version = version_to_string(version);
                let req = req_to_string(req);
                mismatch_message(from, to, *kind, version.as_str(), req.as_str())
            },
        }
    }

    /// Whether the error reports a graph that contradicts itself, as opposed to
    /// an input no graph can be built from.
    pub fn is_internal(&self) -> (r: bool)
        ensures
            r == (self@ is MissingEdgeInfo || self@ is VersionMismatch),
    {
        match self {
            Error::MissingEdgeInfo { .. } => true,
            Error::VersionMismatch { .. } => true,
            _ => false,
        }
    }
}

} // verus!
