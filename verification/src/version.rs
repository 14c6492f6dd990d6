//! Versions and version requirements. Both are values of the `semver` crate,
//! which this library carries through unchanged; the only question it ever asks
//! of them is whether a version satisfies a requirement.

use semver::{Version, VersionReq};
use vstd::prelude::*;

verus! {

/// A version as `semver` holds it. Carried as it is.
#[verifier::external_type_specification]
#[verifier::external_body]
pub struct ExVersion(semver::Version);

/// A version requirement as `semver` holds it. Carried as it is.
#[verifier::external_type_specification]
#[verifier::external_body]
pub struct ExVersionReq(semver::VersionReq);

/// Whether `version` satisfies `req`, as `semver` decides it.
pub uninterp spec fn req_admits(req: VersionReq, version: Version) -> bool;

/// The text that `semver` writes a version as.
pub uninterp spec fn version_text(version: Version) -> Seq<char>;

/// The text that `semver` writes a requirement as.
pub uninterp spec fn req_text(req: VersionReq) -> Seq<char>;

/// Formats a version by its `Display` impl. Trusted: the text depends on the
/// version alone.
#[verifier::external_body]
pub(crate) fn version_to_string(version: &Version) -> (r: String)
    ensures
        r@ == version_text(*version),
{
    version.to_string()
}

/// Formats a requirement by its `Display` impl. Trusted: the text depends on
/// the requirement alone.
#[verifier::external_body]
pub(crate) fn req_to_string(req: &VersionReq) -> (r: String)
    ensures
        r@ == req_text(*req),
{
    req.to_string()
}

/// `Clone` for `semver::Version` is derived: the copy is the same version.
pub assume_specification[ <Version as Clone>::clone ](version: &Version) -> (res: Version)
    ensures
        res == *version,
;

/// `Clone` for `semver::VersionReq` is derived: the copy is the same requirement.
pub assume_specification[ <VersionReq as Clone>::clone ](req: &VersionReq) -> (res: VersionReq)
    ensures
        res == *req,
;

/// Calls `semver::VersionReq::matches`. Trusted: the answer depends on the
/// requirement and the version alone.
#[verifier::external_body]
pub(crate) fn version_matches(req: &VersionReq, version: &Version) -> (r: bool)
    ensures
        r == req_admits(*req, *version),
{
    req.matches(version)
}

} // verus!
