//! Version requirements, evaluated through the semver crate.
//!
//! The store keeps a peer-declared version requirement as its stored text;
//! whether a plain `major.minor.patch` version satisfies it is decided by
//! semver. Both parsing and matching are deterministic in the text and the
//! version, so their results are named and the trusted contracts speak of
//! the names.

use vstd::prelude::*;

verus! {

#[verifier::external_type_specification]
#[verifier::external_body]
pub struct ExVersionReq(semver::VersionReq);

#[verifier::external_type_specification]
#[verifier::external_body]
pub struct ExSemverError(semver::Error);

/// Whether `text` parses as a version requirement.
pub uninterp spec fn req_parses(text: Seq<char>) -> bool;

/// The text a parsed version requirement was parsed from.
pub uninterp spec fn req_text(req: semver::VersionReq) -> Seq<char>;

/// Whether the version `major.minor.patch` (no pre-release, no build
/// metadata) satisfies the requirement written as `text`.
pub uninterp spec fn req_matches(text: Seq<char>, major: u64, minor: u64, patch: u64) -> bool;

/// Relies on `semver::VersionReq::parse`: whether parsing succeeds, and
/// what requirement comes back, depend on the text alone.
#[verifier::external_body]
pub(crate) fn parse_version_req(text: &str) -> (r: Result<semver::VersionReq, semver::Error>)
    ensures
        r is Ok <==> req_parses(text@),
        r matches Ok(q) ==> req_text(q) == text@,
{
    semver::VersionReq::parse(text)
}

/// Relies on `semver::VersionReq::matches`: whether a version satisfies a
/// requirement depends on the requirement and the version alone.
#[verifier::external_body]
pub(crate) fn version_req_matches(req: &semver::VersionReq, major: u64, minor: u64, patch: u64) -> (r:
    bool)
    ensures
        r == req_matches(req_text(*req), major, minor, patch),
{
    req.matches(&semver::Version::new(major, minor, patch))
}

} // verus!
