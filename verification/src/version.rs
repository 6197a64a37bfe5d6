//! Semantic versions and the compatibility check between a plugin's declared
//! requirement and the host.

use vstd::prelude::*;

verus! {

/// Whether `semver::Version::parse` accepts `text`.
pub uninterp spec fn semver_version_parses(text: Seq<char>) -> bool;

/// Whether `semver::VersionReq::parse` accepts `text`.
pub uninterp spec fn semver_req_parses(text: Seq<char>) -> bool;

/// Whether the requirement that `semver::VersionReq::parse` reads from
/// `requirement` matches, by `semver::VersionReq::matches`, the release
/// `major.minor.patch`. It is false where the text is no requirement.
pub uninterp spec fn semver_req_admits(
    requirement: Seq<char>,
    major: u64,
    minor: u64,
    patch: u64,
) -> bool;

/// A released version: no pre-release tag, no build metadata.
#[derive(Clone, Copy, Debug, PartialEq, Eq, Structural)]
pub struct Version {
    pub major: u64,
    pub minor: u64,
    pub patch: u64,
}

/// The outcome of holding a requirement against a version.
#[derive(Clone, Copy, Debug, PartialEq, Eq, Structural)]
pub enum Compatibility {
    /// The requirement is well formed and the version satisfies it.
    Compatible,
    /// The requirement is well formed and the version does not satisfy it.
    Unmet,
    /// The text is no requirement at all.
    Invalid,
}

/// Calls `semver::Version::parse` and reports whether it succeeded.
#[verifier::external_body]
pub(crate) fn version_parses(text: &str) -> (ok: bool)
    ensures
        ok == semver_version_parses(text@),
{
    semver::Version::parse(text).is_ok()
}

/// Calls `semver::VersionReq::parse` and reports whether it succeeded.
#[verifier::external_body]
pub(crate) fn requirement_parses(text: &str) -> (ok: bool)
    ensures
        ok == semver_req_parses(text@),
{
    semver::VersionReq::parse(text).is_ok()
}

/// Calls `semver::VersionReq::matches` on the requirement parsed from `text`
/// and the version `major.minor.patch`; text that does not parse is reported
/// as not matching.
#[verifier::external_body]
pub(crate) fn requirement_admits(text: &str, major: u64, minor: u64, patch: u64) -> (ok: bool)
    ensures
        ok == semver_req_admits(text@, major, minor, patch),
{
    match semver::VersionReq::parse(text) {
        Ok(requirement) => requirement.matches(&semver::Version::new(major, minor, patch)),
        Err(_) => false,
    }
}

/// What follows from the two facts about a requirement: whether it is well
/// formed, and whether it matches.
pub open spec fn verdict(parses: bool, admits: bool) -> Compatibility {
    if !parses {
        Compatibility::Invalid
    } else if admits {
        Compatibility::Compatible
    } else {
        Compatibility::Unmet
    }
}

/// The compatibility of `requirement` with `version`.
pub open spec fn compatibility(requirement: Seq<char>, version: Version) -> Compatibility {
    verdict(
        semver_req_parses(requirement),
        semver_req_admits(requirement, version.major, version.minor, version.patch),
    )
}

/// Turns the two facts about a requirement into a verdict. A malformed
/// requirement is reported as such whether or not it is said to match.
pub fn judge(parses: bool, admits: bool) -> (outcome: Compatibility)
    ensures
        outcome == verdict(parses, admits),
{
    if !parses {
        Compatibility::Invalid
    } else if admits {
        Compatibility::Compatible
    } else {
        Compatibility::Unmet
    }
}

impl Version {
    /// The release `major.minor.patch`.
    pub fn new(major: u64, minor: u64, patch: u64) -> (version: Version)
        ensures
            version == (Version { major, minor, patch }),
    {
        Version { major, minor, patch }
    }

    /// Holds `requirement` against this version.
    pub fn check(&self, requirement: &str) -> (outcome: Compatibility)
        ensures
            outcome == compatibility(requirement@, *self),
    {
        let parses = requirement_parses(requirement);
        let admits = requirement_admits(requirement, self.major, self.minor, self.patch);
        judge(parses, admits)
    }
}

/// The version of the plugin interface that this library implements.
pub fn api_version() -> (version: Version)
    ensures
        version == (Version { major: 0, minor: 1, patch: 0 }),
{
    Version { major: 0, minor: 1, patch: 0 }
}

} // verus!
