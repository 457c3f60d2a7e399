//! Semantic versions in text form

use vstd::prelude::*;

verus! {

/// The major, minor and patch number of the version that `semver::Version::parse`
/// makes of a text, and whether it is a pre-release, or none if the text is no
/// version
pub uninterp spec fn version_parts(text: Seq<char>) -> Option<(u64, u64, u64, bool)>;

/// Whether a version comes before a release: by its numbers, and with the same
/// numbers if it is a pre-release
pub open spec fn precedes(version: (u64, u64, u64, bool), release: (u64, u64, u64)) -> bool {
    ||| version.0 < release.0
    ||| version.0 == release.0 && version.1 < release.1
    ||| version.0 == release.0 && version.1 == release.1 && version.2 < release.2
    ||| version.0 == release.0 && version.1 == release.1 && version.2 == release.2 && version.3
}

/// `semver::Version::parse` and the order of `semver::Version`: whether the
/// version that a text spells is less than a release, or none if the text is no
/// version. The numbers are a function of the text. Versions are ordered by
/// their numbers, and a pre-release is less than the release with its numbers.
/// Build metadata makes no version less than one without.
#[verifier::external_body]
pub(crate) fn precedes_release(text: &str, major: u64, minor: u64, patch: u64) -> (result: Option<
    bool,
>)
    ensures
        match result {
            Some(result) => version_parts(text@) is Some && result == precedes(
                version_parts(text@)->0,
                (major, minor, patch),
            ),
            None => version_parts(text@) is None,
        },
{
    match semver::Version::parse(text) {
        Ok(version) => Some(version < semver::Version::new(major, minor, patch)),
        Err(_) => None,
    }
}

/// A release does not come before itself, its pre-releases do, and what does not
/// come before a release has no successor that does
pub proof fn law_version_order(
    version: (u64, u64, u64, bool),
    newer: (u64, u64, u64, bool),
    release: (u64, u64, u64),
)
    ensures
        !precedes((release.0, release.1, release.2, false), release),
        precedes((release.0, release.1, release.2, true), release),
        !precedes(version, release) && precedes(version, (newer.0, newer.1, newer.2))
            ==> !precedes(newer, release),
{
}

} // verus!
