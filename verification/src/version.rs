use semver::Version;
use vstd::prelude::*;

verus! {

/// `semver::Version`, which a registry keeps and never looks into.
#[verifier::external_type_specification]
#[verifier::external_body]
pub struct ExVersion(Version);

/// The version that `semver::Version::new` makes of three numbers.
pub uninterp spec fn plain_version(major: u64, minor: u64, patch: u64) -> Version;

/// `semver::Version::new` puts the three numbers into a version whose
/// pre-release and build metadata are empty: the same numbers give the same
/// version.
pub assume_specification[ Version::new ](major: u64, minor: u64, patch: u64) -> (version: Version)
    ensures
        version == plain_version(major, minor, patch),
;

/// `clone` of `semver::Version`, derived over every field: the copy is the
/// same value as the version it was made from.
pub assume_specification[ <Version as Clone>::clone ](version: &Version) -> (copy: Version)
    ensures
        copy == *version,
;

} // verus!
