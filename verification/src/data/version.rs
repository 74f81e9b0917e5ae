//! Entries of the top-level version catalog.

use vstd::prelude::*;

verus! {

/// One entry in the master version list: a version id, its release kind,
/// and the URL of its package descriptor.
#[derive(Debug, Clone, PartialEq)]
pub struct Version {
    pub id: String,
    pub t: String,
    pub url: String,
}

/// The version catalog: the latest release/snapshot ids and every known
/// version entry.
#[derive(Debug, Clone, PartialEq)]
pub struct ManifestVersion {
    pub latest: Latest,
    pub versions: Vec<Version>,
}

/// The ids of the most recent release and snapshot.
#[derive(Debug, Clone, PartialEq)]
pub struct Latest {
    pub release: String,
    pub snapshot: String,
}

} // verus!
