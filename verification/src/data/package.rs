//! The per-version package descriptor.

use vstd::prelude::*;
use crate::data::asset::AssetIndex;
use crate::data::download::Artifact;
use crate::data::java::JavaVersion;
use crate::data::library::Library;

verus! {

/// The resolved per-version manifest: immutable once fetched; it is
/// re-fetched only on a cache miss.
#[derive(Debug, Clone, PartialEq)]
pub struct Package {
    pub asset_index: AssetIndex,
    pub assets: String,
    pub compliance_level: i32,
    pub downloads: Downloads,
    pub id: String,
    pub java_version: JavaVersion,
    pub libraries: Vec<Library>,
    pub main_class: String,
    pub t: String,
}

/// The client and server artifacts of a package descriptor.
#[derive(Debug, Clone, PartialEq)]
pub struct Downloads {
    pub client: Artifact,
    pub server: Artifact,
}

} // verus!
