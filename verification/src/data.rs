//! The typed entities that manifests are parsed into: the version catalog,
//! the per-version package descriptor, library and artifact records, and the
//! asset index.

pub mod argument;
pub mod asset;
pub mod download;
pub mod java;
pub mod library;
pub mod package;
pub mod version;
