//! Download targets of a library: a generic artifact and/or per-platform
//! native classifiers.

use vstd::prelude::*;

verus! {

/// The downloadable targets a library offers.
#[derive(Debug, Clone, PartialEq)]
pub struct Download {
    pub artifact: Option<Artifact>,
    pub classifiers: Option<Classifier>,
}

/// One downloadable file: its repository-relative path (when the manifest
/// gives one), its declared content hash, size and URL.
#[derive(Debug, PartialEq)]
pub struct Artifact {
    pub path: Option<String>,
    pub sha1: String,
    pub size: u64,
    pub url: String,
}

/// A library's classifier entry: either directly one artifact, or a map
/// from platform key (for example `natives-linux`) to the artifact built
/// for that platform.
#[derive(Debug, Clone, PartialEq)]
pub enum Classifier {
    Simple(Artifact),
    Complex(Vec<(String, Artifact)>),
}

impl Clone for Artifact {
    fn clone(&self) -> (r: Self)
        ensures
            r == *self,
    {
        let path = match &self.path {
            Some(p) => Some(p.clone()),
            None => None,
        };
        Artifact { path, sha1: self.sha1.clone(), size: self.size, url: self.url.clone() }
    }
}

} // verus!
