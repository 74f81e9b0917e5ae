//! The asset index and its content-addressed objects.

use vstd::prelude::*;

verus! {

/// One content-addressed resource: its hex content hash and its size in
/// bytes. Its storage path is deterministic: the first two hash characters
/// form a shard directory and the full hash is the file name, so a hash
/// always has at least two characters.
#[derive(Debug, Clone, PartialEq)]
pub struct Asset {
    pub hash: String,
    pub size: u64,
}

/// The reference to an asset index inside a package descriptor: where to
/// fetch it and what to expect of it.
#[derive(Debug, PartialEq)]
pub struct AssetIndex {
    pub id: String,
    pub sha1: String,
    pub size: u64,
    pub total_size: u64,
    pub url: String,
}

/// A resolved asset index: each logical asset name mapped to its object.
/// Names are unique within one index.
#[derive(Debug, Clone, PartialEq)]
pub struct Assets {
    pub objects: Vec<(String, Asset)>,
}

impl Clone for AssetIndex {
    fn clone(&self) -> (r: Self)
        ensures
            r == *self,
    {
        AssetIndex {
            id: self.id.clone(),
            sha1: self.sha1.clone(),
            size: self.size,
            total_size: self.total_size,
            url: self.url.clone(),
        }
    }
}

} // verus!
