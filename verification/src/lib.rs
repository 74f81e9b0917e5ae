//! Resolution and download-orchestration core for a versioned game
//! distribution: fetching and caching JSON manifests, flattening a resolved
//! version into the set of files that must exist locally, and driving the
//! transfers through a task queue with per-task status reporting.

use vstd::prelude::*;

pub mod client;
pub mod data;
pub mod downloader;
pub mod collect;
pub mod error;
pub mod instance;
pub mod json;
pub mod parse;
pub mod store;
pub mod user;
pub mod version;
pub mod native;
pub mod util;

verus! {

/// Root handle for the launcher: a profile name and the directory under
/// which all caches, libraries, assets and instances live.
#[derive(Clone, Debug)]
pub struct MinecraftAuth {
    pub name: String,
    pub path: String,
}

impl MinecraftAuth {
    pub fn new(name: String, path: String) -> (r: Self)
        ensures
            r.name == name,
            r.path == path,
    {
        Self { name, path }
    }
}

} // verus!
