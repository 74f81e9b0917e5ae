//! One dependency of a version: its logical name and download targets.

use vstd::prelude::*;
use crate::data::download::Download;

verus! {

/// One library a version depends on, possibly with per-platform natives.
#[derive(Debug, Clone, PartialEq)]
pub struct Library {
    pub downloads: Download,
    pub name: String,
}

} // verus!
