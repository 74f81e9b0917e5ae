//! Naming of the platform-specific ("native") classifier keys used by
//! library manifests.

use vstd::prelude::*;

verus! {

/// The platforms a native library classifier can target.
#[derive(Clone, Copy, Debug, PartialEq, Eq, Structural)]
pub enum OsKind {
    Linux,
    Windows,
    MacOs,
}

/// The classifier key under which a library manifest lists the native
/// artifact for the given platform.
pub open spec fn os_native_name_spec(os: OsKind) -> Seq<char> {
    match os {
        OsKind::Linux => "natives-linux"@,
        OsKind::Windows => "natives-windows"@,
        OsKind::MacOs => "natives-osx"@,
    }
}

pub fn os_native_name(os: OsKind) -> (r: &'static str)
    ensures
        r@ == os_native_name_spec(os),
{
    match os {
        OsKind::Linux => "natives-linux",
        OsKind::Windows => "natives-windows",
        OsKind::MacOs => "natives-osx",
    }
}

} // verus!
