//! The error taxonomy of the library.
//!
//! Manifest and resolution errors abort a whole resolve call; download-task
//! errors are isolated to their own task and reported through the status
//! stream of the task queue.

use vstd::prelude::*;

verus! {

/// Everything that can go wrong while resolving a version or transferring
/// its files.
#[derive(Debug, PartialEq)]
pub enum Error {
    /// A request failed or returned a non-success status. Retryable by the
    /// caller; the library itself never retries.
    NetworkError(String),
    /// A manifest body is not valid structured data, or lacks a required
    /// field. Not retryable.
    MalformedManifest(String),
    /// A directory or file could not be created or written.
    FilesystemError(String),
    /// A downloaded file's size or content hash disagrees with the
    /// manifest-declared value.
    IntegrityMismatch,
    /// A task's network operation ran out of time; it fails that task
    /// alone.
    Timeout,
    /// The requested version id is absent from the version catalog.
    VersionNotFound(String),
    /// A library entry offers neither a generic artifact nor a native
    /// classifier for the running platform. A soft, per-library condition:
    /// it omits one library instead of aborting the run.
    LibraryUnresolvable(String),
    /// Anything else, carried as a plain message.
    Other(String),
}

impl Clone for Error {
    fn clone(&self) -> (r: Self)
        ensures
            r == *self,
    {
        match self {
            Error::NetworkError(m) => Error::NetworkError(m.clone()),
            Error::MalformedManifest(m) => Error::MalformedManifest(m.clone()),
            Error::FilesystemError(m) => Error::FilesystemError(m.clone()),
            Error::IntegrityMismatch => Error::IntegrityMismatch,
            Error::Timeout => Error::Timeout,
            Error::VersionNotFound(m) => Error::VersionNotFound(m.clone()),
            Error::LibraryUnresolvable(m) => Error::LibraryUnresolvable(m.clone()),
            Error::Other(m) => Error::Other(m.clone()),
        }
    }
}

impl Error {
    /// A human-readable label for the error category.
    pub fn category(&self) -> (r: &'static str)
        ensures
            r@ == match *self {
                Error::NetworkError(_) => "network error"@,
                Error::MalformedManifest(_) => "malformed manifest"@,
                Error::FilesystemError(_) => "filesystem error"@,
                Error::IntegrityMismatch => "integrity mismatch"@,
                Error::Timeout => "timeout"@,
                Error::VersionNotFound(_) => "version not found"@,
                Error::LibraryUnresolvable(_) => "library unresolvable"@,
                Error::Other(_) => "error"@,
            },
    {
        match self {
            Error::NetworkError(_) => "network error",
            Error::MalformedManifest(_) => "malformed manifest",
            Error::FilesystemError(_) => "filesystem error",
            Error::IntegrityMismatch => "integrity mismatch",
            Error::Timeout => "timeout",
            Error::VersionNotFound(_) => "version not found",
            Error::LibraryUnresolvable(_) => "library unresolvable",
            Error::Other(_) => "error",
        }
    }
}

} // verus!
