//! The error taxonomy: every fatal failure of the toolchain maps to exactly
//! one kind, together with a human-readable message.

use vstd::prelude::*;

verus! {

/// The closed set of fatal error categories.
#[derive(Clone, Copy, Debug, PartialEq, Eq, Structural)]
pub enum ErrorKind {
    /// Missing or empty required manifest field, illegal character class, or
    /// an unparseable channel, platform or dependency spec.
    ManifestInvalid,
    /// The validator rejected an existing lockfile.
    LockStale,
    /// A lockfile was required but none exists.
    LockMissing,
    /// The solver reported unsatisfiable constraints or an empty universe.
    SolveFailed,
    /// Network error, non-success response, or digest mismatch on download.
    FetchFailed,
    /// Filesystem failure while staging or indexing.
    StagingFailed,
    /// A featured package is absent from the resolved set or unparseable.
    MetadataInvalid,
    /// Installer trailer magic mismatch, zero length field, or offset underflow.
    ImageCorrupt,
    /// Bundle root ambiguous, source packages present, component files
    /// missing, or the current platform not represented.
    PayloadInvalid,
    /// The downstream installer library rejected the transaction.
    InstallFailed,
    /// No container engine is available although one is required.
    EngineMissing,
}

/// A fatal error: a kind from the closed taxonomy plus a message with enough
/// context to be actionable.
#[derive(Clone, Debug)]
pub struct DistError {
    pub kind: ErrorKind,
    pub message: String,
}

impl DistError {
    /// Build an error of the given kind carrying the given message.
    pub fn new(kind: ErrorKind, message: String) -> (r: DistError)
        ensures
            r.kind == kind,
            r.message == message,
    {
        DistError { kind, message }
    }

    /// The category of this error.
    pub fn kind(&self) -> (r: ErrorKind)
        ensures
            r == self.kind,
    {
        self.kind
    }

    /// The human-readable message of this error.
    pub fn message(&self) -> (r: &String)
        ensures
            r == self.message,
    {
        &self.message
    }
}

} // verus!
