//! Error taxonomy of the core.
//!
//! Validation failures (a malformed breakpoint label, a malformed
//! `path:name` library token, a token that resolves to no artifact) are
//! fatal to the triggering call only. `MissingDependencies` is a
//! user-recoverable outcome that enumerates every still-missing library.
//! `SourceUnreadable` aborts a whole ingestion call. A duplicate
//! registration is not an error and has no variant here.

use vstd::prelude::*;

verus! {

/// A typed failure returned by the core's operations.
#[derive(Debug, Clone, PartialEq, Eq)]
pub enum CoreError {
    /// A breakpoint label that is not exactly one alphabetic character.
    InvalidBreakpointLabel(String),
    /// A library token that does not split into exactly two non-empty
    /// parts on the `:` separator.
    MalformedLibraryToken(String),
    /// A library token whose `path:name` pair resolves to no artifact in
    /// the build output it came from.
    UnknownLibraryArtifact(String),
    /// Libraries are still unresolved after a build round. Carries every
    /// missing `path:name` pair; the operator deploys each and re-supplies
    /// its address.
    MissingDependencies(Vec<String>),
    /// A source file referenced by a build could not be read.
    SourceUnreadable(String),
    /// The verification target has no artifact in the supplied output.
    TargetArtifactNotFound(String),
    /// The verification target's artifact has no ABI.
    TargetAbiMissing(String),
    /// The verification target's artifact has no metadata.
    TargetMetadataMissing(String),
    /// A required compiler version is not installed and cannot be
    /// fetched while offline; carries the version's components.
    ToolUnavailableOffline(u64, u64, u64),
    /// A configured compiler path does not point at a file.
    ToolPathMissing(String),
}

} // verus!
