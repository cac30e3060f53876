use vstd::prelude::*;

verus! {

/// Failure taxonomy of the backup pipeline.
///
/// The data-level conditions — a failed authentication tag, a malformed
/// persisted document, an unknown algorithm or container name — come out
/// of the library's own functions.  The environment-level conditions
/// (paths, I/O, key derivation) are classified here too, so that the
/// surrounding code reports every failure of a job under one type.
/// An out-of-range compression level is recovered locally by
/// substituting the kind's default and is non-fatal; its variant exists
/// for reporting.
#[derive(Clone, Debug, PartialEq, Eq, Structural)]
pub enum ArchiveError {
    /// A source or destination path is missing and cannot be created,
    /// or a collected file does not lie under the source root.
    PathInvalid,
    /// The requested container kind is none of the supported kinds.
    UnsupportedContainerKind,
    /// A compression level outside the valid range for the chosen kind.
    InvalidCompressionLevel,
    /// A local I/O operation failed; fatal for the current job.
    IOFailure,
    /// The password-based key derivation failed.
    KeyDerivationFailure,
    /// Authenticated decryption failed: wrong password or corrupted data.
    AEADFailure,
    /// A recomputed digest does not match the recorded one.
    ChecksumMismatch,
    /// The persisted state document is malformed.
    StateCorruption,
    /// An algorithm name that none of the supported algorithms carries.
    UnknownAlgorithm,
}

} // verus!
