//! The user-facing error taxonomy.
//!
//! Every expected failure of the library carries one of these kinds, so
//! callers can match on the exact condition instead of a generic error.

use vstd::prelude::*;

verus! {

/// An expected, user-facing failure.
///
/// Each variant keeps its specific kind through the whole call chain;
/// none is ever collapsed into a generic I/O error.
#[derive(Debug, Clone, PartialEq, Eq)]
pub enum Error {
    /// An option name that is not among the recognized option names.
    InvalidOptionName { name: String },
    /// An option that is not in `key=value` form.
    MalformedOption { option: String },
    /// The target source file of a new install already exists.
    NewSourceFileAlreadyExists { path: String },
    /// An operation was refused for lack of permissions.
    PermissionDenied,
    /// A one-line-style source entry that does not follow the grammar,
    /// with a human-readable reason.
    MalformedOneLineEntry { reason: String },
    /// A signing key reference that is neither a URL nor an existing path.
    InvalidKeyLocation { path: String },
    /// A signing key could not be downloaded.
    KeyDownloadFailed { url: String, reason: String },
    /// The reserved `Signed-By` option was written twice.
    ConflictingKeyLocations,
    /// A signing key could not be fetched from a keyserver.
    KeyserverFetchFailed { id: String, reason: String },
    /// The GnuPG binary was not found.
    GnupgNotFound { path: String },
    /// Data that is not a valid PGP key.
    NotPgpKey { key: String },
    /// The legacy file to convert does not exist.
    ConvertInFileNotFound { path: String },
    /// The destination of a conversion already exists.
    ConvertOutFileAlreadyExists { path: String },
    /// The backup destination of a conversion already exists.
    ConvertBackupAlreadyExists { path: String },
    /// The distribution version codename could not be determined.
    CouldNotInferSuite,
}

} // verus!
