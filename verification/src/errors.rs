//! The error taxonomy of the build pipeline.  Every error is fatal for the
//! whole run; nothing is caught and retried.

use vstd::prelude::*;

verus! {

/// One terminal failure of a build run.
#[derive(Debug)]
pub enum BuildError {
    /// The recipe document is malformed or incomplete.
    ParseError,
    /// A source URL yields no derivable filename.
    NameError { url: String },
    /// A network or I/O failure while downloading the named URL.
    TransportError { url: String },
    /// A declared checksum does not match the named file.
    MismatchError { filename: String },
    /// Archive extraction failed for the named file.
    ExtractError { filename: String },
    /// A stage script exited with a non-zero status.
    StageFailure { stage: String, subpackage: Option<String> },
    /// The archive-creation invocation failed.
    AssemblyError,
    /// A staging directory could not be created or removed.
    FilesystemError,
}

} // verus!
