use vstd::prelude::*;

verus! {

/// The ways a run can fail. Every one of them ends the run.
#[derive(PartialEq, Eq, Structural, Clone, Copy, Debug)]
pub enum ErrorKind {
    /// The invocation lacks the image or the command.
    Usage,
    /// The image reference has more than one `:` separator.
    InvalidReference,
    /// The pull token could not be obtained or decoded.
    Auth,
    /// The manifest could not be fetched or decoded.
    Manifest,
    /// A layer blob could not be fetched.
    BlobFetch,
    /// A layer could not be decompressed, read or written, or one of its
    /// entries points outside the extraction root.
    Extraction,
    /// The root could not be prepared or entered.
    Setup,
    /// The command could not be started.
    Spawn,
}

} // verus!
