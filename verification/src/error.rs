//! What can go wrong.

use vstd::prelude::*;

verus! {

/// The classes of error.
#[derive(Clone, Copy, Debug, PartialEq, Eq, Structural)]
pub enum ErrorKind {
    /// A file was missing or could not be read as text.
    Read,
    /// The HTTP client could not be built.
    Construction,
    /// The exchange with the endpoint did not complete.
    Transport,
}

/// An error of the library. A response with a status outside 200 to 299 is
/// none: see [`crate::delivery::DeliveryOutcome`].
#[derive(Debug, PartialEq, Eq)]
pub enum SenderError {
    /// The file at `path` does not exist.
    FileMissing { path: String },
    /// The file at `path` could not be read as text.
    FileUnreadable { path: String, reason: String },
    /// The HTTP client could not be built.
    Construction { reason: String },
    /// The request was not answered: the network could not be reached, the
    /// time ran out, or the connection or its encryption failed.
    Transport { reason: String },
}

impl SenderError {
    /// The class of the error.
    pub open spec fn spec_kind(&self) -> ErrorKind {
        match self {
            SenderError::FileMissing { .. } => ErrorKind::Read,
            SenderError::FileUnreadable { .. } => ErrorKind::Read,
            SenderError::Construction { .. } => ErrorKind::Construction,
            SenderError::Transport { .. } => ErrorKind::Transport,
        }
    }

    /// The class of the error.
    #[verifier::when_used_as_spec(spec_kind)]
    pub fn kind(&self) -> (kind: ErrorKind)
        ensures
            kind == self.spec_kind(),
    {
        match self {
            SenderError::FileMissing { .. } => ErrorKind::Read,
            SenderError::FileUnreadable { .. } => ErrorKind::Read,
            SenderError::Construction { .. } => ErrorKind::Construction,
            SenderError::Transport { .. } => ErrorKind::Transport,
        }
    }
}

} // verus!
