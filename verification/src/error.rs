use vstd::prelude::*;

verus! {

/// Category of an I/O-style error, as the service reports it.
#[derive(Clone, Copy, Debug, PartialEq, Eq, Structural)]
pub enum IoErrorKind {
    NotFound,
    InvalidData,
    InvalidInput,
    Other,
}

/// An error with a category and a human-readable message.
#[derive(Debug)]
pub struct IoError {
    pub kind: IoErrorKind,
    pub message: String,
}

impl IoError {
    /// The error's category.
    pub fn kind(&self) -> (r: IoErrorKind)
        ensures
            r == self.kind,
    {
        self.kind
    }

    /// The error's message.
    pub fn message(&self) -> (r: String)
        ensures
            r@ == self.message@,
    {
        self.message.clone()
    }
}

} // verus!
