use vstd::prelude::*;

verus! {

/// The class of a failed operation.
#[derive(Clone, Copy, Debug, PartialEq, Eq, Structural)]
pub enum ErrorKind {
    /// The path or folder is absent.
    NotFound,
    /// The file system refused or failed the operation.
    IoFailure,
    /// A path lacks the part that the operation needs.
    InvalidPath,
}

/// A failed operation: its class and the text shown to the user.
#[derive(Clone, Debug)]
pub struct OpError {
    pub kind: ErrorKind,
    pub message: String,
}

impl OpError {
    pub fn kind(&self) -> (r: ErrorKind)
        ensures
            r == self.kind,
    {
        self.kind
    }

    pub fn message(&self) -> (r: String)
        ensures
            r@ == self.message@,
    {
        self.message.clone()
    }
}

} // verus!
