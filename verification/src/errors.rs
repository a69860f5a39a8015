//! The library's error values: a tagged kind carrying the payload a
//! caller needs to react, wrapped in an error struct.

use vstd::prelude::*;

verus! {

/// What went wrong, with its payload: `NotFound` carries the pattern
/// that matched no entry.
#[derive(Debug)]
pub enum ErrorKind {
    NotFound { en: String },
}

/// An error of this library, identified by its kind.
#[derive(Debug)]
pub struct Error {
    kind: ErrorKind,
}

impl Error {
    /// The kind this error was built from.
    pub closed spec fn kind_spec(&self) -> ErrorKind {
        self.kind
    }

    /// Wrap a kind as an error.
    pub fn new(kind: ErrorKind) -> (e: Error)
        ensures
            e.kind_spec() == kind,
    {
        Error { kind }
    }

    /// The kind of this error.
    pub fn kind(&self) -> (k: &ErrorKind)
        ensures
            *k == self.kind_spec(),
    {
        &self.kind
    }
}

} // verus!
