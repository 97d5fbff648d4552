//! Error taxonomy of the library: construction and schema errors are
//! surfaced eagerly as illegal-argument failures, unimplemented paths as
//! unsupported-operation failures, and use after close as its own variant.

use vstd::prelude::*;

verus! {

/// A typed failure of this library.
#[derive(Debug)]
pub enum Error {
    /// A malformed argument: rejected query parameters or a schema mismatch.
    IllegalArgument(String),
    /// An operation that this core deliberately leaves unimplemented.
    UnsupportedOperation(String),
    /// An operation on a manager that was already closed.
    AlreadyClosed(String),
}

impl Error {
    /// Human-readable description of the failure.
    pub fn message(&self) -> &String {
        match self {
            Error::IllegalArgument(m) => m,
            Error::UnsupportedOperation(m) => m,
            Error::AlreadyClosed(m) => m,
        }
    }

    /// True exactly on the illegal-argument variant.
    pub fn is_illegal_argument(&self) -> (r: bool)
        ensures
            r == self is IllegalArgument,
    {
        match self {
            Error::IllegalArgument(_) => true,
            _ => false,
        }
    }

    /// True exactly on the already-closed variant.
    pub fn is_already_closed(&self) -> (r: bool)
        ensures
            r == self is AlreadyClosed,
    {
        match self {
            Error::AlreadyClosed(_) => true,
            _ => false,
        }
    }
}

} // verus!
