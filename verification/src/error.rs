//! The crate's error type.

use vstd::prelude::*;

verus! {

/// Why a wire value could not be turned into the value it names.
#[derive(Debug, Clone, PartialEq, Eq)]
pub enum Error {
    /// The value is malformed as a value: a discriminant outside the
    /// enumeration, an array of the wrong length.
    Construct(String),
    /// The value is well formed but cannot be honoured.
    Other(String),
}

impl Error {
    /// The human-readable explanation carried by the error.
    pub fn message(&self) -> (m: &String)
        ensures
            m == (match self {
                Error::Construct(s) => s,
                Error::Other(s) => s,
            }),
    {
        match self {
            Error::Construct(s) => s,
            Error::Other(s) => s,
        }
    }
}

} // verus!
