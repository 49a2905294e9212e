//! The crate's error values.

use vstd::prelude::*;

verus! {

/// A domain error.  Parsing never raises one — malformed style strings
/// silently resolve to zero — but callers embedding the library can carry
/// these values.
#[derive(Debug, Clone, PartialEq, Eq)]
pub enum Error {
    /// An arbitrary message.
    Any(String),
    /// An unknown error.
    Unknown,
    /// A malformed size parameter.
    SizeFormatError,
}

impl Error {
    /// A human-readable description of the error.
    pub fn message(&self) -> (r: &str)
        ensures
            r@ == match self {
                Error::Any(s) => s@,
                Error::Unknown => "unknown error, please contact the developers"@,
                Error::SizeFormatError => "malformed size parameter"@,
            },
    {
        match self {
            Error::Any(s) => s.as_str(),
            Error::Unknown => "unknown error, please contact the developers",
            Error::SizeFormatError => "malformed size parameter",
        }
    }
}

} // verus!
