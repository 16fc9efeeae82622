//! The error a whole file's processing can end in.

use vstd::prelude::*;

use crate::diagnostic::Diagnostics;

verus! {

/// What went wrong with one source file: its doc comments produced
/// diagnostics, or the file's syntax could not be parsed at all, in which
/// case only the parser's message is carried.
pub enum Error {
    ParseErrors(Diagnostics),
    FullMoonError(String),
}

impl Error {
    /// The diagnostics of a parse failure, or none for a syntax failure.
    pub fn parse_errors(self) -> (r: Option<Diagnostics>)
        ensures
            r is Some <==> self is ParseErrors,
    {
        match self {
            Error::ParseErrors(ds) => Some(ds),
            Error::FullMoonError(m) => None,
        }
    }
}

} // verus!
