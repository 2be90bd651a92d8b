//! The pipeline's closed error taxonomy.
//!
//! Each kind carries structured context (a tag, a checksum, an underlying
//! cause) rather than a boxed dynamic error. Validation, decode and auth
//! failures abort an invocation before any processing; a not-found condition
//! is recoverable at per-polity granularity; a persistence failure aborts
//! the file after a full rollback. A duplicate checksum is not an error at
//! all: it short-circuits into the skip outcome.
use vstd::prelude::*;

verus! {

/// Why a pipeline step failed.
#[derive(Debug)]
pub enum ProcessError {
    /// Input bytes unreadable or absent; fatal before any processing.
    Validation(String),
    /// The save container could not be parsed into a document; fatal.
    Decode(String),
    /// A resolved polity tag has no matching document record; the polity is
    /// skipped, the run continues.
    NotFound(String),
    /// A failure inside the commit transaction; fatal for the file, after
    /// rollback of every staged row.
    Persistence(String),
    /// A malformed or unresolvable token or user; fatal before processing.
    Auth(String),
}

impl ProcessError {
    /// A human-readable description of the error.
    pub fn describe(&self) -> (s: String)
        ensures
            self matches ProcessError::Validation(c) ==> s@ == "validation error: "@ + c@,
            self matches ProcessError::Decode(c) ==> s@ == "decode error: "@ + c@,
            self matches ProcessError::NotFound(c) ==> s@ == "not found: "@ + c@,
            self matches ProcessError::Persistence(c) ==> s@ == "persistence error: "@ + c@,
            self matches ProcessError::Auth(c) ==> s@ == "auth error: "@ + c@,
    {
        let (prefix, cause): (&str, &String) = match self {
            ProcessError::Validation(c) => ("validation error: ", c),
            ProcessError::Decode(c) => ("decode error: ", c),
            ProcessError::NotFound(c) => ("not found: ", c),
            ProcessError::Persistence(c) => ("persistence error: ", c),
            ProcessError::Auth(c) => ("auth error: ", c),
        };
        let mut s = String::from_str(prefix);
        s.append(cause.as_str());
        s
    }
}

} // verus!
