//! The library's error taxonomy.

use vstd::prelude::*;
use vstd::string::*;
use crate::text::owned;

verus! {

#[derive(Clone, Debug, PartialEq)]
/// What went wrong, with a human-readable detail.
pub enum MtgjsonError {
    /// The query engine rejected a statement.
    DuckDb(String),
    /// A transfer failed at the transport level.
    Http(String),
    /// A filesystem operation failed.
    Io(String),
    /// A payload was not well-formed JSON.
    Json(String),
    /// The data asked for is unavailable (unknown name, missing or corrupt
    /// cache entry, absent configuration); retrying may help.
    NotFound(String),
    /// The caller supplied unusable input; retrying will not help.
    InvalidArgument(String),
}

/// The detail text of an error.
pub open spec fn detail(e: MtgjsonError) -> Seq<char> {
    match e {
        MtgjsonError::DuckDb(s) => s@,
        MtgjsonError::Http(s) => s@,
        MtgjsonError::Io(s) => s@,
        MtgjsonError::Json(s) => s@,
        MtgjsonError::NotFound(s) => s@,
        MtgjsonError::InvalidArgument(s) => s@,
    }
}

/// The prefix naming the kind of an error.
pub open spec fn kind_prefix(e: MtgjsonError) -> Seq<char> {
    match e {
        MtgjsonError::DuckDb(_) => "DuckDB error: "@,
        MtgjsonError::Http(_) => "HTTP error: "@,
        MtgjsonError::Io(_) => "IO error: "@,
        MtgjsonError::Json(_) => "JSON error: "@,
        MtgjsonError::NotFound(_) => "Not found: "@,
        MtgjsonError::InvalidArgument(_) => "Invalid argument: "@,
    }
}

impl MtgjsonError {
    /// The error as one line: its kind, then its detail.
    pub fn message(&self) -> (r: String)
        ensures
            r@ == kind_prefix(*self) + detail(*self),
    {
        let (prefix, text) = match self {
            MtgjsonError::DuckDb(s) => ("DuckDB error: ", s),
            MtgjsonError::Http(s) => ("HTTP error: ", s),
            MtgjsonError::Io(s) => ("IO error: ", s),
            MtgjsonError::Json(s) => ("JSON error: ", s),
            MtgjsonError::NotFound(s) => ("Not found: ", s),
            MtgjsonError::InvalidArgument(s) => ("Invalid argument: ", s),
        };
        let mut r = owned(prefix);
        r.append(text.as_str());
        r
    }

    /// Whether this is a not-found error.
    pub fn is_not_found(&self) -> (r: bool)
        ensures
            r == (*self is NotFound),
    {
        match self {
            MtgjsonError::NotFound(_) => true,
            _ => false,
        }
    }
}

} // verus!
