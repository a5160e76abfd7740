//! Errors reported by the http side of the api.

use vstd::prelude::*;

use crate::db::{db_error_text, DbBackendError};

verus! {

/// An error of the http endpoints.
#[derive(Debug, PartialEq, Eq)]
pub enum HttpError {
    /// Any other error, with its description
    Other(String),
}

/// The text shown for an http error.
pub open spec fn http_error_text(e: HttpError) -> Seq<char> {
    match e {
        HttpError::Other(s) => "an error occured: "@ + s@,
    }
}

impl HttpError {
    /// The http error that reports a database error, carrying that error's text.
    pub fn from_db_error(e: DbBackendError) -> (r: HttpError)
        ensures
            r matches HttpError::Other(s) && s@ == db_error_text(e),
    {
        HttpError::Other(e.message())
    }

    /// The text shown for this error.
    pub fn message(&self) -> (r: String)
        ensures
            r@ == http_error_text(*self),
    {
        match self {
            HttpError::Other(e) => {
                let mut s = String::from_str("an error occured: ");
                s.append(e.as_str());
                s
            },
        }
    }
}

} // verus!
