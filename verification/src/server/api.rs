//! Pagination and the errors reported by the server's HTTP API.
use vstd::prelude::*;

pub use crate::game::utils::Pagination;

verus! {

/// An error reported by the API, with the message shown to the client.
#[derive(Clone, Debug)]
pub enum APIError {
    /// Something asked for does not exist.
    NotFound(String),
    /// A requested transaction was refused.
    BadTransaction(String),
    /// A worker thread was cancelled before it finished.
    ThreadCancelled,
    /// Any other failure.
    Other(String),
}

impl APIError {
    /// Something asked for does not exist.
    pub fn not_found(msg: String) -> (r: APIError)
        ensures
            r matches APIError::NotFound(m) && m@ == msg@,
    {
        APIError::NotFound(msg)
    }

    /// A requested transaction was refused.
    pub fn bad_transaction(msg: String) -> (r: APIError)
        ensures
            r matches APIError::BadTransaction(m) && m@ == msg@,
    {
        APIError::BadTransaction(msg)
    }

    /// The HTTP status code that reports this error: 404 for a missing
    /// object, 400 for a refused transaction, 500 otherwise.
    pub fn status_code(&self) -> (r: u16)
        ensures
            r == (match self {
                APIError::NotFound(_) => 404u16,
                APIError::BadTransaction(_) => 400u16,
                APIError::ThreadCancelled => 500u16,
                APIError::Other(_) => 500u16,
            }),
    {
        match self {
            APIError::NotFound(_) => 404,
            APIError::BadTransaction(_) => 400,
            APIError::ThreadCancelled => 500,
            APIError::Other(_) => 500,
        }
    }
}

} // verus!
