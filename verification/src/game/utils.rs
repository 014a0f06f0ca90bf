//! Pagination and the errors reported by the example game's API.
use vstd::prelude::*;

use crate::snowflake::Snowflake;

verus! {

/// Which page of a listing to return, and how many entries per page.
#[derive(Clone, Copy, Debug, PartialEq, Eq, Structural)]
pub struct Pagination {
    pub page: u64,
    pub limit: u64,
}

impl Pagination {
    /// The first page, with twenty entries per page.
    pub fn new() -> (r: Pagination)
        ensures
            r == (Pagination { page: 0, limit: 20 }),
    {
        Pagination { page: 0, limit: 20 }
    }
}

impl Default for Pagination {
    /// Same as [`Pagination::new`].
    fn default() -> (r: Pagination)
        ensures
            r == (Pagination { page: 0, limit: 20 }),
    {
        Pagination::new()
    }
}

/// An object of some kind (such as "player" or "card") could not be found.
#[derive(Clone, Copy, Debug)]
pub struct ObjectNotFoundError {
    pub obj_type: &'static str,
    pub id: Snowflake,
}

impl ObjectNotFoundError {
    /// The object of kind `obj_type` with ID `id` could not be found.
    pub fn new(obj_type: &'static str, id: Snowflake) -> (r: ObjectNotFoundError)
        ensures
            r.obj_type == obj_type,
            r.id == id,
    {
        ObjectNotFoundError { obj_type, id }
    }
}

/// The player with this ID could not be found.
pub fn player_not_found(id: Snowflake) -> (r: ObjectNotFoundError)
    ensures
        r.obj_type@ == "player"@,
        r.id == id,
{
    ObjectNotFoundError::new("player", id)
}

/// The card with this ID could not be found.
pub fn card_not_found(id: Snowflake) -> (r: ObjectNotFoundError)
    ensures
        r.obj_type@ == "card"@,
        r.id == id,
{
    ObjectNotFoundError::new("card", id)
}

/// A transaction was refused; the message says why.
#[derive(Clone, Debug)]
pub struct BadTransactionError(pub String);

impl BadTransactionError {
    /// A refused transaction with the given explanation.
    pub fn new(msg: String) -> (r: BadTransactionError)
        ensures
            r.0@ == msg@,
    {
        BadTransactionError(msg)
    }
}

/// A worker thread was cancelled before it finished.
#[derive(Clone, Copy, Debug)]
pub struct ThreadCancelledError;

} // verus!
