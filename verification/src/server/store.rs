//! Errors of the server's object storage.
use vstd::prelude::*;

use crate::snowflake::Snowflake;

verus! {

/// No object with this ID could be found.
#[derive(Debug, Clone, Copy)]
pub struct NotFoundError {
    id: Snowflake,
}

impl NotFoundError {
    /// No object with this ID could be found.
    pub fn new(id: Snowflake) -> (r: NotFoundError)
        ensures
            r.spec_id() == id,
    {
        NotFoundError { id }
    }

    /// The ID that could not be found.
    pub closed spec fn spec_id(&self) -> Snowflake {
        self.id
    }

    /// The ID that could not be found.
    pub fn id(&self) -> (r: Snowflake)
        ensures
            r == self.spec_id(),
    {
        self.id
    }
}

} // verus!
