//! Utilities for working with in-game card categories or types.
use vstd::prelude::*;

use crate::snowflake::Snowflake;

verus! {

/// A component recording which card type a card belongs to.
#[derive(Debug, Clone, Copy)]
pub struct AttachedCardType {
    type_id: Snowflake,
}

impl View for AttachedCardType {
    type V = Snowflake;

    closed spec fn view(&self) -> Snowflake {
        self.type_id
    }
}

impl AttachedCardType {
    /// Constructs a new `AttachedCardType` instance.
    pub fn new(type_id: Snowflake) -> (r: AttachedCardType)
        ensures
            r@ == type_id,
    {
        AttachedCardType { type_id }
    }

    /// Gets the ID of the associated card type.
    pub fn type_id(&self) -> (r: Snowflake)
        ensures
            r == self@,
    {
        self.type_id
    }
}

impl From<Snowflake> for AttachedCardType {
    /// The card type with the given ID.
    fn from(id: Snowflake) -> (r: AttachedCardType)
        ensures
            r@ == id,
    {
        AttachedCardType { type_id: id }
    }
}

impl vstd::std_specs::convert::FromSpecImpl<Snowflake> for AttachedCardType {
    open spec fn obeys_from_spec() -> bool {
        true
    }

    closed spec fn from_spec(v: Snowflake) -> AttachedCardType {
        AttachedCardType { type_id: v }
    }
}

impl From<AttachedCardType> for Snowflake {
    /// The ID of the card type.
    fn from(card_type: AttachedCardType) -> (r: Snowflake)
        ensures
            r == card_type@,
    {
        card_type.type_id
    }
}

impl vstd::std_specs::convert::FromSpecImpl<AttachedCardType> for Snowflake {
    open spec fn obeys_from_spec() -> bool {
        true
    }

    closed spec fn from_spec(v: AttachedCardType) -> Snowflake {
        v.type_id
    }
}

} // verus!
