//! The operations behind the inventories API: reading inventories and
//! their cards, adding, deleting and moving cards.
use vstd::prelude::*;

use crate::server::card::{Card, Inventory};
use crate::server::local_storage::{collect_cards, law_inventory_round_trip, LocalStoreBackend};
use crate::snowflake::Snowflake;

verus! {

/// Why an inventory operation failed.
#[derive(Clone, Copy, Debug, PartialEq, Eq, Structural)]
pub enum InventoryError {
    /// No inventory with this ID is stored.
    InventoryNotFound(Snowflake),
    /// The inventory does not hold a card with this ID:
    /// (card ID, inventory ID).
    CardNotFound(Snowflake, Snowflake),
}

impl InventoryError {
    /// The HTTP status code that reports this error: every inventory error
    /// is a missing object, 404.
    pub fn status_code(&self) -> (r: u16)
        ensures
            r == 404,
    {
        match self {
            InventoryError::InventoryNotFound(_) => 404,
            InventoryError::CardNotFound(_, _) => 404,
        }
    }
}

/// The cards of the stored inventory `id`, as loading it finds them.
pub open spec fn stored_cards(b: crate::server::local_storage::BackendView, id: u64) -> Map<u64, Card> {
    collect_cards(b.inventories[id], b.cards)
}

/// Loads the inventory with this ID.
pub fn get_inventory(backend: &LocalStoreBackend, id: Snowflake) -> (r: Result<Inventory, InventoryError>)
    ensures
        match r {
            Ok(inv) => backend@.inventories.contains_key(id@) && inv@.id == id && inv@.cards == stored_cards(
                backend@,
                id@,
            ),
            Err(e) => !backend@.inventories.contains_key(id@) && e == InventoryError::InventoryNotFound(id),
        },
{
    match backend.load_inventory(id) {
        Ok(inv) => Ok(inv),
        Err(_) => Err(InventoryError::InventoryNotFound(id)),
    }
}

/// Stores a new, empty inventory with this ID and returns it.
pub fn create_inventory(backend: &mut LocalStoreBackend, id: Snowflake) -> (r: Inventory)
    ensures
        r@.id == id,
        r@.cards == Map::<u64, Card>::empty(),
        final(backend)@.cards == old(backend)@.cards,
        final(backend)@.inventories.dom() == old(backend)@.inventories.dom().insert(id@),
        final(backend)@.inventories[id@] == Seq::<u64>::empty(),
{
    let inv = Inventory::empty(id);
    backend.store_inventory(id, &inv);
    proof {
        assert(old(backend)@.cards.union_prefer_right(Map::<u64, Card>::empty()) =~= old(backend)@.cards);
        let l = backend@.inventories[id@];
        if l.len() > 0 {
            assert(l.to_set().contains(l[0]));
        }
        assert(l =~= Seq::<u64>::empty());
    }
    inv
}

/// What to add to an inventory.
#[derive(Clone, Copy, Debug)]
pub enum InventoryAddOptions {
    /// A card that already exists.
    Existing(Card),
    /// A card made for this request (a fresh ID and the requested type);
    /// it is stored in the card table before the inventory is looked up.
    New(Card),
}

/// The card that the options add.
pub open spec fn added_card(opts: InventoryAddOptions) -> Card {
    match opts {
        InventoryAddOptions::Existing(c) => c,
        InventoryAddOptions::New(c) => c,
    }
}

/// The card table once the options have been applied, before the
/// inventory is looked up: a new card is stored under its ID.
pub open spec fn cards_with_new(cards: Map<u64, Card>, opts: InventoryAddOptions) -> Map<u64, Card> {
    match opts {
        InventoryAddOptions::Existing(_) => cards,
        InventoryAddOptions::New(c) => cards.insert(c.spec_id()@, c),
    }
}

/// Adds a card to the inventory `inv_id`, stores the inventory and returns
/// it. A new card is stored in the card table first, whether or not the
/// inventory exists.
pub fn add_to_inventory(backend: &mut LocalStoreBackend, inv_id: Snowflake, opts: InventoryAddOptions) -> (r:
    Result<Inventory, InventoryError>)
    ensures
        match r {
            Ok(inv) => {
                let card = added_card(opts);
                let cards = cards_with_new(old(backend)@.cards, opts);
                &&& old(backend)@.inventories.contains_key(inv_id@)
                &&& inv@.id == inv_id
                &&& inv@.cards == collect_cards(old(backend)@.inventories[inv_id@], cards).insert(
                    card.spec_id()@,
                    card,
                )
                &&& final(backend)@.cards == cards.union_prefer_right(inv@.cards)
                &&& final(backend)@.inventories.dom() == old(backend)@.inventories.dom()
                &&& final(backend)@.inventories[inv_id@].to_set() == inv@.cards.dom()
            },
            Err(e) => {
                &&& !old(backend)@.inventories.contains_key(inv_id@)
                &&& e == InventoryError::InventoryNotFound(inv_id)
                &&& final(backend)@.cards == cards_with_new(old(backend)@.cards, opts)
                &&& final(backend)@.inventories == old(backend)@.inventories
            },
        },
{
    let card = match opts {
        InventoryAddOptions::Existing(c) => c,
        InventoryAddOptions::New(c) => {
            backend.store_card(*c.id(), &c);
            c
        },
    };
    match backend.load_inventory(inv_id) {
        Err(_) => Err(InventoryError::InventoryNotFound(inv_id)),
        Ok(mut inv) => {
            inv.insert(card);
            backend.store_inventory(inv_id, &inv);
            proof {
                assert(backend@.inventories.dom() =~= old(backend)@.inventories.dom());
            }
            Ok(inv)
        },
    }
}

/// The card `card_id` of the inventory `inv_id`.
pub fn get_card(backend: &LocalStoreBackend, inv_id: Snowflake, card_id: Snowflake) -> (r: Result<
    Card,
    InventoryError,
>)
    ensures
        match r {
            Ok(c) => {
                &&& backend@.inventories.contains_key(inv_id@)
                &&& stored_cards(backend@, inv_id@).contains_key(card_id@)
                &&& c == stored_cards(backend@, inv_id@)[card_id@]
            },
            Err(e) => if !backend@.inventories.contains_key(inv_id@) {
                e == InventoryError::InventoryNotFound(inv_id)
            } else {
                &&& !stored_cards(backend@, inv_id@).contains_key(card_id@)
                &&& e == InventoryError::CardNotFound(card_id, inv_id)
            },
        },
{
    match backend.load_inventory(inv_id) {
        Err(_) => Err(InventoryError::InventoryNotFound(inv_id)),
        Ok(inv) => match inv.get(card_id) {
            Some(c) => Ok(*c),
            None => Err(InventoryError::CardNotFound(card_id, inv_id)),
        },
    }
}

/// Takes the card `card_id` out of the inventory `inv_id`, stores the
/// inventory and returns the card. The card stays in the card table.
pub fn delete_card(backend: &mut LocalStoreBackend, inv_id: Snowflake, card_id: Snowflake) -> (r: Result<
    Card,
    InventoryError,
>)
    ensures
        match r {
            Ok(c) => {
                &&& old(backend)@.inventories.contains_key(inv_id@)
                &&& stored_cards(old(backend)@, inv_id@).contains_key(card_id@)
                &&& c == stored_cards(old(backend)@, inv_id@)[card_id@]
                &&& final(backend)@.inventories.dom() == old(backend)@.inventories.dom()
                &&& final(backend)@.inventories[inv_id@].to_set() == stored_cards(old(backend)@, inv_id@).dom().remove(
                    card_id@,
                )
                &&& final(backend)@.cards == old(backend)@.cards.union_prefer_right(
                    stored_cards(old(backend)@, inv_id@).remove(card_id@),
                )
            },
            Err(e) => {
                &&& final(backend)@ == old(backend)@
                &&& if !old(backend)@.inventories.contains_key(inv_id@) {
                    e == InventoryError::InventoryNotFound(inv_id)
                } else {
                    &&& !stored_cards(old(backend)@, inv_id@).contains_key(card_id@)
                    &&& e == InventoryError::CardNotFound(card_id, inv_id)
                }
            },
        },
{
    match backend.load_inventory(inv_id) {
        Err(_) => Err(InventoryError::InventoryNotFound(inv_id)),
        Ok(mut inv) => match inv.remove(card_id) {
            None => Err(InventoryError::CardNotFound(card_id, inv_id)),
            Some(card) => {
                backend.store_inventory(inv_id, &inv);
                proof {
                    assert(backend@.inventories.dom() =~= old(backend)@.inventories.dom());
                }
                Ok(card)
            },
        },
    }
}

/// Moves the card `card_id` from the inventory `from_id` to the inventory
/// `to_id`, storing both. Nothing is stored if either inventory or the
/// card is missing.
pub fn move_card(backend: &mut LocalStoreBackend, from_id: Snowflake, card_id: Snowflake, to_id: Snowflake) -> (r:
    Result<(), InventoryError>)
    requires
        from_id@ != to_id@,
    ensures
        match r {
            Ok(()) => {
                &&& old(backend)@.inventories.contains_key(from_id@)
                &&& old(backend)@.inventories.contains_key(to_id@)
                &&& stored_cards(old(backend)@, from_id@).contains_key(card_id@)
                &&& final(backend)@.inventories.dom() == old(backend)@.inventories.dom()
                &&& final(backend)@.inventories[from_id@].to_set() == stored_cards(
                    old(backend)@,
                    from_id@,
                ).dom().remove(card_id@)
                &&& final(backend)@.inventories[to_id@].to_set() == stored_cards(old(backend)@, to_id@).insert(
                    card_id@,
                    stored_cards(old(backend)@, from_id@)[card_id@],
                ).dom()
                &&& stored_cards(final(backend)@, to_id@) == stored_cards(old(backend)@, to_id@).insert(
                    card_id@,
                    stored_cards(old(backend)@, from_id@)[card_id@],
                )
                &&& final(backend)@.cards == old(backend)@.cards.union_prefer_right(
                    stored_cards(old(backend)@, from_id@).remove(card_id@),
                ).union_prefer_right(
                    stored_cards(old(backend)@, to_id@).insert(
                        card_id@,
                        stored_cards(old(backend)@, from_id@)[card_id@],
                    ),
                )
            },
            Err(e) => {
                &&& final(backend)@ == old(backend)@
                &&& if !old(backend)@.inventories.contains_key(from_id@) {
                    e == InventoryError::InventoryNotFound(from_id)
                } else if !stored_cards(old(backend)@, from_id@).contains_key(card_id@) {
                    e == InventoryError::CardNotFound(card_id, from_id)
                } else {
                    &&& !old(backend)@.inventories.contains_key(to_id@)
                    &&& e == InventoryError::InventoryNotFound(to_id)
                }
            },
        },
{
    let mut from_inv = match backend.load_inventory(from_id) {
        Err(_) => {
            return Err(InventoryError::InventoryNotFound(from_id));
        },
        Ok(inv) => inv,
    };
    from_inv.check_keyed_by_id();
    let ghost from_before = from_inv@.cards;
    let card = match from_inv.remove(card_id) {
        None => {
            return Err(InventoryError::CardNotFound(card_id, from_id));
        },
        Some(c) => c,
    };
    let mut to_inv = match backend.load_inventory(to_id) {
        Err(_) => {
            return Err(InventoryError::InventoryNotFound(to_id));
        },
        Ok(inv) => inv,
    };
    proof {
        assert(card.spec_id()@ == card_id@);
    }
    to_inv.insert(card);
    to_inv.check_keyed_by_id();
    backend.store_inventory(from_id, &from_inv);
    let ghost mid_cards = backend@.cards;
    backend.store_inventory(to_id, &to_inv);
    proof {
        assert(backend@.inventories.dom() =~= old(backend)@.inventories.dom());
        law_inventory_round_trip(mid_cards, to_inv@.cards, backend@.inventories[to_id@]);
    }
    Ok(())
}

} // verus!
