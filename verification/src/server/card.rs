//! Cards and card inventories as kept by the game server.
use vstd::prelude::*;

use std::collections::HashMap;
use vstd::std_specs::iter::IteratorSpec;

use crate::snowflake::Snowflake;

verus! {

broadcast use vstd::std_specs::hash::group_hash_axioms;

/// A card: its own ID and the ID of its card type.
#[derive(Clone, Copy, PartialEq, Eq, Debug, Structural)]
pub struct Card {
    id: Snowflake,
    type_id: Snowflake,
}

impl Card {
    /// The card's own ID, as an integer.
    pub closed spec fn spec_id(&self) -> Snowflake {
        self.id
    }

    /// The card's type ID.
    pub closed spec fn spec_type_id(&self) -> Snowflake {
        self.type_id
    }

    /// Creates a card with the given ID and type ID.
    pub fn new(id: Snowflake, type_id: Snowflake) -> (r: Card)
        ensures
            r.spec_id() == id,
            r.spec_type_id() == type_id,
    {
        Card { id, type_id }
    }

    /// The card's unique ID.
    pub fn id(&self) -> (r: &Snowflake)
        ensures
            *r == self.spec_id(),
    {
        &self.id
    }

    /// The ID of the card's type.
    pub fn type_id(&self) -> (r: &Snowflake)
        ensures
            *r == self.spec_type_id(),
    {
        &self.type_id
    }
}

/// Two cards are equal exactly when their IDs and type IDs are.
pub broadcast proof fn lemma_card_equality(a: Card, b: Card)
    ensures
        #![trigger a.spec_id(), b.spec_id(), a.spec_type_id(), b.spec_type_id()]
        (a == b) == (a.spec_id() == b.spec_id() && a.spec_type_id() == b.spec_type_id()),
{
}

/// The mathematical state of an [`Inventory`]: its ID and its cards keyed
/// by card ID.
pub struct InventoryView {
    pub id: Snowflake,
    pub cards: Map<u64, Card>,
}

/// A named collection of cards, each stored under its own ID.
#[derive(Debug)]
pub struct Inventory {
    id: Snowflake,
    cards: HashMap<u64, Card>,
}

impl View for Inventory {
    type V = InventoryView;

    closed spec fn view(&self) -> InventoryView {
        InventoryView { id: self.id, cards: self.cards@ }
    }
}

/// Every card of the map is stored under its own ID.
pub open spec fn keyed_by_id(cards: Map<u64, Card>) -> bool {
    forall|k: u64| #[trigger] cards.contains_key(k) ==> cards[k].spec_id()@ == k
}

impl Inventory {
    #[verifier::type_invariant]
    spec fn inv(&self) -> bool {
        keyed_by_id(self.cards@)
    }

    /// The cards of an inventory are stored under their own IDs.
    pub fn check_keyed_by_id(&self)
        ensures
            keyed_by_id(self@.cards),
    {
        proof {
            use_type_invariant(self);
        }
    }

    /// An independent copy of this inventory.
    pub fn duplicate(&self) -> (r: Inventory)
        ensures
            r@ == self@,
    {
        proof {
            use_type_invariant(self);
        }
        Inventory { id: self.id, cards: self.cards.clone() }
    }

    /// Creates an empty inventory with the given ID.
    pub fn empty(id: Snowflake) -> (r: Inventory)
        ensures
            r@.id == id,
            r@.cards == Map::<u64, Card>::empty(),
            keyed_by_id(r@.cards),
    {
        Inventory { id, cards: HashMap::new() }
    }

    /// The inventory's ID.
    pub fn id(&self) -> (r: &Snowflake)
        ensures
            *r == self@.id,
    {
        &self.id
    }

    /// Puts a card into the inventory, returning the card previously
    /// stored under the same ID, if any.
    pub fn insert(&mut self, card: Card) -> (r: Option<Card>)
        ensures
            final(self)@.id == old(self)@.id,
            final(self)@.cards == old(self)@.cards.insert(card.spec_id()@, card),
            keyed_by_id(final(self)@.cards),
            r == (if old(self)@.cards.contains_key(card.spec_id()@) {
                Some(old(self)@.cards[card.spec_id()@])
            } else {
                None
            }),
    {
        proof {
            use_type_invariant(&*self);
        }
        let key: u64 = card.id.into();
        let mut cards: HashMap<u64, Card> = HashMap::new();
        std::mem::swap(&mut cards, &mut self.cards);
        let prev = cards.insert(key, card);
        self.cards = cards;
        prev
    }

    /// Checks whether a card with this ID is in the inventory.
    pub fn contains_key(&self, id: Snowflake) -> (r: bool)
        ensures
            r == self@.cards.contains_key(id@),
    {
        let key: u64 = id.into();
        self.cards.contains_key(&key)
    }

    /// Takes the card with this ID out of the inventory, if it is there.
    pub fn remove(&mut self, id: Snowflake) -> (r: Option<Card>)
        ensures
            final(self)@.id == old(self)@.id,
            final(self)@.cards == old(self)@.cards.remove(id@),
            keyed_by_id(final(self)@.cards),
            r == (if old(self)@.cards.contains_key(id@) {
                Some(old(self)@.cards[id@])
            } else {
                None
            }),
    {
        proof {
            use_type_invariant(&*self);
        }
        let key: u64 = id.into();
        let mut cards: HashMap<u64, Card> = HashMap::new();
        std::mem::swap(&mut cards, &mut self.cards);
        let prev = cards.remove(&key);
        self.cards = cards;
        prev
    }

    /// Checks whether the inventory holds no cards.
    pub fn is_empty(&self) -> (r: bool)
        ensures
            r == (self@.cards.dom().len() == 0),
    {
        self.cards.len() == 0
    }

    /// The number of cards in the inventory.
    pub fn len(&self) -> (r: usize)
        ensures
            r == self@.cards.dom().len(),
    {
        self.cards.len()
    }

    /// All cards of the inventory, each once, in no particular order.
    pub fn iter(&self) -> (r: Vec<Card>)
        ensures
            r@.to_set() == self@.cards.values(),
            r@.len() == self@.cards.dom().len(),
    {
        let mut out: Vec<Card> = Vec::new();
        let ghost refs = vstd::std_specs::hash::spec_values_iter(&self.cards).remaining();
        let ghost vals: Seq<Card> = refs.unref();
        for c in it: self.cards.values()
            invariant
                vals == it.seq().unref(),
                out@ == vals.take(it.index()),
        {
            out.push(*c);
            proof {
                assert(vals.take(it.index() + 1) =~= vals.take(it.index()).push(*c));
            }
        }
        proof {
            assert(out@ =~= vals);
        }
        out
    }

    /// The card with this ID, if it is in the inventory.
    pub fn get(&self, id: Snowflake) -> (r: Option<&Card>)
        ensures
            r == (if self@.cards.contains_key(id@) {
                Some(&self@.cards[id@])
            } else {
                None
            }),
    {
        let key: u64 = id.into();
        self.cards.get(&key)
    }
}

/// Reading a card back right after putting it into an inventory gives that
/// card; putting a card in never disturbs the other cards.
pub proof fn law_get_after_insert(cards: Map<u64, Card>, card: Card, other: u64)
    ensures
        cards.insert(card.spec_id()@, card)[card.spec_id()@] == card,
        other != card.spec_id()@ ==> cards.insert(card.spec_id()@, card).contains_key(other)
            == cards.contains_key(other),
        other != card.spec_id()@ && cards.contains_key(other) ==> cards.insert(card.spec_id()@, card)[other]
            == cards[other],
{
}

/// After a card is taken out of an inventory it is no longer there, and
/// putting it back restores the inventory.
pub proof fn law_remove_then_insert_restores(cards: Map<u64, Card>, id: u64)
    requires
        keyed_by_id(cards),
        cards.contains_key(id),
    ensures
        !cards.remove(id).contains_key(id),
        cards.remove(id).insert(cards[id].spec_id()@, cards[id]) == cards,
{
    assert(cards.remove(id).insert(cards[id].spec_id()@, cards[id]) =~= cards);
}

} // verus!
