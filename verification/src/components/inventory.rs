//! Card inventories: sets of card IDs that can be attached to players.
use vstd::prelude::*;

use std::collections::HashSet;
use vstd::std_specs::iter::IteratorSpec;

use crate::snowflake::Snowflake;

verus! {

broadcast use vstd::std_specs::hash::group_hash_axioms;

/// The integer values of a sequence of snowflakes.
pub open spec fn snowflake_values(s: Seq<Snowflake>) -> Seq<u64> {
    s.map_values(|x: Snowflake| x@)
}

/// Represents a collection of card IDs.
pub struct Inventory {
    ids: HashSet<u64>,
}

impl View for Inventory {
    type V = Set<u64>;

    closed spec fn view(&self) -> Set<u64> {
        self.ids@
    }
}

impl Inventory {
    #[verifier::type_invariant]
    spec fn inv(&self) -> bool {
        self.ids@.finite()
    }

    /// An inventory holds finitely many IDs.
    pub fn check_finite(&self)
        ensures
            self@.finite(),
    {
        proof {
            use_type_invariant(self);
        }
    }

    /// Creates a new, empty `Inventory`.
    pub fn empty() -> (r: Inventory)
        ensures
            r@ == Set::<u64>::empty(),
    {
        Inventory { ids: HashSet::new() }
    }

    /// Adds a card ID to this inventory.
    ///
    /// Returns `true` if the ID was not previously in this inventory, and
    /// `false` otherwise.
    pub fn insert(&mut self, id: Snowflake) -> (r: bool)
        ensures
            final(self)@ == old(self)@.insert(id@),
            r == !old(self)@.contains(id@),
            final(self)@.len() == old(self)@.len() + if r { 1int } else { 0int },
    {
        proof {
            use_type_invariant(&*self);
        }
        let raw: u64 = id.into();
        let mut ids: HashSet<u64> = HashSet::new();
        std::mem::swap(&mut ids, &mut self.ids);
        let added = ids.insert(raw);
        self.ids = ids;
        added
    }

    /// Checks to see if this inventory contains the given card ID.
    pub fn contains(&self, id: Snowflake) -> (r: bool)
        ensures
            r == self@.contains(id@),
    {
        let raw: u64 = id.into();
        self.ids.contains(&raw)
    }

    /// Removes a card ID from this inventory.
    ///
    /// Returns whether the ID was present in the inventory to begin with.
    pub fn remove(&mut self, id: Snowflake) -> (r: bool)
        ensures
            final(self)@ == old(self)@.remove(id@),
            r == old(self)@.contains(id@),
            final(self)@.len() == old(self)@.len() - if r { 1int } else { 0int },
    {
        proof {
            use_type_invariant(&*self);
        }
        let raw: u64 = id.into();
        let mut ids: HashSet<u64> = HashSet::new();
        std::mem::swap(&mut ids, &mut self.ids);
        let removed = ids.remove(&raw);
        self.ids = ids;
        removed
    }

    /// Checks to see if this inventory is empty.
    pub fn is_empty(&self) -> (r: bool)
        ensures
            r == self@.is_empty(),
    {
        self.ids.is_empty()
    }

    /// Gets how many IDs are stored in this inventory.
    pub fn len(&self) -> (r: usize)
        ensures
            r == self@.len(),
    {
        self.ids.len()
    }

    /// Lists all IDs in this inventory, each once, in no particular order.
    pub fn iter_ids(&self) -> (r: Vec<Snowflake>)
        ensures
            snowflake_values(r@).to_set() == self@,
            snowflake_values(r@).no_duplicates(),
            r@.len() == self@.len(),
    {
        let mut out: Vec<Snowflake> = Vec::new();
        let ghost refs = vstd::std_specs::hash::spec_hash_keys_iter(&self.ids).remaining();
        let ghost keys: Seq<u64> = refs.unref();
        for id in it: self.ids.iter()
            invariant
                keys == it.seq().unref(),
                snowflake_values(out@) == keys.take(it.index()),
        {
            let ghost before = out@;
            let sf = Snowflake::from(*id);
            out.push(sf);
            proof {
                assert(keys.take(it.index() + 1) =~= keys.take(it.index()).push(*id));
                assert(snowflake_values(out@) =~= snowflake_values(before).push(sf@));
            }
        }
        proof {
            assert(snowflake_values(out@) =~= keys);
            assert(keys.len() == refs.len());
            assert forall|i: int, j: int| 0 <= i < j < keys.len() implies keys[i] != keys[j] by {
                assert(refs[i] != refs[j]);
            }
        }
        out
    }
}

impl From<Vec<Snowflake>> for Inventory {
    /// The inventory holding the given IDs (duplicates collapse).
    fn from(ids: Vec<Snowflake>) -> (r: Inventory)
        ensures
            r@ == snowflake_values(ids@).to_set(),
    {
        let mut inv = Inventory::empty();
        let mut i: usize = 0;
        while i < ids.len()
            invariant
                0 <= i <= ids@.len(),
                inv@ == snowflake_values(ids@.take(i as int)).to_set(),
            decreases ids@.len() - i,
        {
            inv.insert(ids[i]);
            proof {
                assert(snowflake_values(ids@.take(i + 1)) =~= snowflake_values(ids@.take(i as int)).push(
                    ids@[i as int]@,
                ));
                snowflake_values(ids@.take(i as int)).lemma_push_to_set_commute(ids@[i as int]@);
            }
            i = i + 1;
        }
        proof {
            assert(ids@.take(i as int) =~= ids@);
        }
        inv
    }
}

impl vstd::std_specs::convert::FromSpecImpl<Vec<Snowflake>> for Inventory {
    /// The inventory built from a list is described by the contract of
    /// `from` itself.
    open spec fn obeys_from_spec() -> bool {
        false
    }

    closed spec fn from_spec(v: Vec<Snowflake>) -> Inventory {
        arbitrary()
    }
}

impl From<Inventory> for Vec<Snowflake> {
    /// The IDs of the inventory, each once, in no particular order.
    fn from(inv: Inventory) -> (r: Vec<Snowflake>)
        ensures
            snowflake_values(r@).to_set() == inv@,
            snowflake_values(r@).no_duplicates(),
    {
        inv.iter_ids()
    }
}

impl vstd::std_specs::convert::FromSpecImpl<Inventory> for Vec<Snowflake> {
    /// The listing of an inventory is described by the contract of `from`
    /// itself, since its order is not fixed.
    open spec fn obeys_from_spec() -> bool {
        false
    }

    closed spec fn from_spec(v: Inventory) -> Vec<Snowflake> {
        arbitrary()
    }
}

impl Default for Inventory {
    /// An empty inventory.
    fn default() -> (r: Inventory)
        ensures
            r@ == Set::<u64>::empty(),
    {
        Inventory::empty()
    }
}

} // verus!
