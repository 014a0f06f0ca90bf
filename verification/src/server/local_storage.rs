//! In-memory storage of cards and inventories for the game server.
//!
//! Cards are kept in one table keyed by card ID; an inventory is kept as
//! the list of the IDs of its cards, and its cards live in the card table.
use vstd::prelude::*;

use std::collections::HashMap;
use vstd::std_specs::iter::IteratorSpec;

use crate::local_storage::{id_values, to_snowflakes};
use crate::paging::page_of;
use crate::server::card::{keyed_by_id, Card, Inventory};
use crate::server::store::NotFoundError;
use crate::snowflake::Snowflake;

verus! {

broadcast use vstd::std_specs::hash::group_hash_axioms;

/// The cards that loading an inventory stored as the ID list `ids` finds in
/// the card table `cards`: each listed card that the table holds, keyed by
/// its own ID; listed IDs missing from the table are skipped.
pub open spec fn collect_cards(ids: Seq<u64>, cards: Map<u64, Card>) -> Map<u64, Card>
    decreases ids.len(),
{
    if ids.len() == 0 {
        Map::empty()
    } else {
        let m = collect_cards(ids.drop_last(), cards);
        let k = ids.last();
        if cards.contains_key(k) {
            m.insert(cards[k].spec_id()@, cards[k])
        } else {
            m
        }
    }
}

/// `r` is page `page` (of `limit` entries) of some listing of the IDs
/// `ids`, each listed once, in an order that is not fixed.
pub open spec fn page_of_some_listing(r: Seq<u64>, ids: Set<u64>, page: int, limit: int) -> bool {
    exists|order: Seq<u64>|
        #![trigger page_of(order, page, limit)]
        order.to_set() == ids && order.no_duplicates() && r == page_of(order, page, limit)
}

/// Every entry of such a page is one of the listed IDs.
pub proof fn lemma_page_members(r: Seq<u64>, ids: Set<u64>, page: int, limit: int)
    requires
        0 <= page,
        0 <= limit,
        page_of_some_listing(r, ids, page, limit),
    ensures
        forall|i: int| 0 <= i < r.len() ==> ids.contains(#[trigger] r[i]),
{
    let order = choose|order: Seq<u64>|
        #![trigger page_of(order, page, limit)]
        order.to_set() == ids && order.no_duplicates() && r == page_of(order, page, limit);
    let start = if page * limit < order.len() {
        page * limit
    } else {
        order.len() as int
    };
    let end = if start + limit < order.len() {
        start + limit
    } else {
        order.len() as int
    };
    assert(r == order.subrange(start, end));
    assert forall|i: int| 0 <= i < r.len() implies ids.contains(#[trigger] r[i]) by {
        assert(r[i] == order[start + i]);
        assert(order.to_set().contains(order[start + i]));
    }
}

/// The mathematical state of a [`LocalStoreBackend`].
pub struct BackendView {
    /// The card table.
    pub cards: Map<u64, Card>,
    /// Each stored inventory as the list of its card IDs.
    pub inventories: Map<u64, Seq<u64>>,
}

/// In-memory storage of cards and inventories.
pub struct LocalStoreBackend {
    cards: HashMap<u64, Card>,
    inventories: HashMap<u64, Vec<u64>>,
}

impl View for LocalStoreBackend {
    type V = BackendView;

    closed spec fn view(&self) -> BackendView {
        BackendView {
            cards: self.cards@,
            inventories: Map::new(|k: u64| self.inventories@.contains_key(k), |k: u64| self.inventories@[k]@),
        }
    }
}

/// Page `page` of the keys of `m`, in the order the map hands them out.
pub(crate) fn page_of_keys<V>(m: &HashMap<u64, V>, page: u64, limit: u64) -> (r: Vec<Snowflake>)
    requires
        page * limit <= u64::MAX,
    ensures
        page_of_some_listing(id_values(r@), m@.dom(), page as int, limit as int),
{
    let mut keys: Vec<u64> = Vec::new();
    let ghost order = vstd::std_specs::hash::spec_keys_iter(m).remaining().unref();
    for k in it: m.keys()
        invariant
            order == it.seq().unref(),
            keys@ == order.take(it.index()),
    {
        keys.push(*k);
        proof {
            assert(order.take(it.index() + 1) =~= order.take(it.index()).push(*k));
        }
    }
    proof {
        assert(keys@ =~= order);
    }
    let window = crate::paging::page_window(&keys, page, limit);
    let r = to_snowflakes(&window);
    proof {
        let refs = vstd::std_specs::hash::spec_keys_iter(m).remaining();
        assert forall|i: int, j: int| 0 <= i < j < order.len() implies order[i] != order[j] by {
            assert(refs[i] != refs[j]);
        }
        assert(order.to_set() == m@.dom());
        assert(id_values(r@) == page_of(order, page as int, limit as int));
    }
    r
}

impl LocalStoreBackend {
    /// An empty storage.
    pub fn new() -> (r: LocalStoreBackend)
        ensures
            r@.cards == Map::<u64, Card>::empty(),
            r@.inventories == Map::<u64, Seq<u64>>::empty(),
    {
        let r = LocalStoreBackend { cards: HashMap::new(), inventories: HashMap::new() };
        assert(r@.inventories =~= Map::<u64, Seq<u64>>::empty());
        r
    }

    /// Checks whether a card with this ID is stored.
    pub fn contains_card(&self, id: Snowflake) -> (r: bool)
        ensures
            r == self@.cards.contains_key(id@),
    {
        let key: u64 = id.into();
        self.cards.contains_key(&key)
    }

    /// Loads the card with this ID.
    pub fn load_card(&self, id: Snowflake) -> (r: Result<Card, NotFoundError>)
        ensures
            match r {
                Ok(c) => self@.cards.contains_key(id@) && c == self@.cards[id@],
                Err(e) => !self@.cards.contains_key(id@) && e.spec_id() == id,
            },
    {
        let key: u64 = id.into();
        match self.cards.get(&key) {
            None => Err(NotFoundError::new(id)),
            Some(card) => Ok(*card),
        }
    }

    /// Stores a card under this ID.
    pub fn store_card(&mut self, id: Snowflake, data: &Card)
        ensures
            final(self)@.cards == old(self)@.cards.insert(id@, *data),
            final(self)@.inventories == old(self)@.inventories,
    {
        let key: u64 = id.into();
        self.cards.insert(key, *data);
    }

    /// Deletes the card with this ID, if stored.
    pub fn delete_card(&mut self, id: Snowflake)
        ensures
            final(self)@.cards == old(self)@.cards.remove(id@),
            final(self)@.inventories == old(self)@.inventories,
    {
        let key: u64 = id.into();
        self.cards.remove(&key);
    }

    /// Lists up to `limit` card IDs, skipping the first `page * limit`, in
    /// the order the card table hands them out.
    pub fn card_keys(&self, page: u64, limit: u64) -> (r: Vec<Snowflake>)
        requires
            page * limit <= u64::MAX,
        ensures
            page_of_some_listing(id_values(r@), self@.cards.dom(), page as int, limit as int),
    {
        page_of_keys(&self.cards, page, limit)
    }

    /// Checks whether an inventory with this ID is stored.
    pub fn contains_inventory(&self, id: Snowflake) -> (r: bool)
        ensures
            r == self@.inventories.contains_key(id@),
    {
        let key: u64 = id.into();
        self.inventories.contains_key(&key)
    }

    /// Loads the inventory with this ID: its listed cards that the card
    /// table holds.
    pub fn load_inventory(&self, id: Snowflake) -> (r: Result<Inventory, NotFoundError>)
        ensures
            match r {
                Ok(inv) => {
                    &&& self@.inventories.contains_key(id@)
                    &&& inv@.id == id
                    &&& inv@.cards == collect_cards(self@.inventories[id@], self@.cards)
                },
                Err(e) => !self@.inventories.contains_key(id@) && e.spec_id() == id,
            },
    {
        let key: u64 = id.into();
        match self.inventories.get(&key) {
            None => Err(NotFoundError::new(id)),
            Some(v) => {
                let mut inv = Inventory::empty(id);
                let mut i: usize = 0;
                while i < v.len()
                    invariant
                        0 <= i <= v@.len(),
                        inv@.id == id,
                        inv@.cards == collect_cards(v@.take(i as int), self@.cards),
                    decreases v@.len() - i,
                {
                    proof {
                        assert(v@.take(i + 1).drop_last() =~= v@.take(i as int));
                    }
                    let card_id = v[i];
                    match self.cards.get(&card_id) {
                        Some(card) => {
                            inv.insert(*card);
                        },
                        None => {},
                    }
                    i = i + 1;
                }
                proof {
                    assert(v@.take(v@.len() as int) =~= v@);
                }
                Ok(inv)
            },
        }
    }

    /// Stores an inventory under this ID: its cards go into the card table,
    /// and the list of their IDs is kept for the inventory.
    pub fn store_inventory(&mut self, id: Snowflake, data: &Inventory)
        ensures
            final(self)@.cards == old(self)@.cards.union_prefer_right(data@.cards),
            final(self)@.inventories.dom() == old(self)@.inventories.dom().insert(id@),
            forall|k: u64| k != id@ && #[trigger] old(self)@.inventories.contains_key(k)
                ==> final(self)@.inventories[k] == old(self)@.inventories[k],
            final(self)@.inventories[id@].to_set() == data@.cards.dom(),
            final(self)@.inventories[id@].no_duplicates(),
    {
        data.check_keyed_by_id();
        let listed = data.iter();
        let ghost old_cards = self.cards@;
        let mut ids: Vec<u64> = Vec::new();
        let mut i: usize = 0;
        while i < listed.len()
            invariant
                0 <= i <= listed@.len(),
                listed@.to_set() == data@.cards.values(),
                listed@.len() == data@.cards.dom().len(),
                keyed_by_id(data@.cards),
                self.inventories@ == old(self).inventories@,
                ids@.len() == i,
                forall|j: int| 0 <= j < i ==> #[trigger] ids@[j] == listed@[j].spec_id()@,
                self.cards@ == old_cards.union_prefer_right(
                    Map::new(|k: u64| exists|j: int| 0 <= j < i && ids@[j] == k, |k: u64| data@.cards[k]),
                ),
            decreases listed@.len() - i,
        {
            let card = listed[i];
            let key: u64 = (*card.id()).into();
            proof {
                assert(listed@.to_set().contains(card));
                assert(data@.cards.values().contains(card));
                let w = choose|w: u64| data@.cards.contains_key(w) && data@.cards[w] == card;
                assert(data@.cards[w].spec_id()@ == w);
                assert(key == card.spec_id()@);
                assert(data@.cards.contains_key(key) && data@.cards[key] == card);
            }
            let ghost prev_cards = self.cards@;
            let ghost old_ids = ids@;
            self.cards.insert(key, card);
            ids.push(key);
            proof {
                let before = Map::new(
                    |k: u64| exists|j: int| 0 <= j < i && old_ids[j] == k,
                    |k: u64| data@.cards[k],
                );
                let after = Map::new(
                    |k: u64| exists|j: int| 0 <= j < i + 1 && ids@[j] == k,
                    |k: u64| data@.cards[k],
                );
                assert(ids@[i as int] == key);
                assert forall|k: u64| #[trigger] after.contains_key(k) <==> before.insert(key, card).contains_key(k) by {
                    if after.contains_key(k) {
                        let j = choose|j: int| 0 <= j < i + 1 && ids@[j] == k;
                        if j < i {
                            assert(old_ids[j] == ids@[j]);
                            assert(before.contains_key(k));
                        }
                    }
                    if before.contains_key(k) {
                        let j = choose|j: int| 0 <= j < i && old_ids[j] == k;
                        assert(ids@[j] == old_ids[j]);
                        assert(0 <= j < i + 1 && ids@[j] == k);
                    }
                    if k == key {
                        assert(0 <= i < i + 1 && ids@[i as int] == k);
                    }
                }
                assert(after =~= before.insert(key, card));
                assert(prev_cards == old_cards.union_prefer_right(before));
                assert(self.cards@ == prev_cards.insert(key, card));
                assert(old_cards.union_prefer_right(before.insert(key, card)) =~= old_cards.union_prefer_right(
                    before,
                ).insert(key, card));
                assert(self.cards@ =~= old_cards.union_prefer_right(after));
            }
            i = i + 1;
        }
        proof {
            let listed_ids = Map::new(
                |k: u64| exists|j: int| 0 <= j < listed@.len() && ids@[j] == k,
                |k: u64| data@.cards[k],
            );
            assert forall|k: u64| #[trigger] listed_ids.contains_key(k) <==> data@.cards.contains_key(k) by {
                if listed_ids.contains_key(k) {
                    let j = choose|j: int| 0 <= j < listed@.len() && ids@[j] == k;
                    assert(listed@.to_set().contains(listed@[j]));
                    let w = choose|w: u64| data@.cards.contains_key(w) && data@.cards[w] == listed@[j];
                }
                if data@.cards.contains_key(k) {
                    assert(data@.cards.values().contains(data@.cards[k]));
                    assert(listed@.to_set().contains(data@.cards[k]));
                    let j = choose|j: int| 0 <= j < listed@.len() && listed@[j] == data@.cards[k];
                    assert(ids@[j] == k);
                }
            }
            assert(listed_ids =~= data@.cards);
            assert(ids@.to_set() =~= data@.cards.dom()) by {
                assert forall|k: u64| ids@.to_set().contains(k) <==> data@.cards.contains_key(k) by {
                    if ids@.to_set().contains(k) {
                        let j = choose|j: int| 0 <= j < ids@.len() && ids@[j] == k;
                        assert(listed_ids.contains_key(k));
                    }
                    if data@.cards.contains_key(k) {
                        assert(listed_ids.contains_key(k));
                        let j = choose|j: int| 0 <= j < listed@.len() && ids@[j] == k;
                        assert(ids@.to_set().contains(ids@[j]));
                    }
                }
            }
            assert(ids@.to_set().len() == ids@.len());
            ids@.lemma_no_dup_set_cardinality();
        }
        let key: u64 = id.into();
        let ghost stored_ids = ids@;
        self.inventories.insert(key, ids);
        proof {
            assert(self@.inventories =~= old(self)@.inventories.insert(id@, stored_ids));
        }
    }

    /// Deletes the inventory with this ID, if stored, together with the
    /// cards it lists.
    pub fn delete_inventory(&mut self, id: Snowflake)
        ensures
            final(self)@.inventories == old(self)@.inventories.remove(id@),
            old(self)@.inventories.contains_key(id@) ==> final(self)@.cards == old(self)@.cards.remove_keys(
                old(self)@.inventories[id@].to_set(),
            ),
            !old(self)@.inventories.contains_key(id@) ==> final(self)@.cards == old(self)@.cards,
    {
        let key: u64 = id.into();
        let removed = self.inventories.remove(&key);
        proof {
            assert(self@.inventories =~= old(self)@.inventories.remove(id@));
        }
        match removed {
            None => {},
            Some(inv) => {
                let ghost listed = inv@;
                let mut i: usize = 0;
                while i < inv.len()
                    invariant
                        0 <= i <= inv@.len(),
                        inv@ == listed,
                        self.cards@ == old(self).cards@.remove_keys(listed.take(i as int).to_set()),
                        self@.inventories == old(self)@.inventories.remove(id@),
                    decreases inv@.len() - i,
                {
                    let card_id = inv[i];
                    self.cards.remove(&card_id);
                    proof {
                        assert(listed.take(i + 1) =~= listed.take(i as int).push(card_id));
                        listed.take(i as int).lemma_push_to_set_commute(card_id);
                        assert(self.cards@ =~= old(self).cards@.remove_keys(listed.take(i + 1).to_set()));
                        assert(self@.inventories =~= old(self)@.inventories.remove(id@));
                    }
                    i = i + 1;
                }
                proof {
                    assert(listed.take(listed.len() as int) =~= listed);
                }
            },
        }
    }

    /// Lists up to `limit` inventory IDs, skipping the first
    /// `page * limit`, in the order the inventory table hands them out.
    pub fn inventory_keys(&self, page: u64, limit: u64) -> (r: Vec<Snowflake>)
        requires
            page * limit <= u64::MAX,
        ensures
            page_of_some_listing(id_values(r@), self@.inventories.dom(), page as int, limit as int),
    {
        assert(self@.inventories.dom() =~= self.inventories@.dom());
        page_of_keys(&self.inventories, page, limit)
    }
}

proof fn lemma_collect_listed(ids: Seq<u64>, cards: Map<u64, Card>)
    requires
        forall|j: int|
            0 <= j < ids.len() ==> cards.contains_key(#[trigger] ids[j]) && cards[ids[j]].spec_id()@ == ids[j],
    ensures
        collect_cards(ids, cards) == Map::new(|k: u64| ids.contains(k), |k: u64| cards[k]),
    decreases ids.len(),
{
    if ids.len() > 0 {
        let pre = ids.drop_last();
        assert forall|j: int| 0 <= j < pre.len() implies cards.contains_key(#[trigger] pre[j])
            && cards[pre[j]].spec_id()@ == pre[j] by {
            assert(pre[j] == ids[j]);
        }
        lemma_collect_listed(pre, cards);
        let k = ids.last();
        assert(cards[k].spec_id()@ == k);
        assert forall|x: u64| #[trigger] ids.contains(x) <==> (pre.contains(x) || x == k) by {
            if ids.contains(x) {
                let j = choose|j: int| 0 <= j < ids.len() && ids[j] == x;
                if j < ids.len() - 1 {
                    assert(pre[j] == x);
                }
            }
            if pre.contains(x) {
                let j = choose|j: int| 0 <= j < pre.len() && pre[j] == x;
                assert(ids[j] == x);
            }
            if x == k {
                assert(ids[ids.len() - 1] == x);
            }
        }
        assert(collect_cards(ids, cards) =~= Map::new(|x: u64| ids.contains(x), |x: u64| cards[x]));
    } else {
        assert(collect_cards(ids, cards) =~= Map::new(|x: u64| ids.contains(x), |x: u64| cards[x]));
    }
}

/// Loading an inventory right after storing it gives back exactly its
/// cards, whatever else the card table held before.
pub proof fn law_inventory_round_trip(table: Map<u64, Card>, inv_cards: Map<u64, Card>, listed: Seq<u64>)
    requires
        keyed_by_id(inv_cards),
        listed.to_set() == inv_cards.dom(),
    ensures
        collect_cards(listed, table.union_prefer_right(inv_cards)) == inv_cards,
{
    let merged = table.union_prefer_right(inv_cards);
    assert forall|j: int| 0 <= j < listed.len() implies merged.contains_key(#[trigger] listed[j])
        && merged[listed[j]].spec_id()@ == listed[j] by {
        assert(listed.to_set().contains(listed[j]));
        assert(inv_cards.contains_key(listed[j]));
    }
    lemma_collect_listed(listed, merged);
    assert forall|k: u64| listed.contains(k) <==> #[trigger] inv_cards.contains_key(k) by {
        assert(listed.to_set().contains(k) == listed.contains(k));
    }
    assert(Map::new(|k: u64| listed.contains(k), |k: u64| merged[k]) =~= inv_cards);
}

} // verus!
