//! Storage that works entirely in memory, for testing and prototyping.
use vstd::prelude::*;

use std::collections::HashMap;
use vstd::std_specs::iter::IteratorSpec;

use crate::paging::{insert_sorted, lemma_is_sorted_listing, page_of, page_window, sorted_listing, strictly_increasing};
use crate::snowflake::Snowflake;
use crate::store::StoreBackend;

verus! {

broadcast use vstd::std_specs::hash::group_hash_axioms;

/// The integer values of a sequence of snowflakes.
pub open spec fn id_values(s: Seq<Snowflake>) -> Seq<u64> {
    s.map_values(|x: Snowflake| x@)
}

/// Turns integer IDs into snowflakes, keeping their order.
pub fn to_snowflakes(ids: &Vec<u64>) -> (r: Vec<Snowflake>)
    ensures
        id_values(r@) == ids@,
{
    let mut out: Vec<Snowflake> = Vec::new();
    let mut i: usize = 0;
    while i < ids.len()
        invariant
            0 <= i <= ids@.len(),
            id_values(out@) == ids@.take(i as int),
        decreases ids@.len() - i,
    {
        let sf = Snowflake::from(ids[i]);
        let ghost before = out@;
        out.push(sf);
        proof {
            assert(id_values(out@) =~= id_values(before).push(sf@));
            assert(ids@.take(i + 1) =~= ids@.take(i as int).push(ids@[i as int]));
        }
        i = i + 1;
    }
    proof {
        assert(ids@.take(i as int) =~= ids@);
    }
    out
}

/// The stored IDs of a map, in increasing order.
pub fn sorted_keys<V>(data: &HashMap<u64, V>) -> (r: Vec<u64>)
    ensures
        r@ == sorted_listing(data@.dom()),
        strictly_increasing(r@),
        r@.to_set() == data@.dom(),
{
    let mut sorted: Vec<u64> = Vec::new();
    let ghost keys: Seq<u64> = vstd::std_specs::hash::spec_keys_iter(data).remaining().unref();
    for k in it: data.keys()
        invariant
            keys == it.seq().unref(),
            keys.no_duplicates(),
            strictly_increasing(sorted@),
            sorted@.to_set() == keys.take(it.index()).to_set(),
    {
        proof {
            assert(*k == keys[it.index()]);
            if sorted@.contains(*k) {
                assert(sorted@.to_set().contains(*k));
                let j = choose|j: int| 0 <= j < it.index() && keys.take(it.index())[j] == *k;
                assert(keys[j] == keys[it.index()]);
            }
        }
        insert_sorted(&mut sorted, *k);
        proof {
            assert(keys.take(it.index() + 1) =~= keys.take(it.index()).push(*k));
            keys.take(it.index()).lemma_push_to_set_commute(*k);
        }
    }
    proof {
        assert(keys.take(keys.len() as int) =~= keys);
        lemma_is_sorted_listing(sorted@);
    }
    sorted
}

/// In-memory entity storage backend.
///
/// This is mainly meant for use in testing and for prototyping. It has
/// no provisions for storing data to a persistent medium.
pub struct LocalEntityStorage<T> {
    data: HashMap<u64, T>,
}

impl<T> View for LocalEntityStorage<T> {
    type V = Map<u64, T>;

    closed spec fn view(&self) -> Map<u64, T> {
        self.data@
    }
}

impl<T: Clone> LocalEntityStorage<T> {
    /// An empty storage.
    pub fn new() -> (r: LocalEntityStorage<T>)
        ensures
            r@ == Map::<u64, T>::empty(),
    {
        LocalEntityStorage { data: HashMap::new() }
    }
}

impl<T: Clone> StoreBackend<T> for LocalEntityStorage<T> {
    closed spec fn contents(&self) -> Map<u64, T> {
        self.data@
    }

    /// The page of the sorted listing of the stored IDs.
    open spec fn listed_ids(&self, page: int, limit: int) -> Seq<u64> {
        page_of(sorted_listing(self@.dom()), page, limit)
    }

    fn load(&self, id: Snowflake) -> (r: Option<T>)
        ensures
            match r {
                Some(v) => self@.contains_key(id@) && cloned(self@[id@], v),
                None => !self@.contains_key(id@),
            },
    {
        let key: u64 = id.into();
        match self.data.get(&key) {
            Some(v) => Some(v.clone()),
            None => None,
        }
    }

    fn contains(&self, id: Snowflake) -> (r: bool)
        ensures
            r == self@.contains_key(id@),
    {
        let key: u64 = id.into();
        self.data.contains_key(&key)
    }

    fn store(&mut self, id: Snowflake, object: &T)
        ensures
            final(self)@ == old(self)@.insert(id@, final(self)@[id@]),
            cloned(*object, final(self)@[id@]),
    {
        let key: u64 = id.into();
        self.data.insert(key, object.clone());
    }

    fn delete(&mut self, id: Snowflake)
        ensures
            final(self)@ == old(self)@.remove(id@),
    {
        let key: u64 = id.into();
        self.data.remove(&key);
    }

    fn keys(&self, page: u64, limit: u64) -> (r: Vec<Snowflake>)
        ensures
            id_values(r@) == page_of(sorted_listing(self@.dom()), page as int, limit as int),
    {
        let sorted = sorted_keys(&self.data);
        let window = page_window(&sorted, page, limit);
        let r = to_snowflakes(&window);
        proof {
            let s = sorted_listing(self@.dom());
            assert(s == sorted@);
            assert forall|i: int| 0 <= i < r@.len() implies self.contents().contains_key(#[trigger] r@[i]@) by {
                assert(id_values(r@)[i] == r@[i]@);
                let start = if (page as int) * (limit as int) < s.len() {
                    (page as int) * (limit as int)
                } else {
                    s.len() as int
                };
                let end = if start + (limit as int) < s.len() {
                    start + (limit as int)
                } else {
                    s.len() as int
                };
                assert(window@ == s.subrange(start, end));
                assert(id_values(r@).len() == r@.len());
                assert(window@[i] == s[start + i]);
                assert(s.to_set().contains(s[start + i]));
            }
        }
        proof {
            assert(id_values(r@).len() == r@.len());
        }
        r
    }
}

} // verus!
