//! A trait for defining component storage backends, and an in-memory one.
use vstd::prelude::*;

use std::collections::HashMap;
use std::marker::PhantomData;

use crate::components::card_type::AttachedCardType;
use crate::components::inventory::{snowflake_values, Inventory};
use crate::snowflake::Snowflake;

verus! {

broadcast use vstd::std_specs::hash::group_hash_axioms;

/// Backing storage for components of type `U`, one per entity, keyed by the
/// entity's ID.
///
/// Its contracts speak of the set of entity IDs that have a stored
/// component, as given by [`ComponentBackend::entities`], of the
/// components that a load can give for an entity, as given by
/// [`ComponentBackend::loads`], and of what a load can give back of a
/// stored component, as given by [`ComponentBackend::round_trip`].
pub trait ComponentBackend<U> {
    /// The IDs of the entities that have a stored component.
    spec fn entities(&self) -> Set<u64>;

    /// `v` is a component that loading the entity's component can give.
    spec fn loads(&self, entity: u64, v: U) -> bool;

    /// `v` is a component that loading can give back after `c` was stored.
    spec fn round_trip(c: U, v: U) -> bool;

    /// Loads the component stored for an entity, if any.
    fn load(&self, entity: Snowflake) -> (r: Option<U>)
        ensures
            match r {
                Some(v) => self.entities().contains(entity@) && self.loads(entity@, v),
                None => !self.entities().contains(entity@),
            },
    ;

    /// Saves the component of an entity; what a later load of that entity
    /// gives is a round trip of it, and other entities keep theirs.
    fn store(&mut self, entity: Snowflake, component: U)
        ensures
            final(self).entities() == old(self).entities().insert(entity@),
            forall|v: U| #[trigger] final(self).loads(entity@, v) ==> Self::round_trip(component, v),
            forall|k: u64, v: U|
                k != entity@ ==> (#[trigger] final(self).loads(k, v) == old(self).loads(k, v)),
    ;

    /// Checks to see if there is a stored component for the entity.
    fn contains(&self, entity: Snowflake) -> (r: bool)
        ensures
            r == self.entities().contains(entity@),
    ;

    /// Deletes the stored component of the entity, if any; other entities
    /// keep theirs.
    fn delete(&mut self, entity: Snowflake)
        ensures
            final(self).entities() == old(self).entities().remove(entity@),
            forall|k: u64, v: U|
                k != entity@ ==> (#[trigger] final(self).loads(k, v) == old(self).loads(k, v)),
    ;
}

/// A component could not be converted to the type it was registered under.
#[derive(Clone, Copy, Debug)]
pub struct DowncastError {
    pub component_name: &'static str,
}

/// In-memory component storage backend.
///
/// This is mainly meant for use in testing and for prototyping. It has
/// no provisions for storing data to a persistent medium.
pub struct LocalComponentStorage<U> {
    data: HashMap<u64, U>,
}

impl<U> View for LocalComponentStorage<U> {
    type V = Map<u64, U>;

    closed spec fn view(&self) -> Map<u64, U> {
        self.data@
    }
}

impl<U: Clone> LocalComponentStorage<U> {
    /// An empty storage.
    pub fn new() -> (r: LocalComponentStorage<U>)
        ensures
            r@ == Map::<u64, U>::empty(),
    {
        LocalComponentStorage { data: HashMap::new() }
    }
}

impl<U: Clone> ComponentBackend<U> for LocalComponentStorage<U> {
    closed spec fn entities(&self) -> Set<u64> {
        self.data@.dom()
    }

    /// A load gives a clone of the stored component.
    open spec fn loads(&self, entity: u64, v: U) -> bool {
        self@.contains_key(entity) && cloned(self@[entity], v)
    }

    /// A load gives back a clone of what was stored.
    open spec fn round_trip(c: U, v: U) -> bool {
        cloned(c, v)
    }

    fn load(&self, entity: Snowflake) -> (r: Option<U>)
        ensures
            match r {
                Some(v) => self@.contains_key(entity@) && cloned(self@[entity@], v),
                None => !self@.contains_key(entity@),
            },
    {
        let key: u64 = entity.into();
        match self.data.get(&key) {
            Some(v) => Some(v.clone()),
            None => None,
        }
    }

    fn store(&mut self, entity: Snowflake, component: U)
        ensures
            final(self)@ == old(self)@.insert(entity@, component),
    {
        let key: u64 = entity.into();
        self.data.insert(key, component);
    }

    fn contains(&self, entity: Snowflake) -> (r: bool)
        ensures
            r == self@.contains_key(entity@),
    {
        let key: u64 = entity.into();
        self.data.contains_key(&key)
    }

    fn delete(&mut self, entity: Snowflake)
        ensures
            final(self)@ == old(self)@.remove(entity@),
    {
        let key: u64 = entity.into();
        self.data.remove(&key);
    }
}

/// A [`ComponentBackend`] for components of type `T` that keeps them in a
/// wrapped backend for components of type `F`, converting each component
/// on its way in and out.
pub struct ComponentAdapter<F, T, W> {
    wrapped: W,
    from_type: PhantomData<F>,
    to_type: PhantomData<T>,
}

impl<F, T, W> ComponentAdapter<F, T, W> {
    /// The wrapped backend.
    pub closed spec fn wrapped(&self) -> W {
        self.wrapped
    }

    /// Wraps a backend.
    pub fn new(wrapped: W) -> (r: ComponentAdapter<F, T, W>)
        ensures
            r.wrapped() == wrapped,
    {
        ComponentAdapter { wrapped, from_type: PhantomData, to_type: PhantomData }
    }
}

impl<F: From<T>, T: From<F>, W: ComponentBackend<F>> ComponentBackend<T> for ComponentAdapter<F, T, W> {
    /// The entities that the wrapped backend holds a component for.
    closed spec fn entities(&self) -> Set<u64> {
        self.wrapped.entities()
    }

    /// A load gives the conversion of what the wrapped backend loads.
    open spec fn loads(&self, entity: u64, v: T) -> bool {
        exists|f: F| #[trigger] self.wrapped().loads(entity, f) && call_ensures(T::from, (f,), v)
    }

    /// A load gives back the conversion of a round trip, through the
    /// wrapped backend, of the conversion of what was stored.
    open spec fn round_trip(c: T, v: T) -> bool {
        exists|x: F, f: F|
            #![trigger W::round_trip(x, f)]
            call_ensures(F::from, (c,), x) && W::round_trip(x, f) && call_ensures(T::from, (f,), v)
    }

    /// Loads the wrapped component and converts it.
    fn load(&self, entity: Snowflake) -> (r: Option<T>)
        ensures
            r is Some <==> self.wrapped().entities().contains(entity@),
    {
        match self.wrapped.load(entity) {
            Some(other) => {
                let ghost f = other;
                let v = T::from(other);
                assert(self.wrapped().loads(entity@, f) && call_ensures(T::from, (f,), v));
                Some(v)
            },
            None => None,
        }
    }

    /// Converts the component and stores it in the wrapped backend.
    fn store(&mut self, entity: Snowflake, component: T)
        ensures
            final(self).wrapped().entities() == old(self).wrapped().entities().insert(entity@),
    {
        let ghost c = component;
        let x = F::from(component);
        let ghost xg = x;
        self.wrapped.store(entity, x);
        proof {
            assert forall|v: T| #[trigger] self.loads(entity@, v) implies Self::round_trip(c, v) by {
                let f = choose|f: F| #[trigger] self.wrapped().loads(entity@, f) && call_ensures(T::from, (f,), v);
                assert(W::round_trip(xg, f));
            }
            assert forall|k: u64, v: T| k != entity@ implies (#[trigger] self.loads(k, v) == old(self).loads(k, v)) by {
                if self.loads(k, v) {
                    let f = choose|f: F| #[trigger] self.wrapped().loads(k, f) && call_ensures(T::from, (f,), v);
                    assert(old(self).wrapped().loads(k, f));
                }
                if old(self).loads(k, v) {
                    let f = choose|f: F| #[trigger] old(self).wrapped().loads(k, f) && call_ensures(T::from, (f,), v);
                    assert(self.wrapped().loads(k, f));
                }
            }
        }
    }

    fn contains(&self, entity: Snowflake) -> (r: bool)
        ensures
            r == self.wrapped().entities().contains(entity@),
    {
        self.wrapped.contains(entity)
    }

    fn delete(&mut self, entity: Snowflake)
        ensures
            final(self).wrapped().entities() == old(self).wrapped().entities().remove(entity@),
    {
        self.wrapped.delete(entity);
        proof {
            assert forall|k: u64, v: T| k != entity@ implies (#[trigger] self.loads(k, v) == old(self).loads(k, v)) by {
                if self.loads(k, v) {
                    let f = choose|f: F| #[trigger] self.wrapped().loads(k, f) && call_ensures(T::from, (f,), v);
                    assert(old(self).wrapped().loads(k, f));
                }
                if old(self).loads(k, v) {
                    let f = choose|f: F| #[trigger] old(self).wrapped().loads(k, f) && call_ensures(T::from, (f,), v);
                    assert(self.wrapped().loads(k, f));
                }
            }
        }
    }
}

/// Keeps [`AttachedCardType`](crate::components::card_type::AttachedCardType)
/// components as card type IDs in a wrapped backend.
pub type CardTypeLayer<W> = ComponentAdapter<Snowflake, crate::components::card_type::AttachedCardType, W>;

/// Keeps [`Inventory`](crate::components::inventory::Inventory) components as
/// lists of card IDs in a wrapped backend.
pub type InventoryBackendWrapper<W> = ComponentAdapter<Vec<Snowflake>, crate::components::inventory::Inventory, W>;

/// A card type kept as a type ID in in-memory storage loads back as the
/// very card type that was stored.
pub proof fn law_card_type_layer_round_trip(c: AttachedCardType, v: AttachedCardType)
    requires
        <CardTypeLayer<LocalComponentStorage<Snowflake>> as ComponentBackend<AttachedCardType>>::round_trip(c, v),
    ensures
        v@ == c@,
{
    let (x, f) = choose|x: Snowflake, f: Snowflake|
        #![trigger <LocalComponentStorage<Snowflake> as ComponentBackend<Snowflake>>::round_trip(x, f)]
        call_ensures(Snowflake::from, (c,), x) && <LocalComponentStorage<Snowflake> as ComponentBackend<
            Snowflake,
        >>::round_trip(x, f) && call_ensures(AttachedCardType::from, (f,), v);
    assert(x == c@);
    assert(f == x);
    assert(v@ == f);
}

/// An inventory kept as a list of card IDs in in-memory storage loads back
/// holding exactly the card IDs that were stored.
pub proof fn law_inventory_wrapper_round_trip(c: Inventory, v: Inventory)
    requires
        <InventoryBackendWrapper<LocalComponentStorage<Vec<Snowflake>>> as ComponentBackend<Inventory>>::round_trip(c, v),
    ensures
        v@ == c@,
{
    let (x, f) = choose|x: Vec<Snowflake>, f: Vec<Snowflake>|
        #![trigger <LocalComponentStorage<Vec<Snowflake>> as ComponentBackend<Vec<Snowflake>>>::round_trip(x, f)]
        call_ensures(<Vec<Snowflake> as From<Inventory>>::from, (c,), x) && <LocalComponentStorage<Vec<Snowflake>> as ComponentBackend<
            Vec<Snowflake>,
        >>::round_trip(x, f) && call_ensures(Inventory::from, (f,), v);
    assert(snowflake_values(x@).to_set() == c@);
    assert(f@ == x@);
    assert(v@ == snowflake_values(f@).to_set());
}

} // verus!
