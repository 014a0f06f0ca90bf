//! Storage of entities: the interface of storage backends, and handles
//! that hold one entity on its way to and from a backend.
use vstd::prelude::*;

use std::marker::PhantomData;

use crate::local_storage::id_values;
use crate::snowflake::Snowflake;

verus! {

/// An interface for loading and storing entities of type `T` by ID.
///
/// Its contracts speak of the entities in storage, keyed by ID, as given by
/// [`StoreBackend::contents`]. Entities go in and come out as clones.
pub trait StoreBackend<T: Clone> {
    /// The entities currently in storage, keyed by ID.
    spec fn contents(&self) -> Map<u64, T>;

    /// Loads (a clone of) the entity with the given ID, if one is stored.
    fn load(&self, id: Snowflake) -> (r: Option<T>)
        ensures
            match r {
                Some(v) => self.contents().contains_key(id@) && cloned(self.contents()[id@], v),
                None => !self.contents().contains_key(id@),
            },
    ;

    /// Checks to see if an entity with the given ID is stored.
    fn contains(&self, id: Snowflake) -> (r: bool)
        ensures
            r == self.contents().contains_key(id@),
    ;

    /// Saves (a clone of) an entity under the given ID, replacing any
    /// entity stored there before.
    fn store(&mut self, id: Snowflake, object: &T)
        ensures
            final(self).contents() == old(self).contents().insert(id@, final(self).contents()[id@]),
            cloned(*object, final(self).contents()[id@]),
    ;

    /// Deletes the entity with the given ID, if any.
    fn delete(&mut self, id: Snowflake)
        ensures
            final(self).contents() == old(self).contents().remove(id@),
    ;

    /// The IDs, as integers, that [`StoreBackend::keys`] lists for page
    /// `page` with `limit` IDs per page.
    spec fn listed_ids(&self, page: int, limit: int) -> Seq<u64>;

    /// Lists up to `limit` stored IDs, skipping the first `page * limit`.
    fn keys(&self, page: u64, limit: u64) -> (r: Vec<Snowflake>)
        requires
            page * limit <= u64::MAX,
        ensures
            id_values(r@) == self.listed_ids(page as int, limit as int),
            r@.len() <= limit,
            forall|i: int| 0 <= i < r@.len() ==> self.contents().contains_key(#[trigger] r@[i]@),
    ;
}

/// A handle to one entity: its ID, and the entity itself if there is one.
#[derive(Debug)]
pub struct StoreHandle<T> {
    id: Snowflake,
    object: Option<T>,
}

impl<T> StoreHandle<T> {
    /// The ID this handle is for.
    pub closed spec fn spec_id(&self) -> Snowflake {
        self.id
    }

    /// The entity held by this handle, if any.
    pub closed spec fn spec_object(&self) -> Option<T> {
        self.object
    }

    /// A handle for the given ID holding the given entity, if any.
    pub fn new(id: Snowflake, object: Option<T>) -> (r: StoreHandle<T>)
        ensures
            r.spec_id() == id,
            r.spec_object() == object,
    {
        StoreHandle { id, object }
    }

    /// Gets a reference to the object within this handle.
    pub fn get(&self) -> (r: Option<&T>)
        ensures
            r == (match self.spec_object() {
                Some(o) => Some(&o),
                None => None,
            }),
    {
        self.object.as_ref()
    }

    /// Replaces the object within this handle with something else,
    /// returning what was there before.
    pub fn replace(&mut self, object: T) -> (r: Option<T>)
        ensures
            final(self).spec_id() == old(self).spec_id(),
            final(self).spec_object() == Some(object),
            r == old(self).spec_object(),
    {
        let prev = self.object.take();
        self.object = Some(object);
        prev
    }

    /// Gets the ID of the entity in this handle.
    pub fn id(&self) -> (r: Snowflake)
        ensures
            r == self.spec_id(),
    {
        self.id
    }

    /// Checks whether anything is actually contained in this handle.
    pub fn has_object(&self) -> (r: bool)
        ensures
            r == self.spec_object() is Some,
    {
        self.object.is_some()
    }

    /// Puts whatever is in this handle into storage: (a clone of) the
    /// entity, or, for an empty handle, the deletion of the stored one.
    pub fn store<B: StoreBackend<T>>(&self, backend: &mut B)
        where
            T: Clone,
        ensures
            match self.spec_object() {
                Some(o) => {
                    &&& final(backend).contents() == old(backend).contents().insert(
                        self.spec_id()@,
                        final(backend).contents()[self.spec_id()@],
                    )
                    &&& cloned(o, final(backend).contents()[self.spec_id()@])
                },
                None => final(backend).contents() == old(backend).contents().remove(self.spec_id()@),
            },
    {
        match &self.object {
            None => backend.delete(self.id),
            Some(obj) => backend.store(self.id, obj),
        }
    }

    /// Clears out the data in this handle, then deletes the entity from
    /// storage.
    pub fn delete<B: StoreBackend<T>>(&mut self, backend: &mut B)
        where
            T: Clone,
        ensures
            final(self).spec_id() == old(self).spec_id(),
            final(self).spec_object() is None,
            final(backend).contents() == old(backend).contents().remove(old(self).spec_id()@),
    {
        self.object = None;
        backend.delete(self.id);
    }
}

/// Loads and stores entities of type `T` through a storage backend,
/// handing them out in [`StoreHandle`]s.
pub struct Store<T, B> {
    backend: B,
    entity_type: PhantomData<T>,
}

impl<T: Clone, B: StoreBackend<T>> Store<T, B> {
    /// The storage backend.
    pub closed spec fn backend(&self) -> B {
        self.backend
    }

    /// Creates a new `Store` using the given storage backend.
    pub fn new(backend: B) -> (r: Store<T, B>)
        ensures
            r.backend() == backend,
    {
        Store { backend, entity_type: PhantomData }
    }

    /// A handle to the entity with the given ID, holding (a clone of) the
    /// stored entity if there is one, and nothing otherwise.
    pub fn load(&self, id: Snowflake) -> (r: StoreHandle<T>)
        ensures
            r.spec_id() == id,
            match r.spec_object() {
                Some(o) => self.backend().contents().contains_key(id@) && cloned(
                    self.backend().contents()[id@],
                    o,
                ),
                None => !self.backend().contents().contains_key(id@),
            },
    {
        StoreHandle::new(id, self.backend.load(id))
    }

    /// Puts (a clone of) the given entity into storage under the given ID,
    /// overwriting any entity stored there before.
    pub fn store(&mut self, id: Snowflake, object: T)
        ensures
            final(self).backend().contents() == old(self).backend().contents().insert(
                id@,
                final(self).backend().contents()[id@],
            ),
            cloned(object, final(self).backend().contents()[id@]),
    {
        let mut handle = self.load(id);
        handle.replace(object);
        handle.store(&mut self.backend);
    }

    /// Puts whatever a handle holds into storage: (a clone of) its entity,
    /// or, for an empty handle, the deletion of the stored one.
    pub fn store_handle(&mut self, handle: &StoreHandle<T>)
        ensures
            match handle.spec_object() {
                Some(o) => {
                    &&& final(self).backend().contents() == old(self).backend().contents().insert(
                        handle.spec_id()@,
                        final(self).backend().contents()[handle.spec_id()@],
                    )
                    &&& cloned(o, final(self).backend().contents()[handle.spec_id()@])
                },
                None => final(self).backend().contents() == old(self).backend().contents().remove(
                    handle.spec_id()@,
                ),
            },
    {
        handle.store(&mut self.backend);
    }

    /// Deletes the entity with the given ID from storage.
    pub fn delete(&mut self, id: Snowflake)
        ensures
            final(self).backend().contents() == old(self).backend().contents().remove(id@),
    {
        let mut handle = self.load(id);
        handle.delete(&mut self.backend);
    }

    /// Checks to see if an entity with the given ID is stored.
    pub fn contains(&self, id: Snowflake) -> (r: bool)
        ensures
            r == self.backend().contents().contains_key(id@),
    {
        self.backend.contains(id)
    }

    /// Lists up to `limit` stored IDs, skipping the first `page * limit`:
    /// exactly the IDs that the backend lists for that page.
    pub fn keys(&self, page: u64, limit: u64) -> (r: Vec<Snowflake>)
        requires
            page * limit <= u64::MAX,
        ensures
            id_values(r@) == self.backend().listed_ids(page as int, limit as int),
            r@.len() <= limit,
            forall|i: int| 0 <= i < r@.len() ==> self.backend().contents().contains_key(#[trigger] r@[i]@),
    {
        self.backend.keys(page, limit)
    }
}

} // verus!
