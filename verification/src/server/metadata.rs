//! Metadata attached to objects and kept by providers.
use vstd::prelude::*;

verus! {

/// A source of metadata of type [`MetadataProvider::Item`] about objects
/// of type `T`.
pub trait MetadataProvider<'a, 'b, T> {
    /// The metadata handed out.
    type Item;

    /// Why metadata could not be read or written.
    type Error;

    /// The metadata about `attached_to`.
    fn get(&'a self, attached_to: &'b T) -> Result<Self::Item, Self::Error>;
}

/// A metadata provider whose metadata can be changed.
pub trait MutableMetadataProvider<'a, 'b, T>: MetadataProvider<'a, 'b, T> {
    /// Replaces the metadata about `attached_to`.
    fn set(&'a mut self, attached_to: &'b T, data: Self::Item) -> Result<(), Self::Error>;

    /// Removes the metadata about `attached_to`.
    fn clear(&'a mut self, attached_to: &'b T) -> Result<(), Self::Error>;
}

/// Objects that metadata can be attached to. Each method hands the object
/// to the given provider.
pub trait MetadataAttached: Sized {
    /// The metadata that `provider` holds about this object: a result that
    /// `provider.get` gives for this object.
    fn get_metadata<'a, 'b, U: MetadataProvider<'a, 'b, Self>>(&'b self, provider: &'a U) -> (r: Result<
        U::Item,
        U::Error,
    >)
        ensures
            call_ensures(U::get, (provider, self), r),
    {
        provider.get(self)
    }

    /// Replaces the metadata that `provider` holds about this object: the
    /// result, and the provider afterwards, are those of one call of
    /// `provider.set` with this object and `data`.
    fn set_metadata<'a, 'b, U: MutableMetadataProvider<'a, 'b, Self>>(
        &'b self,
        provider: &'a mut U,
        data: U::Item,
    ) -> (r: Result<(), U::Error>)
        ensures
            exists|p: &'a mut U|
                mut_ref_current(p) == *old(provider) && mut_ref_future(p) == *final(provider)
                    && call_ensures(U::set, (p, self, data), r),
    {
        provider.set(self, data)
    }

    /// Removes the metadata that `provider` holds about this object: the
    /// result, and the provider afterwards, are those of one call of
    /// `provider.clear` with this object.
    fn clear_metadata<'a, 'b, U: MutableMetadataProvider<'a, 'b, Self>>(&'b self, provider: &'a mut U) -> (r:
        Result<(), U::Error>)
        ensures
            exists|p: &'a mut U|
                mut_ref_current(p) == *old(provider) && mut_ref_future(p) == *final(provider)
                    && call_ensures(U::clear, (p, self), r),
    {
        provider.clear(self)
    }
}

} // verus!
