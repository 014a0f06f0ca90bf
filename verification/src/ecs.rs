//! Storage of components: the interface of component storage backends.
pub mod component_store;
