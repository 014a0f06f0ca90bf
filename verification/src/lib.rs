//! A library for building collectible card and gacha games.
//!
//! Players and cards are entities identified by unique [`Snowflake`] IDs;
//! data such as resources, card text and inventories are components that
//! are attached to them and kept in storage backends.
pub mod components;
pub mod ecs;
pub mod game;
pub mod local_storage;
pub mod paging;
pub mod resources;
pub mod server;
pub mod snowflake;
pub mod store;

pub use components::{AttachedCardType, CardText, Inventory, Resource};
pub use snowflake::{Snowflake, SnowflakeGenerator};
pub use store::{Store, StoreBackend, StoreHandle};
