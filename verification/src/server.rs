//! The server-side game model: unsigned resource counters, cards and
//! card inventories, player resource transactions, and the errors that
//! the HTTP API reports.
pub mod api;
pub mod card;
pub mod inventory_api;
pub mod local_storage;
pub mod metadata;
pub mod resources;
pub mod router;
pub mod store;
