//! The data model of a small example game built on the library: one
//! capped resource per player, named and typed cards, the entity manager
//! that keeps them, and the errors its API reports.
pub mod entities;
pub mod models;
pub mod utils;
