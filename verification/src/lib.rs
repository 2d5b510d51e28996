//! Verified core of a restaurant point-of-sale backend.
//!
//! The crate holds the rules of two subsystems and proves them with Verus:
//! the order settlement engine (an order's way from draft to confirmed,
//! cooked and paid, with the stock and revenue bookkeeping that the
//! transitions trigger) and the menu publication cache (dated menu snapshots
//! behind a single active pointer). Every rule is a function on plain values,
//! so a service can run it between its own reads and writes; an in-memory
//! database and an in-memory keyspace run the same rules end to end.

pub mod calendar;
pub mod catalog;
pub mod database;
pub mod db_models;
pub mod errors;
pub mod insertable;
pub mod keyspace;
pub mod lookup;
pub mod menu_cache;
pub mod menu_cache_laws;
pub mod menu_keys;
pub mod messages;
pub mod selection;
pub mod settlement;
pub mod settlement_laws;
pub mod stock;
pub mod text;
pub mod types;
