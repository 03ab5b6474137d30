//! Core of a multi-tenant resource-storage system: typed identifiers with
//! optimistic-concurrency versions, a composable boolean query algebra,
//! and a permission-checked collection facade over an in-memory store.

pub mod id;
pub mod version;
pub mod error;
pub mod pairs;
pub mod order;
pub mod query;
pub mod amount;
pub mod date;
pub mod user;
pub mod account;
pub mod transaction;
pub mod boolean;
pub mod store;
pub mod backend;
pub mod raw;
pub mod public;
