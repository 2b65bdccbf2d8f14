//! Save-file lifecycle and state persistence for a double-elimination
//! bracket game.
//!
//! A game session lives in one self-contained save store holding a fixed
//! 150-row board table and a `(key, value)` config table.  This crate
//! models the whole layer: validating and deduplicating save names,
//! enumerating saves and their metadata, provisioning the schema of a new
//! store, the single active-save slot, and the typed read/update
//! operations against the active store.

pub mod catalog;
pub mod clock;
pub mod digits;
pub mod errors;
pub mod manager;
pub mod naming;
pub mod store;
pub mod text;
