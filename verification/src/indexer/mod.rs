//! The indexer: which Starknet events it follows, what each event changes in
//! the database, and how it walks the block stream across reorganisations.

pub mod events;
pub mod listeners;
pub mod stream;
pub mod models;
