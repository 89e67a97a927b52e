//! Verified core of the Starknet ID auto-renewal service: the renewal bot's
//! planning and batching rules, and the indexer's event and stream rules.
//! Everything that talks to a database, a node, an HTTP endpoint or Discord
//! lives outside this library; it hands plain values in and gets plain values
//! (decisions, calldata, database plans) back.

pub mod num;
pub mod text;
pub mod felt;
pub mod bot;
pub mod indexer;
