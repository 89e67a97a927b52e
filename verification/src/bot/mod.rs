//! The renewal bot: which auto-renewals are due and affordable, how they are
//! grouped and batched into transactions, and how the bot reacts to the
//! indexer's status and to transaction receipts.

pub mod models;
pub mod pricing;
pub mod eligibility;
pub mod planner;
pub mod calls;
pub mod run;
pub mod status;
