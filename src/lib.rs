//! Multi-party custody: a ledger that guards per-owner balances, an approval
//! workflow that collects signatures on withdrawal proposals, and the bridge
//! that turns an approved proposal into a ledger invocation.
pub mod ledger;
pub mod proposal;
pub mod text;
pub mod bridge;
