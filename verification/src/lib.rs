//! A ledger of player accounts, token balances and per-account inventories
//! over a catalog of priced in-game assets.
//!
//! Every operation validates all of its preconditions before it changes
//! anything, so a rejected call leaves the ledger exactly as it was.

pub mod account;
pub mod catalog;
pub mod error;
pub mod events;
pub mod inventory;
pub mod ledger;
pub mod table;
