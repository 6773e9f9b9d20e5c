//! A pooled-deposit yield lottery: a slot-indexed deposit ledger, a resumable
//! weighted drawing over its entries, and a time-decaying early-withdrawal
//! fee.

pub mod duration;
pub mod error;
pub mod fixed;
pub mod identity;
pub mod instructions;
pub mod ledger;
pub mod state;
