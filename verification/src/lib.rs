//! Tip escrow: splits an inbound tip between a payee and the payee's royalty
//! recipients, and keeps a ledger of the tips that went through.
//!
//! The escrow decides how much goes to whom and what is recorded. It moves
//! no value and reads no clock: whoever drives it carries out the transfers
//! it hands out and supplies the sequence number and the time.

pub mod engine;
pub mod escrow;
pub mod ledger;
pub mod pending;
pub mod registry;
pub mod types;

pub use crate::escrow::TipEscrowContract;
pub use crate::ledger::TipLedger;
pub use crate::pending::PendingTip;
pub use crate::registry::SplitRegistry;
pub use crate::types::{AccountId, RoyaltySplit, TipError, TipRecord, Transfer};
