//! A peer-to-peer coin-flip wagering vault: an escrow ledger, a bet registry
//! driven by a commit-reveal protocol, and the payout arithmetic that settles
//! each bet, all proved to keep the ledger consistent with the open stakes.

pub mod addr;
pub mod error;
pub mod ledger;
pub mod commit;
pub mod payout;
pub mod vault;
pub mod query;
pub mod laws;
pub mod contract;
pub mod types;
