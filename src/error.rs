use vstd::prelude::*;

use crate::addr::Addr;
use crate::types::BetStatus;

verus! {

/// The operation that a bet was asked to undergo.
#[derive(Clone, Copy, Debug, PartialEq, Eq, Structural)]
pub enum BetAction {
    Accept,
    AcceptAndReveal,
    Cancel,
    Reveal,
    ClaimTimeout,
}

/// Every reason an operation on the vault can be rejected. A rejected
/// operation leaves the vault exactly as it was.
#[derive(Debug)]
pub enum ContractError {
    Unauthorized,
    InsufficientAvailableBalance { need: u128, have: u128 },
    BetNotFound { id: u64 },
    InvalidStateTransition { action: BetAction, current_status: BetStatus },
    TooManyOpenBets { max: u16 },
    BetAmountBelowMinimum { min: u128 },
    CommitmentMismatch,
    RevealTimeoutExpired { deadline: u64 },
    RevealNotYetExpired { deadline: u64 },
    SelfAcceptNotAllowed,
    InvalidToken { expected: Addr },
    InvalidCommission { max_bps: u16 },
    InvalidTimeout { min: u64, max: u64 },
    BetExpired { id: u64, expired_at: u64 },
    InvalidCommitmentLength { len: usize },
    NothingToSweep,
    Overflow,
    /// Stored parts that do not describe a consistent vault.
    CorruptState,
}

} // verus!
