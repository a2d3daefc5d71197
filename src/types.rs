use vstd::prelude::*;

use crate::addr::Addr;

verus! {

/// A face of the coin.
#[derive(Clone, Copy, Debug, PartialEq, Eq, Structural)]
pub enum Side {
    Heads,
    Tails,
}

/// Where a bet stands in its lifecycle.
#[derive(Clone, Copy, Debug, PartialEq, Eq, Structural)]
pub enum BetStatus {
    Open,
    Accepted,
    Revealed,
    Canceled,
    TimeoutClaimed,
}

/// The lower-case name of a status, as queries report it.
pub open spec fn status_name(s: BetStatus) -> Seq<char> {
    match s {
        BetStatus::Open => "open"@,
        BetStatus::Accepted => "accepted"@,
        BetStatus::Revealed => "revealed"@,
        BetStatus::Canceled => "canceled"@,
        BetStatus::TimeoutClaimed => "timeoutclaimed"@,
    }
}

impl BetStatus {
    /// The lower-case name of the status, as queries report it.
    pub fn name(&self) -> (r: &'static str)
        ensures
            r@ == status_name(*self),
    {
        match self {
            BetStatus::Open => "open",
            BetStatus::Accepted => "accepted",
            BetStatus::Revealed => "revealed",
            BetStatus::Canceled => "canceled",
            BetStatus::TimeoutClaimed => "timeoutclaimed",
        }
    }
}

/// One account's funds held by the vault.
#[derive(Clone, Copy, Debug, PartialEq, Eq, Structural)]
pub struct VaultBalance {
    /// Spendable funds.
    pub available: u128,
    /// Funds committed to bets that are not yet resolved.
    pub locked: u128,
}

impl Default for VaultBalance {
    fn default() -> (r: Self)
        ensures
            r == (VaultBalance { available: 0, locked: 0 }),
    {
        VaultBalance { available: 0, locked: 0 }
    }
}

/// The block at which an operation runs: its height and its time in seconds.
#[derive(Clone, Copy, Debug, PartialEq, Eq, Structural)]
pub struct BlockInfo {
    pub height: u64,
    pub time: u64,
}

/// The vault's settings. Only the administrator changes them.
#[derive(Debug)]
pub struct Config {
    pub admin: Addr,
    /// The one fungible token that the vault accepts.
    pub token_cw20: Addr,
    /// The account credited with every commission.
    pub treasury: Addr,
    /// Commission on each pot, in basis points (at most 5000).
    pub commission_bps: u16,
    pub min_bet: u128,
    /// How long a maker has to reveal once a bet is accepted (60 to 86400 seconds).
    pub reveal_timeout_secs: u64,
    pub max_open_per_user: u16,
    /// Declared per-day wager cap; no operation enforces it.
    pub max_daily_amount_per_user: u128,
    /// How long an open bet may still be accepted, in seconds; 0 means forever.
    pub bet_ttl_secs: u64,
}

/// A wager between a maker and, once accepted, an acceptor.
#[derive(Debug)]
pub struct Bet {
    pub id: u64,
    pub maker: Addr,
    /// The stake of each side.
    pub amount: u128,
    pub commitment: Vec<u8>,
    pub status: BetStatus,
    pub created_at_height: u64,
    pub created_at_time: u64,
    pub acceptor: Option<Addr>,
    pub acceptor_guess: Option<Side>,
    pub accepted_at_height: Option<u64>,
    pub accepted_at_time: Option<u64>,
    pub reveal_secret: Option<Vec<u8>>,
    pub reveal_side: Option<Side>,
    pub resolved_at_height: Option<u64>,
    pub payout_winner: Option<Addr>,
    pub commission_paid: u128,
    pub payout_amount: u128,
}

/// How a resolved bet was paid out.
#[derive(Debug)]
pub struct Settlement {
    pub winner: Addr,
    pub payout: u128,
    pub commission: u128,
}

/// An instruction to the token ledger: send `amount` to `recipient`.
#[derive(Debug)]
pub struct Transfer {
    pub recipient: Addr,
    pub amount: u128,
}

} // verus!
