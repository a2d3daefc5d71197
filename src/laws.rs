use vstd::prelude::*;

use crate::commit::commitment_of;
use crate::contract::{execute_done, ExecuteMsg, Response};
use crate::error::{BetAction, ContractError};
use crate::types::{BetStatus, BlockInfo, Settlement, Side};
use crate::vault::{
    accept_and_reveal_done, accept_and_reveal_error, cancel_bet_done, create_bet_done, claim_timeout_done, claim_timeout_error,
    create_bet_error, expired, lemma_sum_bets_nonneg_stake, stake_in,
    reveal_digest, reveal_done, reveal_error, time_or_zero, Vault,
};

verus! {

/// Commit-reveal soundness for `execute_reveal`: once the bet exists, is
/// accepted, the sender is its maker and the deadline has not passed, the
/// reveal of `(side, secret)` succeeds exactly when hashing the tag, the
/// maker, the side and the secret gives the stored commitment; otherwise it
/// fails with `CommitmentMismatch` and the vault is unchanged.
pub proof fn law_reveal_needs_preimage(
    v1: Vault,
    v2: Vault,
    r: Result<Settlement, ContractError>,
    env: BlockInfo,
    sender: Seq<u8>,
    id: u64,
    side: Side,
    secret: Seq<u8>,
)
    requires
        reveal_done(v1, v2, r, env, sender, id, side, secret, reveal_digest(v1, id, side, secret)),
        v1.has_bet(id),
        v1.bet(id).status == BetStatus::Accepted,
        v1.bet(id).maker@ == sender,
        env.time <= time_or_zero(v1.bet(id).accepted_at_time) + v1.config().reveal_timeout_secs,
    ensures
        r is Ok <==> commitment_of(v1.bet(id).maker@, side, secret) == v1.bet(id).commitment@,
        r is Err ==> r == Err::<Settlement, ContractError>(ContractError::CommitmentMismatch) && v2 == v1,
{
}

/// Commit-reveal soundness for `execute_accept_and_reveal`: once the bet
/// exists, is open and unexpired, the sender is not its maker and can cover
/// the stake, the call succeeds exactly when `(side, secret)` reproduces the
/// maker's commitment, whoever the sender is; otherwise it fails with
/// `CommitmentMismatch` and the vault is unchanged.
pub proof fn law_accept_and_reveal_needs_preimage(
    v1: Vault,
    v2: Vault,
    r: Result<Settlement, ContractError>,
    env: BlockInfo,
    sender: Seq<u8>,
    id: u64,
    guess: Side,
    side: Side,
    secret: Seq<u8>,
)
    requires
        accept_and_reveal_done(v1, v2, r, env, sender, id, guess, side, secret, reveal_digest(v1, id, side, secret)),
        v1.has_bet(id),
        v1.bet(id).status == BetStatus::Open,
        !expired(v1.bet(id).created_at_time, v1.config().bet_ttl_secs, env.time),
        v1.bet(id).maker@ != sender,
        v1.balance_of(sender).available >= v1.bet(id).amount,
    ensures
        r is Ok <==> commitment_of(v1.bet(id).maker@, side, secret) == v1.bet(id).commitment@,
        r is Err ==> r == Err::<Settlement, ContractError>(ContractError::CommitmentMismatch) && v2 == v1,
{
}

/// A resolved bet stays resolved: every later attempt to reveal it, accept
/// and reveal it, or claim it by timeout fails with `InvalidStateTransition`,
/// whatever the sender, the block or the revealed data.
pub proof fn law_resolved_bet_is_final(
    v: Vault,
    id: u64,
    env: BlockInfo,
    sender: Seq<u8>,
    digest: Seq<u8>,
)
    requires
        v.has_bet(id),
        v.bet(id).status == BetStatus::Revealed || v.bet(id).status == BetStatus::TimeoutClaimed
            || v.bet(id).status == BetStatus::Canceled,
    ensures
        reveal_error(v, env, sender, id, digest) == Some(
            ContractError::InvalidStateTransition { action: BetAction::Reveal, current_status: v.bet(id).status },
        ),
        accept_and_reveal_error(v, env, sender, id, digest) == Some(
            ContractError::InvalidStateTransition {
                action: BetAction::AcceptAndReveal,
                current_status: v.bet(id).status,
            },
        ),
        claim_timeout_error(v, env, sender, id) == Some(
            ContractError::InvalidStateTransition {
                action: BetAction::ClaimTimeout,
                current_status: v.bet(id).status,
            },
        ),
{
}

/// No double settlement by reveal: after a reveal of bet `id` succeeds,
/// every further resolution of that bet fails with `InvalidStateTransition`.
pub proof fn law_reveal_settles_once(
    v1: Vault,
    v2: Vault,
    r: Result<Settlement, ContractError>,
    env: BlockInfo,
    sender: Seq<u8>,
    id: u64,
    side: Side,
    secret: Seq<u8>,
    later: BlockInfo,
    other: Seq<u8>,
    digest: Seq<u8>,
)
    requires
        reveal_done(v1, v2, r, env, sender, id, side, secret, reveal_digest(v1, id, side, secret)),
        r is Ok,
    ensures
        v2.has_bet(id),
        v2.bet(id).status == BetStatus::Revealed,
        reveal_error(v2, later, other, id, digest) is Some,
        accept_and_reveal_error(v2, later, other, id, digest) is Some,
        claim_timeout_error(v2, later, other, id) is Some,
{
    law_resolved_bet_is_final(v2, id, later, other, digest);
}

/// No double settlement by accepting and revealing at once: after it
/// succeeds, every further resolution of bet `id` fails with
/// `InvalidStateTransition`.
pub proof fn law_accept_and_reveal_settles_once(
    v1: Vault,
    v2: Vault,
    r: Result<Settlement, ContractError>,
    env: BlockInfo,
    sender: Seq<u8>,
    id: u64,
    guess: Side,
    side: Side,
    secret: Seq<u8>,
    later: BlockInfo,
    other: Seq<u8>,
    digest: Seq<u8>,
)
    requires
        accept_and_reveal_done(v1, v2, r, env, sender, id, guess, side, secret, reveal_digest(v1, id, side, secret)),
        r is Ok,
    ensures
        v2.has_bet(id),
        v2.bet(id).status == BetStatus::Revealed,
        reveal_error(v2, later, other, id, digest) is Some,
        accept_and_reveal_error(v2, later, other, id, digest) is Some,
        claim_timeout_error(v2, later, other, id) is Some,
{
    law_resolved_bet_is_final(v2, id, later, other, digest);
}

/// No double settlement by timeout: after a claim on bet `id` succeeds,
/// every further resolution of that bet fails with `InvalidStateTransition`.
pub proof fn law_claim_settles_once(
    v1: Vault,
    v2: Vault,
    r: Result<Settlement, ContractError>,
    env: BlockInfo,
    sender: Seq<u8>,
    id: u64,
    later: BlockInfo,
    other: Seq<u8>,
    digest: Seq<u8>,
)
    requires
        claim_timeout_done(v1, v2, r, env, sender, id),
        r is Ok,
    ensures
        v2.has_bet(id),
        v2.bet(id).status == BetStatus::TimeoutClaimed,
        reveal_error(v2, later, other, id, digest) is Some,
        accept_and_reveal_error(v2, later, other, id, digest) is Some,
        claim_timeout_error(v2, later, other, id) is Some,
{
    law_resolved_bet_is_final(v2, id, later, other, digest);
}

/// Resolving a bet, by reveal, by accepting and revealing at once, or by
/// timeout, only moves funds among the maker, the acceptor and the treasury:
/// the sum of available plus locked over all accounts is unchanged, whether
/// the call succeeds or fails.
pub proof fn law_resolution_conserves_funds(
    v1: Vault,
    v2: Vault,
    r: Result<Settlement, ContractError>,
    env: BlockInfo,
    sender: Seq<u8>,
    id: u64,
    guess: Side,
    side: Side,
    secret: Seq<u8>,
    digest: Seq<u8>,
)
    requires
        reveal_done(v1, v2, r, env, sender, id, side, secret, digest) || accept_and_reveal_done(
            v1,
            v2,
            r,
            env,
            sender,
            id,
            guess,
            side,
            secret,
            digest,
        ) || claim_timeout_done(v1, v2, r, env, sender, id),
    ensures
        v2.total() == v1.total(),
{
}

/// The cap on open bets: once the commitment and the amount pass, a maker
/// with `max_open_per_user` unresolved bets is refused with
/// `TooManyOpenBets`, whatever their balance; with the balance there too,
/// creating succeeds exactly while the maker is under the cap.
pub proof fn law_open_bet_cap(v: Vault, sender: Seq<u8>, amount: u128, commitment: Seq<u8>)
    requires
        commitment.len() == 32,
        amount >= v.config().min_bet,
    ensures
        v.open_count(sender) >= v.config().max_open_per_user ==> create_bet_error(v, sender, amount, commitment)
            == Some(ContractError::TooManyOpenBets { max: v.config().max_open_per_user }),
        v.balance_of(sender).available >= amount && v.bets().len() + 1 < u64::MAX ==> (create_bet_error(
            v,
            sender,
            amount,
            commitment,
        ) is None <==> v.open_count(sender) < v.config().max_open_per_user),
{
}

/// Canceling frees a slot: when a maker at the cap cancels one of their
/// bets, their next bet succeeds once the commitment, the amount and the
/// balance (what was available plus the stake returned) pass, and the
/// maker is at the cap again.
pub proof fn law_cancel_frees_a_slot(
    v1: Vault,
    v2: Vault,
    v3: Vault,
    r: Result<(), ContractError>,
    r2: Result<u64, ContractError>,
    env: BlockInfo,
    sender: Seq<u8>,
    id: u64,
    amount: u128,
    commitment: Seq<u8>,
)
    requires
        v1.wf(),
        cancel_bet_done(v1, v2, r, sender, id),
        r is Ok,
        v1.open_count(sender) == v1.config().max_open_per_user,
        create_bet_done(v2, v3, r2, env, sender, amount, commitment),
        commitment.len() == 32,
        amount >= v1.config().min_bet,
        v1.balance_of(sender).available + v1.bet(id).amount >= amount,
        v1.bets().len() + 1 < u64::MAX,
    ensures
        r2 is Ok,
        v3.open_count(sender) == v1.config().max_open_per_user,
{
    v1.lemma_wf_facts(sender);
    lemma_sum_bets_nonneg_stake(v1.bets(), sender);
    assert(stake_in(v1.bets()[id - 1], sender) == v1.bet(id).amount);
}

/// Revealing frees a slot: when a bet of a maker at the cap is revealed,
/// the maker's next bet succeeds once the commitment, the amount and the
/// balance pass, and the maker is at the cap again.
pub proof fn law_reveal_frees_a_slot(
    v1: Vault,
    v2: Vault,
    v3: Vault,
    r: Result<Settlement, ContractError>,
    r2: Result<u64, ContractError>,
    env: BlockInfo,
    sender: Seq<u8>,
    id: u64,
    side: Side,
    secret: Seq<u8>,
    later: BlockInfo,
    amount: u128,
    commitment: Seq<u8>,
)
    requires
        reveal_done(v1, v2, r, env, sender, id, side, secret, reveal_digest(v1, id, side, secret)),
        r is Ok,
        v1.open_count(sender) == v1.config().max_open_per_user,
        create_bet_done(v2, v3, r2, later, sender, amount, commitment),
        commitment.len() == 32,
        amount >= v1.config().min_bet,
        v2.balance_of(sender).available >= amount,
        v1.bets().len() + 1 < u64::MAX,
    ensures
        r2 is Ok,
        v3.open_count(sender) == v1.config().max_open_per_user,
{
}

/// Accepting and revealing at once frees a slot for the bet's maker, as
/// revealing does.
pub proof fn law_accept_and_reveal_frees_a_slot(
    v1: Vault,
    v2: Vault,
    v3: Vault,
    r: Result<Settlement, ContractError>,
    r2: Result<u64, ContractError>,
    env: BlockInfo,
    acceptor: Seq<u8>,
    id: u64,
    guess: Side,
    side: Side,
    secret: Seq<u8>,
    later: BlockInfo,
    amount: u128,
    commitment: Seq<u8>,
)
    requires
        accept_and_reveal_done(v1, v2, r, env, acceptor, id, guess, side, secret, reveal_digest(v1, id, side, secret)),
        r is Ok,
        v1.open_count(v1.bet(id).maker@) == v1.config().max_open_per_user,
        create_bet_done(v2, v3, r2, later, v1.bet(id).maker@, amount, commitment),
        commitment.len() == 32,
        amount >= v1.config().min_bet,
        v2.balance_of(v1.bet(id).maker@).available >= amount,
        v1.bets().len() + 1 < u64::MAX,
    ensures
        r2 is Ok,
        v3.open_count(v1.bet(id).maker@) == v1.config().max_open_per_user,
{
}

/// A timeout claim frees a slot for the bet's maker, as revealing does.
pub proof fn law_claim_frees_a_slot(
    v1: Vault,
    v2: Vault,
    v3: Vault,
    r: Result<Settlement, ContractError>,
    r2: Result<u64, ContractError>,
    env: BlockInfo,
    acceptor: Seq<u8>,
    id: u64,
    later: BlockInfo,
    amount: u128,
    commitment: Seq<u8>,
)
    requires
        claim_timeout_done(v1, v2, r, env, acceptor, id),
        r is Ok,
        v1.open_count(v1.bet(id).maker@) == v1.config().max_open_per_user,
        create_bet_done(v2, v3, r2, later, v1.bet(id).maker@, amount, commitment),
        commitment.len() == 32,
        amount >= v1.config().min_bet,
        v2.balance_of(v1.bet(id).maker@).available >= amount,
        v1.bets().len() + 1 < u64::MAX,
    ensures
        r2 is Ok,
        v3.open_count(v1.bet(id).maker@) == v1.config().max_open_per_user,
{
}

/// Conservation: funds enter the ledger only by deposit and leave it only
/// by withdrawal. Every other request (bets, their resolution, settings,
/// administrator changes) leaves the sum of available plus locked over all
/// accounts unchanged, whether it succeeds or fails; a deposit adds exactly
/// its amount and a withdrawal removes exactly its amount, or nothing at
/// all when they fail.
pub proof fn law_funds_move_only_in_and_out(
    v1: Vault,
    v2: Vault,
    r: Result<Response, ContractError>,
    env: BlockInfo,
    sender: Seq<u8>,
    msg: ExecuteMsg,
)
    requires
        execute_done(v1, v2, r, env, sender, msg),
    ensures
        !(msg is Receive) && !(msg is Withdraw) ==> v2.total() == v1.total(),
        msg matches ExecuteMsg::Receive { amount, .. } ==> (r is Ok ==> v2.total() == v1.total() + amount)
            && (r is Err ==> v2 == v1),
        msg matches ExecuteMsg::Withdraw { amount } ==> (r is Ok ==> v2.total() == v1.total() - amount) && (r is Err
            ==> v2 == v1),
{
}

} // verus!
