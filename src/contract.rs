use vstd::prelude::*;

use crate::addr::Addr;
use crate::error::ContractError;
use crate::types::{BlockInfo, Settlement, Side, Transfer};
use crate::vault::{
    accept_admin_done, accept_and_reveal_done, accept_bet_done, cancel_bet_done, claim_timeout_done,
    create_bet_done, execute_accept_admin, execute_accept_and_reveal, execute_accept_bet, execute_cancel_bet,
    execute_claim_timeout, execute_create_bet, execute_receive, execute_reveal, execute_transfer_admin,
    execute_update_config, execute_withdraw, receive_done, reveal_digest, reveal_done, transfer_admin_done,
    update_config_done, withdraw_done, ReceiveMsg, Vault,
};

verus! {

/// A state-changing request.
#[derive(Debug)]
pub enum ExecuteMsg {
    /// The token ledger's notice that `sender` sent `amount` to the vault.
    Receive { sender: Addr, amount: u128, msg: ReceiveMsg },
    Withdraw { amount: u128 },
    CreateBet { amount: u128, commitment: Vec<u8> },
    CancelBet { bet_id: u64 },
    AcceptBet { bet_id: u64, guess: Side },
    AcceptAndReveal { bet_id: u64, guess: Side, side: Side, secret: Vec<u8> },
    Reveal { bet_id: u64, side: Side, secret: Vec<u8> },
    ClaimTimeout { bet_id: u64 },
    UpdateConfig {
        treasury: Option<Addr>,
        commission_bps: Option<u16>,
        min_bet: Option<u128>,
        reveal_timeout_secs: Option<u64>,
        max_open_per_user: Option<u16>,
        max_daily_amount_per_user: Option<u128>,
        bet_ttl_secs: Option<u64>,
    },
    TransferAdmin { new_admin: Addr },
    AcceptAdmin {},
}

/// What a successful request produced.
#[derive(Debug)]
pub enum Response {
    /// A deposit was credited; the depositor's new available balance.
    Deposited(u128),
    /// Funds to send out through the token ledger.
    Transfer(Transfer),
    /// A bet was opened with this id.
    BetCreated(u64),
    /// A bet was resolved and paid out.
    Settled(Settlement),
    /// The request took effect and has nothing to report.
    Done,
}

/// The result of a deposit request, as `execute_receive` gives it.
pub open spec fn as_deposit(r: Result<Response, ContractError>) -> Result<u128, ContractError> {
    match r {
        Ok(Response::Deposited(x)) => Ok(x),
        Ok(_) => Err(ContractError::Overflow),
        Err(e) => Err(e),
    }
}

/// The result of a withdrawal request, as `execute_withdraw` gives it.
pub open spec fn as_transfer(r: Result<Response, ContractError>) -> Result<Transfer, ContractError> {
    match r {
        Ok(Response::Transfer(t)) => Ok(t),
        Ok(_) => Err(ContractError::Overflow),
        Err(e) => Err(e),
    }
}

/// The result of a create request, as `execute_create_bet` gives it.
pub open spec fn as_bet_id(r: Result<Response, ContractError>) -> Result<u64, ContractError> {
    match r {
        Ok(Response::BetCreated(id)) => Ok(id),
        Ok(_) => Err(ContractError::Overflow),
        Err(e) => Err(e),
    }
}

/// The result of a resolving request, as the resolving operations give it.
pub open spec fn as_settlement(r: Result<Response, ContractError>) -> Result<Settlement, ContractError> {
    match r {
        Ok(Response::Settled(st)) => Ok(st),
        Ok(_) => Err(ContractError::Overflow),
        Err(e) => Err(e),
    }
}

/// The result of a request that reports nothing.
pub open spec fn as_unit(r: Result<Response, ContractError>) -> Result<(), ContractError> {
    match r {
        Ok(Response::Done) => Ok(()),
        Ok(_) => Err(ContractError::Overflow),
        Err(e) => Err(e),
    }
}

/// What carrying out `msg` from `sender` at block `env` does: exactly what
/// the operation it names does, reported in the matching kind of response.
pub open spec fn execute_done(
    v1: Vault,
    v2: Vault,
    r: Result<Response, ContractError>,
    env: BlockInfo,
    sender: Seq<u8>,
    msg: ExecuteMsg,
) -> bool {
    match msg {
        ExecuteMsg::Receive { sender: depositor, amount, msg: _ } => (r is Ok ==> r matches Ok(
            Response::Deposited(_),
        )) && receive_done(v1, v2, as_deposit(r), sender, depositor@, amount),
        ExecuteMsg::Withdraw { amount } => (r is Ok ==> r matches Ok(Response::Transfer(_))) && withdraw_done(
            v1,
            v2,
            as_transfer(r),
            sender,
            amount,
        ),
        ExecuteMsg::CreateBet { amount, commitment } => (r is Ok ==> r matches Ok(Response::BetCreated(_)))
            && create_bet_done(v1, v2, as_bet_id(r), env, sender, amount, commitment@),
        ExecuteMsg::CancelBet { bet_id } => (r is Ok ==> r matches Ok(Response::Done)) && cancel_bet_done(
            v1,
            v2,
            as_unit(r),
            sender,
            bet_id,
        ),
        ExecuteMsg::AcceptBet { bet_id, guess } => (r is Ok ==> r matches Ok(Response::Done))
            && accept_bet_done(v1, v2, as_unit(r), env, sender, bet_id, guess),
        ExecuteMsg::AcceptAndReveal { bet_id, guess, side, secret } => (r is Ok ==> r matches Ok(
            Response::Settled(_),
        )) && accept_and_reveal_done(
            v1,
            v2,
            as_settlement(r),
            env,
            sender,
            bet_id,
            guess,
            side,
            secret@,
            reveal_digest(v1, bet_id, side, secret@),
        ),
        ExecuteMsg::Reveal { bet_id, side, secret } => (r is Ok ==> r matches Ok(Response::Settled(_)))
            && reveal_done(
            v1,
            v2,
            as_settlement(r),
            env,
            sender,
            bet_id,
            side,
            secret@,
            reveal_digest(v1, bet_id, side, secret@),
        ),
        ExecuteMsg::ClaimTimeout { bet_id } => (r is Ok ==> r matches Ok(Response::Settled(_)))
            && claim_timeout_done(v1, v2, as_settlement(r), env, sender, bet_id),
        ExecuteMsg::UpdateConfig {
            treasury,
            commission_bps,
            min_bet,
            reveal_timeout_secs,
            max_open_per_user,
            max_daily_amount_per_user,
            bet_ttl_secs,
        } => (r is Ok ==> r matches Ok(Response::Done)) && update_config_done(
            v1,
            v2,
            as_unit(r),
            sender,
            treasury,
            commission_bps,
            min_bet,
            reveal_timeout_secs,
            max_open_per_user,
            max_daily_amount_per_user,
            bet_ttl_secs,
        ),
        ExecuteMsg::TransferAdmin { new_admin } => (r is Ok ==> r matches Ok(Response::Done))
            && transfer_admin_done(v1, v2, as_unit(r), sender, new_admin),
        ExecuteMsg::AcceptAdmin {} => (r is Ok ==> r matches Ok(Response::Done)) && accept_admin_done(
            v1,
            v2,
            as_unit(r),
            sender,
        ),
    }
}

/// Carries out one request from `sender` at block `env`. Each kind of
/// request does exactly what its own operation does, and reports its result
/// in the matching kind of response.
pub fn execute(vault: &mut Vault, env: &BlockInfo, sender: &Addr, msg: ExecuteMsg) -> (r: Result<
    Response,
    ContractError,
>)
    requires
        old(vault).wf(),
    ensures
        final(vault).wf(),
        execute_done(*old(vault), *final(vault), r, *env, sender@, msg),
{
    match msg {
        ExecuteMsg::Receive { sender: depositor, amount, msg } => match execute_receive(
            vault,
            sender,
            &depositor,
            amount,
            msg,
        ) {
            Ok(x) => Ok(Response::Deposited(x)),
            Err(e) => Err(e),
        },
        ExecuteMsg::Withdraw { amount } => match execute_withdraw(vault, sender, amount) {
            Ok(t) => Ok(Response::Transfer(t)),
            Err(e) => Err(e),
        },
        ExecuteMsg::CreateBet { amount, commitment } => match execute_create_bet(vault, env, sender, amount, commitment) {
            Ok(id) => Ok(Response::BetCreated(id)),
            Err(e) => Err(e),
        },
        ExecuteMsg::CancelBet { bet_id } => match execute_cancel_bet(vault, sender, bet_id) {
            Ok(()) => Ok(Response::Done),
            Err(e) => Err(e),
        },
        ExecuteMsg::AcceptBet { bet_id, guess } => match execute_accept_bet(vault, env, sender, bet_id, guess) {
            Ok(()) => Ok(Response::Done),
            Err(e) => Err(e),
        },
        ExecuteMsg::AcceptAndReveal { bet_id, guess, side, secret } => match execute_accept_and_reveal(
            vault,
            env,
            sender,
            bet_id,
            guess,
            side,
            secret,
        ) {
            Ok(st) => Ok(Response::Settled(st)),
            Err(e) => Err(e),
        },
        ExecuteMsg::Reveal { bet_id, side, secret } => match execute_reveal(vault, env, sender, bet_id, side, secret) {
            Ok(st) => Ok(Response::Settled(st)),
            Err(e) => Err(e),
        },
        ExecuteMsg::ClaimTimeout { bet_id } => match execute_claim_timeout(vault, env, sender, bet_id) {
            Ok(st) => Ok(Response::Settled(st)),
            Err(e) => Err(e),
        },
        ExecuteMsg::UpdateConfig {
            treasury,
            commission_bps,
            min_bet,
            reveal_timeout_secs,
            max_open_per_user,
            max_daily_amount_per_user,
            bet_ttl_secs,
        } => match execute_update_config(
            vault,
            sender,
            treasury,
            commission_bps,
            min_bet,
            reveal_timeout_secs,
            max_open_per_user,
            max_daily_amount_per_user,
            bet_ttl_secs,
        ) {
            Ok(()) => Ok(Response::Done),
            Err(e) => Err(e),
        },
        ExecuteMsg::TransferAdmin { new_admin } => match execute_transfer_admin(vault, sender, new_admin) {
            Ok(()) => Ok(Response::Done),
            Err(e) => Err(e),
        },
        ExecuteMsg::AcceptAdmin {} => match execute_accept_admin(vault, sender) {
            Ok(()) => Ok(Response::Done),
            Err(e) => Err(e),
        },
    }
}

} // verus!
