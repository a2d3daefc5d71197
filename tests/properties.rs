use coinflip_vault::addr::Addr;
use coinflip_vault::commit::{compute_commitment, verify_commitment};
use coinflip_vault::contract::{execute, ExecuteMsg, Response};
use coinflip_vault::error::{BetAction, ContractError};
use coinflip_vault::payout::compute_payout;
use coinflip_vault::query::{
    query, query_bet, query_config, query_open_bets, query_user_bets, query_vault_balance, QueryMsg,
    QueryResponse,
};
use coinflip_vault::types::{BetStatus, BlockInfo, Side};
use coinflip_vault::vault::{
    default_bet_ttl_secs, execute_accept_admin, execute_accept_and_reveal, execute_accept_bet,
    execute_admin_sweep, execute_cancel_bet, execute_claim_timeout, execute_create_bet, execute_receive,
    execute_reveal, execute_transfer_admin, execute_update_config, execute_withdraw, instantiate, migrate,
    InstantiateMsg, MigrateMsg, ReceiveMsg, Vault, VaultParts,
};
use coinflip_vault::ledger::LedgerEntry;
use coinflip_vault::types::VaultBalance;

const ADMIN: &str = "admin";
const TREASURY: &str = "treasury";
const TOKEN: &str = "launch_token";
const MAKER: &str = "maker_user";
const ACCEPTOR: &str = "acceptor_user";
const OTHER: &str = "random_user";
const SECRET: &[u8] = b"super_secret_value_32bytes_long!";

fn a(s: &str) -> Addr {
    Addr::unchecked(s)
}

fn at(time: u64) -> BlockInfo {
    BlockInfo { height: 100, time }
}

fn settings() -> InstantiateMsg {
    InstantiateMsg {
        token_cw20: a(TOKEN),
        treasury: a(TREASURY),
        commission_bps: 1000,
        min_bet: 10,
        reveal_timeout_secs: 300,
        max_open_per_user: 10,
        max_daily_amount_per_user: 10_000,
        bet_ttl_secs: 10800,
    }
}

fn fresh() -> Vault {
    instantiate(&a(ADMIN), settings()).unwrap()
}

fn fund(vault: &mut Vault, user: &str, amount: u128) {
    execute_receive(vault, &a(TOKEN), &a(user), amount, ReceiveMsg::Deposit {}).unwrap();
}

fn heads_commitment(secret: &[u8]) -> Vec<u8> {
    compute_commitment(&a(MAKER), Side::Heads, secret)
}

fn avail(vault: &Vault, user: &str) -> u128 {
    query_vault_balance(vault, &a(user)).available
}

fn locked(vault: &Vault, user: &str) -> u128 {
    query_vault_balance(vault, &a(user)).locked
}

fn held(vault: &Vault) -> u128 {
    [MAKER, ACCEPTOR, OTHER, TREASURY, ADMIN].iter().map(|u| avail(vault, u) + locked(vault, u)).sum()
}

/// Two funded players and one open bet of `amount` by the maker on heads.
fn with_open_bet(amount: u128) -> Vault {
    let mut vault = fresh();
    fund(&mut vault, MAKER, 1000);
    fund(&mut vault, ACCEPTOR, 1000);
    execute_create_bet(&mut vault, &at(1000), &a(MAKER), amount, heads_commitment(SECRET)).unwrap();
    vault
}

#[test]
fn scenario_a_maker_wins_on_reveal() {
    let mut vault = with_open_bet(200);
    execute_accept_bet(&mut vault, &at(1000), &a(ACCEPTOR), 1, Side::Tails).unwrap();
    let st = execute_reveal(&mut vault, &at(1100), &a(MAKER), 1, Side::Heads, SECRET.to_vec()).unwrap();
    assert_eq!(st.winner, a(MAKER));
    assert_eq!(st.payout, 360);
    assert_eq!(st.commission, 40);
    assert_eq!(avail(&vault, MAKER), 1160);
    assert_eq!(avail(&vault, ACCEPTOR), 800);
    assert_eq!(avail(&vault, TREASURY), 40);
    assert_eq!(locked(&vault, MAKER), 0);
    assert_eq!(locked(&vault, ACCEPTOR), 0);
}

#[test]
fn scenario_b_acceptor_wins_on_timeout() {
    let mut vault = with_open_bet(200);
    execute_accept_bet(&mut vault, &at(1000), &a(ACCEPTOR), 1, Side::Tails).unwrap();
    let st = execute_claim_timeout(&mut vault, &at(1301), &a(ACCEPTOR), 1).unwrap();
    assert_eq!(st.winner, a(ACCEPTOR));
    assert_eq!(avail(&vault, ACCEPTOR), 1160);
    assert_eq!(avail(&vault, MAKER), 800);
    assert_eq!(avail(&vault, TREASURY), 40);
}

#[test]
fn commitment_must_be_thirty_two_bytes() {
    let mut vault = fresh();
    fund(&mut vault, MAKER, 1000);
    for len in [31usize, 33usize] {
        let err = execute_create_bet(&mut vault, &at(1000), &a(MAKER), 100, vec![7u8; len]).unwrap_err();
        match err {
            ContractError::InvalidCommitmentLength { len: got } => assert_eq!(got, len),
            _ => panic!("Expected InvalidCommitmentLength, got {:?}", err),
        }
        assert_eq!(avail(&vault, MAKER), 1000);
        assert_eq!(locked(&vault, MAKER), 0);
    }
}

#[test]
fn stake_at_minimum_is_accepted_and_below_is_not() {
    let mut vault = fresh();
    fund(&mut vault, MAKER, 1000);
    let err = execute_create_bet(&mut vault, &at(1000), &a(MAKER), 9, heads_commitment(SECRET)).unwrap_err();
    match err {
        ContractError::BetAmountBelowMinimum { min: 10 } => {}
        _ => panic!("Expected BetAmountBelowMinimum, got {:?}", err),
    }
    assert_eq!(execute_create_bet(&mut vault, &at(1000), &a(MAKER), 10, heads_commitment(SECRET)).unwrap(), 1);
}

#[test]
fn open_bet_cap_frees_a_slot_on_cancel_or_resolution() {
    let mut vault = fresh();
    fund(&mut vault, MAKER, 10_000);
    fund(&mut vault, ACCEPTOR, 10_000);
    for i in 0..10u64 {
        let id = execute_create_bet(&mut vault, &at(1000), &a(MAKER), 10, heads_commitment(SECRET)).unwrap();
        assert_eq!(id, i + 1);
    }
    let err = execute_create_bet(&mut vault, &at(1000), &a(MAKER), 10, heads_commitment(SECRET)).unwrap_err();
    assert!(matches!(err, ContractError::TooManyOpenBets { max: 10 }));
    assert_eq!(vault.open_bet_count(&a(MAKER)), 10);

    execute_cancel_bet(&mut vault, &a(MAKER), 3).unwrap();
    assert_eq!(vault.open_bet_count(&a(MAKER)), 9);
    execute_create_bet(&mut vault, &at(1000), &a(MAKER), 10, heads_commitment(SECRET)).unwrap();
    assert!(execute_create_bet(&mut vault, &at(1000), &a(MAKER), 10, heads_commitment(SECRET)).is_err());

    execute_accept_bet(&mut vault, &at(1000), &a(ACCEPTOR), 1, Side::Heads).unwrap();
    assert!(execute_create_bet(&mut vault, &at(1000), &a(MAKER), 10, heads_commitment(SECRET)).is_err());
    execute_reveal(&mut vault, &at(1000), &a(MAKER), 1, Side::Heads, SECRET.to_vec()).unwrap();
    execute_create_bet(&mut vault, &at(1000), &a(MAKER), 10, heads_commitment(SECRET)).unwrap();
}

#[test]
fn reveal_succeeds_only_with_the_committed_pair() {
    let mut vault = with_open_bet(100);
    execute_accept_bet(&mut vault, &at(1000), &a(ACCEPTOR), 1, Side::Tails).unwrap();
    let before = (avail(&vault, MAKER), locked(&vault, MAKER), avail(&vault, ACCEPTOR), locked(&vault, ACCEPTOR));
    for (side, secret) in [(Side::Tails, SECRET.to_vec()), (Side::Heads, b"another secret".to_vec()), (Side::Heads, Vec::new())] {
        let err = execute_reveal(&mut vault, &at(1000), &a(MAKER), 1, side, secret).unwrap_err();
        assert!(matches!(err, ContractError::CommitmentMismatch));
        assert_eq!(
            before,
            (avail(&vault, MAKER), locked(&vault, MAKER), avail(&vault, ACCEPTOR), locked(&vault, ACCEPTOR))
        );
        assert_eq!(query_bet(&vault, 1).unwrap().status, "accepted");
    }
    execute_reveal(&mut vault, &at(1000), &a(MAKER), 1, Side::Heads, SECRET.to_vec()).unwrap();
}

#[test]
fn accept_and_reveal_by_whoever_holds_the_secret() {
    let mut vault = with_open_bet(100);
    fund(&mut vault, OTHER, 500);
    let st = execute_accept_and_reveal(&mut vault, &at(1000), &a(OTHER), 1, Side::Heads, Side::Heads, SECRET.to_vec())
        .unwrap();
    assert_eq!(st.winner, a(OTHER));
    assert_eq!(st.payout, 180);
    assert_eq!(avail(&vault, OTHER), 580);
    assert_eq!(locked(&vault, OTHER), 0);
    assert_eq!(avail(&vault, MAKER), 900);
    assert_eq!(locked(&vault, MAKER), 0);
    assert_eq!(avail(&vault, TREASURY), 20);
    let bet = query_bet(&vault, 1).unwrap();
    assert_eq!(bet.status, "revealed");
    assert_eq!(bet.acceptor, Some(a(OTHER)));
    assert_eq!(bet.reveal_side, Some(Side::Heads));
}

#[test]
fn accept_and_reveal_maker_wins_on_a_wrong_guess() {
    let mut vault = with_open_bet(100);
    let st = execute_accept_and_reveal(&mut vault, &at(1000), &a(ACCEPTOR), 1, Side::Tails, Side::Heads, SECRET.to_vec())
        .unwrap();
    assert_eq!(st.winner, a(MAKER));
    assert_eq!(avail(&vault, MAKER), 1080);
    assert_eq!(avail(&vault, ACCEPTOR), 900);
}

#[test]
fn accept_and_reveal_rejections_change_nothing() {
    let mut vault = with_open_bet(100);
    let err = execute_accept_and_reveal(&mut vault, &at(1000), &a(MAKER), 1, Side::Tails, Side::Heads, SECRET.to_vec())
        .unwrap_err();
    assert!(matches!(err, ContractError::SelfAcceptNotAllowed));
    let err = execute_accept_and_reveal(&mut vault, &at(1000), &a(ACCEPTOR), 1, Side::Tails, Side::Tails, SECRET.to_vec())
        .unwrap_err();
    assert!(matches!(err, ContractError::CommitmentMismatch));
    assert_eq!(avail(&vault, ACCEPTOR), 1000);
    assert_eq!(locked(&vault, MAKER), 100);
    assert_eq!(query_bet(&vault, 1).unwrap().status, "open");
}

#[test]
fn a_resolved_bet_cannot_be_settled_again() {
    let mut vault = with_open_bet(100);
    execute_accept_bet(&mut vault, &at(1000), &a(ACCEPTOR), 1, Side::Tails).unwrap();
    execute_reveal(&mut vault, &at(1000), &a(MAKER), 1, Side::Heads, SECRET.to_vec()).unwrap();
    let err = execute_reveal(&mut vault, &at(1000), &a(MAKER), 1, Side::Heads, SECRET.to_vec()).unwrap_err();
    assert!(matches!(
        err,
        ContractError::InvalidStateTransition { action: BetAction::Reveal, current_status: BetStatus::Revealed }
    ));
    let err = execute_claim_timeout(&mut vault, &at(5000), &a(ACCEPTOR), 1).unwrap_err();
    assert!(matches!(err, ContractError::InvalidStateTransition { action: BetAction::ClaimTimeout, .. }));
    let err = execute_accept_and_reveal(&mut vault, &at(1000), &a(OTHER), 1, Side::Tails, Side::Heads, SECRET.to_vec())
        .unwrap_err();
    assert!(matches!(err, ContractError::InvalidStateTransition { action: BetAction::AcceptAndReveal, .. }));
    assert_eq!(avail(&vault, MAKER), 1080);
}

#[test]
fn a_timeout_claim_cannot_be_repeated() {
    let mut vault = with_open_bet(100);
    execute_accept_bet(&mut vault, &at(1000), &a(ACCEPTOR), 1, Side::Tails).unwrap();
    execute_claim_timeout(&mut vault, &at(2000), &a(ACCEPTOR), 1).unwrap();
    let err = execute_claim_timeout(&mut vault, &at(2000), &a(ACCEPTOR), 1).unwrap_err();
    assert!(matches!(
        err,
        ContractError::InvalidStateTransition { current_status: BetStatus::TimeoutClaimed, .. }
    ));
    let err = execute_reveal(&mut vault, &at(1000), &a(MAKER), 1, Side::Heads, SECRET.to_vec()).unwrap_err();
    assert!(matches!(err, ContractError::InvalidStateTransition { .. }));
}

#[test]
fn bet_operations_keep_the_total_held() {
    let mut vault = fresh();
    fund(&mut vault, MAKER, 1000);
    fund(&mut vault, ACCEPTOR, 700);
    assert_eq!(held(&vault), 1700);
    execute_create_bet(&mut vault, &at(1000), &a(MAKER), 333, heads_commitment(SECRET)).unwrap();
    execute_create_bet(&mut vault, &at(1000), &a(MAKER), 50, heads_commitment(b"x")).unwrap();
    assert_eq!(held(&vault), 1700);
    execute_accept_bet(&mut vault, &at(1000), &a(ACCEPTOR), 1, Side::Heads).unwrap();
    assert_eq!(held(&vault), 1700);
    execute_reveal(&mut vault, &at(1000), &a(MAKER), 1, Side::Heads, SECRET.to_vec()).unwrap();
    assert_eq!(held(&vault), 1700);
    assert_eq!(avail(&vault, TREASURY), 66);
    execute_cancel_bet(&mut vault, &a(MAKER), 2).unwrap();
    assert_eq!(held(&vault), 1700);
    execute_withdraw(&mut vault, &a(ACCEPTOR), 100).unwrap();
    assert_eq!(held(&vault), 1600);
}

#[test]
fn open_bet_expires_after_its_time_to_live() {
    let mut vault = with_open_bet(100);
    let err = execute_accept_bet(&mut vault, &at(1000 + 10801), &a(ACCEPTOR), 1, Side::Tails).unwrap_err();
    match err {
        ContractError::BetExpired { id: 1, expired_at } => assert_eq!(expired_at, 11800),
        _ => panic!("Expected BetExpired, got {:?}", err),
    }
    execute_accept_bet(&mut vault, &at(11800), &a(ACCEPTOR), 1, Side::Tails).unwrap();
}

#[test]
fn reveal_deadline_is_inclusive_for_the_maker() {
    let mut vault = with_open_bet(100);
    execute_accept_bet(&mut vault, &at(1000), &a(ACCEPTOR), 1, Side::Tails).unwrap();
    let err = execute_claim_timeout(&mut vault, &at(1300), &a(ACCEPTOR), 1).unwrap_err();
    assert!(matches!(err, ContractError::RevealNotYetExpired { deadline: 1300 }));
    let err = execute_reveal(&mut vault, &at(1301), &a(MAKER), 1, Side::Heads, SECRET.to_vec()).unwrap_err();
    assert!(matches!(err, ContractError::RevealTimeoutExpired { deadline: 1300 }));
    execute_reveal(&mut vault, &at(1300), &a(MAKER), 1, Side::Heads, SECRET.to_vec()).unwrap();
}

#[test]
fn unknown_bet_is_reported() {
    let mut vault = fresh();
    assert!(matches!(execute_cancel_bet(&mut vault, &a(MAKER), 7).unwrap_err(), ContractError::BetNotFound { id: 7 }));
    assert!(matches!(query_bet(&vault, 0).unwrap_err(), ContractError::BetNotFound { id: 0 }));
}

#[test]
fn update_config_validates_every_field_first() {
    let mut vault = fresh();
    let err = execute_update_config(&mut vault, &a(OTHER), None, Some(100), None, None, None, None, None).unwrap_err();
    assert!(matches!(err, ContractError::Unauthorized));
    let err = execute_update_config(&mut vault, &a(ADMIN), Some(a("t2")), Some(5001), None, None, None, None, None)
        .unwrap_err();
    assert!(matches!(err, ContractError::InvalidCommission { max_bps: 5000 }));
    let err = execute_update_config(&mut vault, &a(ADMIN), None, Some(10), None, Some(59), None, None, None).unwrap_err();
    assert!(matches!(err, ContractError::InvalidTimeout { min: 60, max: 86400 }));
    let err = execute_update_config(&mut vault, &a(ADMIN), None, None, None, None, None, None, Some(299)).unwrap_err();
    assert!(matches!(err, ContractError::InvalidTimeout { min: 300, max: 604800 }));
    let err = execute_update_config(&mut vault, &a(ADMIN), None, None, None, None, None, None, Some(604801)).unwrap_err();
    assert!(matches!(err, ContractError::InvalidTimeout { min: 300, max: 604800 }));
    let c = query_config(&vault);
    assert_eq!(c.treasury, a(TREASURY));
    assert_eq!(c.commission_bps, 1000);
    assert_eq!(c.reveal_timeout_secs, 300);

    execute_update_config(&mut vault, &a(ADMIN), Some(a("t2")), Some(5000), None, Some(86400), None, None, Some(0))
        .unwrap();
    let c = query_config(&vault);
    assert_eq!(c.treasury, a("t2"));
    assert_eq!(c.commission_bps, 5000);
    assert_eq!(c.reveal_timeout_secs, 86400);
    assert_eq!(c.bet_ttl_secs, 0);
    assert_eq!(c.min_bet, 10);
    assert_eq!(c.max_open_per_user, 10);
}

#[test]
fn instantiate_rejects_out_of_range_settings() {
    let mut msg = settings();
    msg.commission_bps = 5001;
    assert!(matches!(instantiate(&a(ADMIN), msg).unwrap_err(), ContractError::InvalidCommission { max_bps: 5000 }));
    let mut msg = settings();
    msg.reveal_timeout_secs = 86401;
    assert!(matches!(instantiate(&a(ADMIN), msg).unwrap_err(), ContractError::InvalidTimeout { min: 60, max: 86400 }));
}

#[test]
fn admin_transfer_takes_two_steps() {
    let mut vault = fresh();
    assert!(matches!(execute_transfer_admin(&mut vault, &a(OTHER), a(OTHER)).unwrap_err(), ContractError::Unauthorized));
    assert!(matches!(execute_accept_admin(&mut vault, &a(OTHER)).unwrap_err(), ContractError::Unauthorized));
    execute_transfer_admin(&mut vault, &a(ADMIN), a("new_admin")).unwrap();
    assert_eq!(vault.proposed_admin(), &Some(a("new_admin")));
    assert!(matches!(execute_accept_admin(&mut vault, &a(OTHER)).unwrap_err(), ContractError::Unauthorized));
    assert_eq!(query_config(&vault).admin, a(ADMIN));
    execute_accept_admin(&mut vault, &a("new_admin")).unwrap();
    assert_eq!(query_config(&vault).admin, a("new_admin"));
    assert_eq!(vault.proposed_admin(), &None);
    assert!(matches!(execute_accept_admin(&mut vault, &a("new_admin")).unwrap_err(), ContractError::Unauthorized));
}

#[test]
fn sweep_sends_only_untracked_funds() {
    let mut vault = with_open_bet(100);
    assert!(matches!(execute_admin_sweep(&vault, &a(OTHER), 5000, None).unwrap_err(), ContractError::Unauthorized));
    assert!(matches!(execute_admin_sweep(&vault, &a(ADMIN), 2000, None).unwrap_err(), ContractError::NothingToSweep));
    assert!(matches!(execute_admin_sweep(&vault, &a(ADMIN), 10, None).unwrap_err(), ContractError::NothingToSweep));
    let t = execute_admin_sweep(&vault, &a(ADMIN), 2500, None).unwrap();
    assert_eq!(t.recipient, a(ADMIN));
    assert_eq!(t.amount, 500);
    let t = execute_admin_sweep(&vault, &a(ADMIN), 2001, Some(a(OTHER))).unwrap();
    assert_eq!(t.recipient, a(OTHER));
    assert_eq!(t.amount, 1);
    assert_eq!(avail(&vault, MAKER), 900);
}

#[test]
fn migrate_can_repoint_the_token_and_wipe_state() {
    let mut vault = with_open_bet(100);
    let cleared = migrate(&mut vault, MigrateMsg { token_cw20: Some(a("token2")), reset_state: false });
    assert_eq!(cleared, (0, 0));
    assert_eq!(query_config(&vault).token_cw20, a("token2"));
    assert_eq!(avail(&vault, MAKER), 900);

    let cleared = migrate(&mut vault, MigrateMsg { token_cw20: None, reset_state: true });
    assert_eq!(cleared, (2, 1));
    assert_eq!(avail(&vault, MAKER), 0);
    assert_eq!(locked(&vault, MAKER), 0);
    assert!(query_bet(&vault, 1).is_err());
    fund_with(&mut vault, "token2", MAKER, 50);
    assert_eq!(execute_create_bet(&mut vault, &at(1000), &a(MAKER), 50, heads_commitment(SECRET)).unwrap(), 1);
}

fn fund_with(vault: &mut Vault, token: &str, user: &str, amount: u128) {
    execute_receive(vault, &a(token), &a(user), amount, ReceiveMsg::Deposit {}).unwrap();
}

#[test]
fn deposit_beyond_the_largest_total_overflows() {
    let mut vault = fresh();
    fund(&mut vault, MAKER, u128::MAX - 5);
    let err = execute_receive(&mut vault, &a(TOKEN), &a(ACCEPTOR), 6, ReceiveMsg::Deposit {}).unwrap_err();
    assert!(matches!(err, ContractError::Overflow));
    assert_eq!(avail(&vault, ACCEPTOR), 0);
    fund(&mut vault, ACCEPTOR, 5);
    assert_eq!(avail(&vault, ACCEPTOR), 5);
}

#[test]
fn payout_arithmetic() {
    assert_eq!(compute_payout(200, 1000).unwrap(), (40, 360));
    assert_eq!(compute_payout(100, 1000).unwrap(), (20, 180));
    assert_eq!(compute_payout(15, 333).unwrap(), (0, 30));
    assert_eq!(compute_payout(7_777, 1234).unwrap(), (1919, 13_635));
    assert_eq!(compute_payout(100, 5000).unwrap(), (100, 100));
    assert_eq!(compute_payout(100, 0).unwrap(), (0, 200));
    let big = u128::MAX / 2;
    assert_eq!(compute_payout(big, 5000).unwrap(), (big, big));
    assert!(matches!(compute_payout(big + 1, 10).unwrap_err(), ContractError::Overflow));
}

#[test]
fn commitment_is_the_sha256_of_the_tagged_preimage() {
    let c = compute_commitment(&a(MAKER), Side::Heads, b"secret_32_bytes_exactly_here!!!!");
    assert_eq!(
        c,
        vec![
            87, 225, 106, 207, 164, 157, 197, 8, 132, 159, 74, 202, 178, 116, 122, 114, 98, 111, 183, 42, 250, 9, 157,
            119, 31, 139, 119, 162, 52, 137, 56, 162
        ]
    );
    let tails = compute_commitment(&a(MAKER), Side::Tails, b"secret_32_bytes_exactly_here!!!!");
    assert_eq!(tails[0], 0xa6);
    assert_eq!(tails[31], 0x6e);
    assert!(verify_commitment(&a(MAKER), Side::Heads, b"secret_32_bytes_exactly_here!!!!", &c));
    assert!(!verify_commitment(&a(ACCEPTOR), Side::Heads, b"secret_32_bytes_exactly_here!!!!", &c));
}

#[test]
fn pages_run_in_id_order_after_the_start() {
    let mut vault = fresh();
    fund(&mut vault, MAKER, 10_000);
    fund(&mut vault, ACCEPTOR, 10_000);
    for _ in 0..5 {
        execute_create_bet(&mut vault, &at(1000), &a(MAKER), 10, heads_commitment(SECRET)).unwrap();
    }
    execute_create_bet(&mut vault, &at(1000), &a(ACCEPTOR), 10, compute_commitment(&a(ACCEPTOR), Side::Tails, SECRET))
        .unwrap();
    execute_accept_bet(&mut vault, &at(1000), &a(OTHER), 2, Side::Tails).unwrap_err();
    execute_accept_bet(&mut vault, &at(1000), &a(ACCEPTOR), 2, Side::Tails).unwrap();

    let ids: Vec<u64> = query_open_bets(&vault, None, None).bets.iter().map(|b| b.id).collect();
    assert_eq!(ids, vec![1, 3, 4, 5, 6]);
    let ids: Vec<u64> = query_open_bets(&vault, Some(3), Some(2)).bets.iter().map(|b| b.id).collect();
    assert_eq!(ids, vec![4, 5]);
    let ids: Vec<u64> = query_open_bets(&vault, Some(6), None).bets.iter().map(|b| b.id).collect();
    assert!(ids.is_empty());
    let ids: Vec<u64> = query_user_bets(&vault, &a(ACCEPTOR), None, None).bets.iter().map(|b| b.id).collect();
    assert_eq!(ids, vec![2, 6]);
    let ids: Vec<u64> = query_user_bets(&vault, &a(ACCEPTOR), Some(2), Some(0)).bets.iter().map(|b| b.id).collect();
    assert!(ids.is_empty());
}

#[test]
fn pages_hold_twenty_by_default_and_never_more_than_a_hundred() {
    let mut vault = fresh();
    execute_update_config(&mut vault, &a(ADMIN), None, None, None, None, Some(200), None, None).unwrap();
    fund(&mut vault, MAKER, 100_000);
    for _ in 0..120 {
        execute_create_bet(&mut vault, &at(1000), &a(MAKER), 10, heads_commitment(SECRET)).unwrap();
    }
    assert_eq!(query_open_bets(&vault, None, None).bets.len(), 20);
    assert_eq!(query_open_bets(&vault, None, Some(1000)).bets.len(), 100);
    let page = query_user_bets(&vault, &a(MAKER), Some(110), Some(50)).bets;
    assert_eq!(page.len(), 10);
    assert_eq!(page[0].id, 111);
}

#[test]
fn dispatch_runs_each_request() {
    let mut vault = fresh();
    let r = execute(&mut vault, &at(1000), &a(TOKEN), ExecuteMsg::Receive { sender: a(MAKER), amount: 300, msg: ReceiveMsg::Deposit {} });
    assert!(matches!(r.unwrap(), Response::Deposited(300)));
    let r = execute(&mut vault, &at(1000), &a(MAKER), ExecuteMsg::CreateBet { amount: 100, commitment: heads_commitment(SECRET) });
    assert!(matches!(r.unwrap(), Response::BetCreated(1)));
    let r = execute(&mut vault, &at(1000), &a(MAKER), ExecuteMsg::Withdraw { amount: 250 });
    assert!(matches!(r.unwrap_err(), ContractError::InsufficientAvailableBalance { need: 250, have: 200 }));
    let r = execute(&mut vault, &at(1000), &a(MAKER), ExecuteMsg::CancelBet { bet_id: 1 });
    assert!(matches!(r.unwrap(), Response::Done));
    match execute(&mut vault, &at(1000), &a(MAKER), ExecuteMsg::Withdraw { amount: 250 }).unwrap() {
        Response::Transfer(t) => {
            assert_eq!(t.recipient, a(MAKER));
            assert_eq!(t.amount, 250);
        }
        other => panic!("Expected a transfer, got {:?}", other),
    }
}

#[test]
fn query_dispatch_answers_each_request() {
    let vault = with_open_bet(100);
    match query(&vault, QueryMsg::VaultBalance { address: a(MAKER) }).unwrap() {
        QueryResponse::VaultBalance(b) => {
            assert_eq!(b.available, 900);
            assert_eq!(b.locked, 100);
        }
        other => panic!("Expected a balance, got {:?}", other),
    }
    match query(&vault, QueryMsg::Bet { bet_id: 1 }).unwrap() {
        QueryResponse::Bet(b) => {
            assert_eq!(b.maker, a(MAKER));
            assert_eq!(b.status, "open");
            assert_eq!(b.payout_amount, None);
            assert_eq!(b.commitment, heads_commitment(SECRET));
        }
        other => panic!("Expected a bet, got {:?}", other),
    }
    assert!(matches!(query(&vault, QueryMsg::Bet { bet_id: 2 }).unwrap_err(), ContractError::BetNotFound { id: 2 }));
    match query(&vault, QueryMsg::OpenBets { start_after: None, limit: None }).unwrap() {
        QueryResponse::Bets(p) => assert_eq!(p.bets.len(), 1),
        other => panic!("Expected a page, got {:?}", other),
    }
    match query(&vault, QueryMsg::Config {}).unwrap() {
        QueryResponse::Config(c) => assert_eq!(c.bet_ttl_secs, 10800),
        other => panic!("Expected settings, got {:?}", other),
    }
}

#[test]
fn status_names_and_default_ttl() {
    assert_eq!(BetStatus::TimeoutClaimed.name(), "timeoutclaimed");
    assert_eq!(BetStatus::Canceled.name(), "canceled");
    assert_eq!(default_bet_ttl_secs(), 43200);
}

#[test]
fn stored_parts_rebuild_the_same_vault() {
    let mut vault = with_open_bet(100);
    execute_accept_bet(&mut vault, &at(1000), &a(ACCEPTOR), 1, Side::Tails).unwrap();
    execute_create_bet(&mut vault, &at(1000), &a(MAKER), 20, heads_commitment(b"y")).unwrap();
    let parts = vault.into_parts();
    assert_eq!(parts.bets.len(), 2);
    assert_eq!(parts.balances.len(), 2);
    let mut vault = Vault::from_parts(parts).unwrap();
    assert_eq!(avail(&vault, MAKER), 880);
    assert_eq!(locked(&vault, MAKER), 120);
    assert_eq!(locked(&vault, ACCEPTOR), 100);
    execute_reveal(&mut vault, &at(1000), &a(MAKER), 1, Side::Heads, SECRET.to_vec()).unwrap();
    assert_eq!(avail(&vault, MAKER), 1060);
}

#[test]
fn inconsistent_parts_are_refused() {
    let vault = with_open_bet(100);
    let mut parts = vault.into_parts();
    for row in parts.balances.iter_mut() {
        row.balance.locked = 0;
    }
    assert!(matches!(Vault::from_parts(parts).unwrap_err(), ContractError::CorruptState));

    let vault = with_open_bet(100);
    let mut parts = vault.into_parts();
    parts.bets[0].id = 2;
    assert!(matches!(Vault::from_parts(parts).unwrap_err(), ContractError::CorruptState));

    let vault = fresh();
    let mut parts = vault.into_parts();
    parts.balances.push(LedgerEntry { account: a(MAKER), balance: VaultBalance { available: 5, locked: 1 } });
    assert!(matches!(Vault::from_parts(parts).unwrap_err(), ContractError::CorruptState));

    let parts = VaultParts { config: fresh().into_parts().config, balances: Vec::new(), bets: Vec::new(), pending_admin: None };
    assert!(Vault::from_parts(parts).is_ok());
}

#[test]
fn cap_is_checked_before_the_balance() {
    let mut vault = fresh();
    fund(&mut vault, MAKER, 100);
    for _ in 0..10 {
        execute_create_bet(&mut vault, &at(1000), &a(MAKER), 10, heads_commitment(SECRET)).unwrap();
    }
    let err = execute_create_bet(&mut vault, &at(1000), &a(MAKER), 500, heads_commitment(SECRET)).unwrap_err();
    assert!(matches!(err, ContractError::TooManyOpenBets { max: 10 }));
    execute_cancel_bet(&mut vault, &a(MAKER), 1).unwrap();
    let err = execute_create_bet(&mut vault, &at(1000), &a(MAKER), 500, heads_commitment(SECRET)).unwrap_err();
    assert!(matches!(err, ContractError::InsufficientAvailableBalance { need: 500, have: 10 }));
}
