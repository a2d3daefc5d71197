use vstd::prelude::*;
use vstd::string::StringExecFns;

use crate::addr::Addr;
use crate::error::ContractError;
use crate::types::{status_name, Bet, BetStatus, Config, Side};
use crate::vault::{names, Vault};

verus! {

/// How many bets a page holds when the caller names no limit.
pub const DEFAULT_PAGE_LIMIT: u32 = 20;

/// The most bets a page ever holds.
pub const MAX_PAGE_LIMIT: u32 = 100;

/// A bet as queries report it.
#[derive(Debug)]
pub struct BetResponse {
    pub id: u64,
    pub maker: Addr,
    pub amount: u128,
    pub commitment: Vec<u8>,
    pub status: String,
    pub acceptor: Option<Addr>,
    pub acceptor_guess: Option<Side>,
    pub created_at_time: u64,
    pub accepted_at_time: Option<u64>,
    pub reveal_side: Option<Side>,
    pub winner: Option<Addr>,
    /// The payout, once one was made.
    pub payout_amount: Option<u128>,
    /// The commission, once one was paid.
    pub commission_paid: Option<u128>,
}

/// The address held, as bytes.
pub open spec fn opt_view(o: Option<Addr>) -> Option<Seq<u8>> {
    match o {
        Some(a) => Some(a@),
        None => None,
    }
}

/// `None` for 0, else the amount.
pub open spec fn nonzero(x: u128) -> Option<u128> {
    if x == 0 {
        None
    } else {
        Some(x)
    }
}

/// `r` reports the bet `b`.
pub open spec fn reports_bet(r: BetResponse, b: Bet) -> bool {
    &&& r.id == b.id
    &&& r.maker@ == b.maker@
    &&& r.amount == b.amount
    &&& r.commitment@ == b.commitment@
    &&& r.status@ == status_name(b.status)
    &&& opt_view(r.acceptor) == opt_view(b.acceptor)
    &&& r.acceptor_guess == b.acceptor_guess
    &&& r.created_at_time == b.created_at_time
    &&& r.accepted_at_time == b.accepted_at_time
    &&& r.reveal_side == b.reveal_side
    &&& opt_view(r.winner) == opt_view(b.payout_winner)
    &&& r.payout_amount == nonzero(b.payout_amount)
    &&& r.commission_paid == nonzero(b.commission_paid)
}

fn copy_addr(o: &Option<Addr>) -> (r: Option<Addr>)
    ensures
        opt_view(r) == opt_view(*o),
{
    match o {
        Some(a) => Some(a.clone()),
        None => None,
    }
}

fn nonzero_amount(x: u128) -> (r: Option<u128>)
    ensures
        r == nonzero(x),
{
    if x == 0 {
        None
    } else {
        Some(x)
    }
}

/// The report of bet `bet`.
pub fn bet_to_response(bet: &Bet) -> (r: BetResponse)
    ensures
        reports_bet(r, *bet),
{
    BetResponse {
        id: bet.id,
        maker: bet.maker.clone(),
        amount: bet.amount,
        commitment: vstd::slice::slice_to_vec(bet.commitment.as_slice()),
        status: String::from_str(bet.status.name()),
        acceptor: copy_addr(&bet.acceptor),
        acceptor_guess: bet.acceptor_guess,
        created_at_time: bet.created_at_time,
        accepted_at_time: bet.accepted_at_time,
        reveal_side: bet.reveal_side,
        winner: copy_addr(&bet.payout_winner),
        payout_amount: nonzero_amount(bet.payout_amount),
        commission_paid: nonzero_amount(bet.commission_paid),
    }
}

/// The vault's settings as queries report them.
#[derive(Debug)]
pub struct ConfigResponse {
    pub admin: Addr,
    pub token_cw20: Addr,
    pub treasury: Addr,
    pub commission_bps: u16,
    pub min_bet: u128,
    pub reveal_timeout_secs: u64,
    pub max_open_per_user: u16,
    pub max_daily_amount_per_user: u128,
    pub bet_ttl_secs: u64,
}

/// `r` reports the settings `c`.
pub open spec fn reports_config(r: ConfigResponse, c: Config) -> bool {
    &&& r.admin@ == c.admin@
    &&& r.token_cw20@ == c.token_cw20@
    &&& r.treasury@ == c.treasury@
    &&& r.commission_bps == c.commission_bps
    &&& r.min_bet == c.min_bet
    &&& r.reveal_timeout_secs == c.reveal_timeout_secs
    &&& r.max_open_per_user == c.max_open_per_user
    &&& r.max_daily_amount_per_user == c.max_daily_amount_per_user
    &&& r.bet_ttl_secs == c.bet_ttl_secs
}

/// One account's balance as queries report it.
#[derive(Clone, Copy, Debug, PartialEq, Eq, Structural)]
pub struct VaultBalanceResponse {
    pub available: u128,
    pub locked: u128,
}

/// A page of bets.
#[derive(Debug)]
pub struct BetsResponse {
    pub bets: Vec<BetResponse>,
}

/// The vault's settings.
pub fn query_config(vault: &Vault) -> (r: ConfigResponse)
    ensures
        reports_config(r, vault.config()),
{
    let c = vault.settings();
    ConfigResponse {
        admin: c.admin.clone(),
        token_cw20: c.token_cw20.clone(),
        treasury: c.treasury.clone(),
        commission_bps: c.commission_bps,
        min_bet: c.min_bet,
        reveal_timeout_secs: c.reveal_timeout_secs,
        max_open_per_user: c.max_open_per_user,
        max_daily_amount_per_user: c.max_daily_amount_per_user,
        bet_ttl_secs: c.bet_ttl_secs,
    }
}

/// The balance of `address` (zero for an account never credited).
pub fn query_vault_balance(vault: &Vault, address: &Addr) -> (r: VaultBalanceResponse)
    requires
        vault.wf(),
    ensures
        r.available == vault.balance_of(address@).available,
        r.locked == vault.balance_of(address@).locked,
{
    let b = vault.balance(address);
    VaultBalanceResponse { available: b.available, locked: b.locked }
}

/// The bet with id `id`.
pub fn query_bet(vault: &Vault, id: u64) -> (r: Result<BetResponse, ContractError>)
    ensures
        vault.has_bet(id) ==> (r matches Ok(b) && reports_bet(b, vault.bet(id))),
        !vault.has_bet(id) ==> r == Err::<BetResponse, ContractError>(ContractError::BetNotFound { id }),
{
    if id >= 1 && id - 1 < vault.num_bets() as u64 {
        Ok(bet_to_response(vault.bet_at((id - 1) as usize)))
    } else {
        Err(ContractError::BetNotFound { id })
    }
}

/// The ids of the bets at positions `lo` up to `hi` (excluded) that meet
/// `pred`, in ascending order.
pub open spec fn matching_ids(bets: Seq<Bet>, lo: int, hi: int, pred: spec_fn(Bet) -> bool) -> Seq<u64>
    decreases hi - lo,
{
    if hi <= lo {
        Seq::empty()
    } else {
        matching_ids(bets, lo, hi - 1, pred) + if pred(bets[hi - 1]) {
            seq![bets[hi - 1].id]
        } else {
            Seq::empty()
        }
    }
}

proof fn lemma_matching_prefix(bets: Seq<Bet>, lo: int, mid: int, hi: int, pred: spec_fn(Bet) -> bool)
    requires
        mid <= hi,
    ensures
        matching_ids(bets, lo, mid, pred).len() <= matching_ids(bets, lo, hi, pred).len(),
        matching_ids(bets, lo, hi, pred).subrange(0, matching_ids(bets, lo, mid, pred).len() as int)
            == matching_ids(bets, lo, mid, pred),
    decreases hi - mid,
{
    if mid < hi {
        lemma_matching_prefix(bets, lo, mid, hi - 1, pred);
        let a = matching_ids(bets, lo, mid, pred);
        let b = matching_ids(bets, lo, hi - 1, pred);
        let c = matching_ids(bets, lo, hi, pred);
        if hi - 1 >= lo {
            assert(c.subrange(0, a.len() as int) =~= b.subrange(0, a.len() as int));
        }
    } else {
        assert(matching_ids(bets, lo, hi, pred).subrange(0, matching_ids(bets, lo, hi, pred).len() as int)
            =~= matching_ids(bets, lo, hi, pred));
    }
}

/// The first `limit` elements of `s`, or all of it.
pub open spec fn first_n(s: Seq<u64>, limit: int) -> Seq<u64> {
    if s.len() <= limit {
        s
    } else {
        s.subrange(0, limit)
    }
}

/// The size of a page: the limit asked for, 20 if none, and never over 100.
pub open spec fn page_limit(limit: Option<u32>) -> int {
    let l = match limit {
        Some(l) => l,
        None => DEFAULT_PAGE_LIMIT,
    };
    if l <= MAX_PAGE_LIMIT {
        l as int
    } else {
        MAX_PAGE_LIMIT as int
    }
}

/// The position of the first bet after id `start_after`.
pub open spec fn page_start(start_after: Option<u64>) -> int {
    match start_after {
        Some(s) => s as int,
        None => 0,
    }
}

/// Whether `b` is open.
pub open spec fn is_open_bet(b: Bet) -> bool {
    b.status == BetStatus::Open
}

/// Whether `a` is the maker or the acceptor of `b`.
pub open spec fn involves(b: Bet, a: Seq<u8>) -> bool {
    b.maker@ == a || names(b.acceptor, a)
}

/// Which bets a page lists.
enum Filter<'a> {
    Open,
    Involving(&'a Addr),
}

spec fn filter_pred(f: Filter) -> spec_fn(Bet) -> bool {
    match f {
        Filter::Open => |b: Bet| is_open_bet(b),
        Filter::Involving(a) => |b: Bet| involves(b, a@),
    }
}

fn keeps(f: &Filter, b: &Bet) -> (r: bool)
    ensures
        r == filter_pred(*f)(*b),
{
    match f {
        Filter::Open => b.status.is_open(),
        Filter::Involving(a) => {
            let acc = match &b.acceptor {
                Some(x) => x.same(a),
                None => false,
            };
            b.maker.same(a) || acc
        },
    }
}

/// The ids of a page of bets, in order.
pub open spec fn ids_of(s: Seq<BetResponse>) -> Seq<u64> {
    s.map_values(|r: BetResponse| r.id)
}

fn page(vault: &Vault, start_after: Option<u64>, limit: Option<u32>, filter: Filter) -> (r: Vec<BetResponse>)
    requires
        vault.wf(),
    ensures
        ids_of(r@) == first_n(
            matching_ids(vault.bets(), page_start(start_after), vault.bets().len() as int, filter_pred(filter)),
            page_limit(limit),
        ),
        forall|k: int| 0 <= k < r@.len() ==> reports_bet(#[trigger] r@[k], vault.bet(r@[k].id)),
{
    proof {
        vault.lemma_bet_ids();
    }
    let n = vault.num_bets();
    let asked = match limit {
        Some(l) => l,
        None => DEFAULT_PAGE_LIMIT,
    };
    let lim: usize = if asked <= MAX_PAGE_LIMIT { asked as usize } else { MAX_PAGE_LIMIT as usize };
    let ghost lo = page_start(start_after);
    let mut i: usize = match start_after {
        Some(s) => if s < n as u64 { s as usize } else { n },
        None => 0,
    };
    let ghost pred = filter_pred(filter);
    let mut out: Vec<BetResponse> = Vec::new();
    proof {
        assert(ids_of(out@) =~= matching_ids(vault.bets(), lo, i as int, pred));
    }
    while i < n && out.len() < lim
        invariant
            vault.wf(),
            n == vault.bets().len(),
            lim == page_limit(limit),
            pred == filter_pred(filter),
            i <= n,
            lo <= i || i == n,
            out@.len() <= lim,
            ids_of(out@) == matching_ids(vault.bets(), lo, i as int, pred),
            forall|k: int| 0 <= k < out@.len() ==> reports_bet(#[trigger] out@[k], vault.bet(out@[k].id)),
        decreases n - i,
    {
        let b = vault.bet_at(i);
        let ghost before = out@;
        if keeps(&filter, b) {
            let resp = bet_to_response(b);
            out.push(resp);
            proof {
                assert(ids_of(out@) =~= ids_of(before) + seq![b.id]);
                vault.lemma_bet_ids();
                assert(vault.bets()[i as int].id == i + 1);
                assert(reports_bet(out@[out@.len() - 1], vault.bet(b.id)));
            }
        } else {
            assert(ids_of(out@) =~= ids_of(before) + Seq::<u64>::empty());
        }
        i = i + 1;
    }
    proof {
        let all = matching_ids(vault.bets(), lo, n as int, pred);
        if lo > n {
            assert(matching_ids(vault.bets(), lo, i as int, pred) =~= Seq::<u64>::empty());
            assert(all =~= Seq::<u64>::empty());
        }
        lemma_matching_prefix(vault.bets(), lo, i as int, n as int, pred);
        if i < n {
            assert(out@.len() == lim);
            assert(ids_of(out@).len() == out@.len());
        } else {
            assert(ids_of(out@).len() == out@.len());
        }
    }
    out
}

/// `bets` is the page of bets meeting `pred` with ids after `start_after`:
/// in ascending order of id, at most the page limit of them.
pub open spec fn is_page(
    vault: Vault,
    bets: Seq<BetResponse>,
    start_after: Option<u64>,
    limit: Option<u32>,
    pred: spec_fn(Bet) -> bool,
) -> bool {
    &&& ids_of(bets) == first_n(
        matching_ids(vault.bets(), page_start(start_after), vault.bets().len() as int, pred),
        page_limit(limit),
    )
    &&& forall|k: int| 0 <= k < bets.len() ==> reports_bet(#[trigger] bets[k], vault.bet(bets[k].id))
}

/// Which bets an open-bets page lists.
pub open spec fn open_pred() -> spec_fn(Bet) -> bool {
    |b: Bet| is_open_bet(b)
}

/// Which bets a page of `a`'s bets lists.
pub open spec fn involves_pred(a: Seq<u8>) -> spec_fn(Bet) -> bool {
    |b: Bet| involves(b, a)
}

/// Open bets with ids after `start_after`, in ascending order of id, at
/// most `limit` of them (20 by default, never more than 100).
pub fn query_open_bets(vault: &Vault, start_after: Option<u64>, limit: Option<u32>) -> (r: BetsResponse)
    requires
        vault.wf(),
    ensures
        is_page(*vault, r.bets@, start_after, limit, open_pred()),
{
    BetsResponse { bets: page(vault, start_after, limit, Filter::Open) }
}

/// Bets that `address` made or accepted, with ids after `start_after`, in
/// ascending order of id, at most `limit` of them (20 by default, never
/// more than 100).
pub fn query_user_bets(vault: &Vault, address: &Addr, start_after: Option<u64>, limit: Option<u32>) -> (r:
    BetsResponse)
    requires
        vault.wf(),
    ensures
        is_page(*vault, r.bets@, start_after, limit, involves_pred(address@)),
{
    BetsResponse { bets: page(vault, start_after, limit, Filter::Involving(address)) }
}

/// A read-only request.
#[derive(Debug)]
pub enum QueryMsg {
    Config {},
    VaultBalance { address: Addr },
    Bet { bet_id: u64 },
    OpenBets { start_after: Option<u64>, limit: Option<u32> },
    UserBets { address: Addr, start_after: Option<u64>, limit: Option<u32> },
}

/// The answer to a read-only request.
#[derive(Debug)]
pub enum QueryResponse {
    Config(ConfigResponse),
    VaultBalance(VaultBalanceResponse),
    Bet(BetResponse),
    Bets(BetsResponse),
}

/// Answers a read-only request.
pub fn query(vault: &Vault, msg: QueryMsg) -> (r: Result<QueryResponse, ContractError>)
    requires
        vault.wf(),
    ensures
        match msg {
            QueryMsg::Config {} => r matches Ok(QueryResponse::Config(c)) && reports_config(c, vault.config()),
            QueryMsg::VaultBalance { address } => r matches Ok(QueryResponse::VaultBalance(b)) && b.available
                == vault.balance_of(address@).available && b.locked == vault.balance_of(address@).locked,
            QueryMsg::Bet { bet_id } => if vault.has_bet(bet_id) {
                r matches Ok(QueryResponse::Bet(b)) && reports_bet(b, vault.bet(bet_id))
            } else {
                r == Err::<QueryResponse, ContractError>(ContractError::BetNotFound { id: bet_id })
            },
            QueryMsg::OpenBets { start_after, limit } => r matches Ok(QueryResponse::Bets(p)) && is_page(
                *vault,
                p.bets@,
                start_after,
                limit,
                open_pred(),
            ),
            QueryMsg::UserBets { address, start_after, limit } => r matches Ok(QueryResponse::Bets(p))
                && is_page(*vault, p.bets@, start_after, limit, involves_pred(address@)),
        },
{
    match msg {
        QueryMsg::Config {} => Ok(QueryResponse::Config(query_config(vault))),
        QueryMsg::VaultBalance { address } => Ok(QueryResponse::VaultBalance(query_vault_balance(vault, &address))),
        QueryMsg::Bet { bet_id } => match query_bet(vault, bet_id) {
            Ok(b) => Ok(QueryResponse::Bet(b)),
            Err(e) => Err(e),
        },
        QueryMsg::OpenBets { start_after, limit } => Ok(QueryResponse::Bets(query_open_bets(vault, start_after, limit))),
        QueryMsg::UserBets { address, start_after, limit } => Ok(
            QueryResponse::Bets(query_user_bets(vault, &address, start_after, limit)),
        ),
    }
}

} // verus!
