use vstd::prelude::*;

use crate::addr::Addr;
use crate::error::{BetAction, ContractError};
use crate::ledger::{Ledger, LedgerEntry};
use crate::payout::{commission_of, compute_payout, lemma_commission_bounded, payout_of};
use crate::types::{Bet, BetStatus, BlockInfo, Config, Settlement, Side, Transfer, VaultBalance};

verus! {

/// The time to live of an open bet when none is configured: 12 hours.
pub fn default_bet_ttl_secs() -> (r: u64)
    ensures
        r == 43200,
{
    43200
}

/// The largest commission rate, in basis points.
pub const MAX_COMMISSION_BPS: u16 = 5000;

/// Whether a bet in this status still holds stakes.
pub open spec fn is_live(s: BetStatus) -> bool {
    s == BetStatus::Open || s == BetStatus::Accepted
}

/// Whether `o` names the account `a`.
pub open spec fn names(o: Option<Addr>, a: Seq<u8>) -> bool {
    match o {
        Some(x) => x@ == a,
        None => false,
    }
}

/// What the account `a` has at stake in the bet `b`.
pub open spec fn stake_in(b: Bet, a: Seq<u8>) -> int {
    (if b.maker@ == a && is_live(b.status) { b.amount as int } else { 0 }) + (if b.status
        == BetStatus::Accepted && names(b.acceptor, a) {
        b.amount as int
    } else {
        0
    })
}

/// `stake_in` for the account `a`, as a function of the bet.
pub open spec fn stake_fn(a: Seq<u8>) -> spec_fn(Bet) -> int {
    |b: Bet| stake_in(b, a)
}

/// Whether `b` is a bet that `a` made and that is not yet resolved (1) or not (0).
pub open spec fn made_live(b: Bet, a: Seq<u8>) -> int {
    if b.maker@ == a && is_live(b.status) {
        1
    } else {
        0
    }
}

/// `made_live` for the account `a`, as a function of the bet.
pub open spec fn made_live_fn(a: Seq<u8>) -> spec_fn(Bet) -> int {
    |b: Bet| made_live(b, a)
}

/// The sum of `f` over a sequence of bets.
pub open spec fn sum_bets(s: Seq<Bet>, f: spec_fn(Bet) -> int) -> int
    decreases s.len(),
{
    if s.len() == 0 {
        0
    } else {
        sum_bets(s.drop_last(), f) + f(s.last())
    }
}

/// Replacing one bet changes a sum over the bets by the difference of the
/// two terms.
pub proof fn lemma_sum_bets_update(s: Seq<Bet>, i: int, b: Bet, f: spec_fn(Bet) -> int)
    requires
        0 <= i < s.len(),
    ensures
        sum_bets(s.update(i, b), f) == sum_bets(s, f) - f(s[i]) + f(b),
    decreases s.len(),
{
    let t = s.update(i, b);
    if i == s.len() - 1 {
        assert(t.drop_last() =~= s.drop_last());
    } else {
        assert(t.drop_last() =~= s.drop_last().update(i, b));
        lemma_sum_bets_update(s.drop_last(), i, b, f);
    }
}

/// Appending a bet adds its term to a sum over the bets.
pub proof fn lemma_sum_bets_push(s: Seq<Bet>, b: Bet, f: spec_fn(Bet) -> int)
    ensures
        sum_bets(s.push(b), f) == sum_bets(s, f) + f(b),
{
    assert(s.push(b).drop_last() =~= s);
}

/// The shape that a bet's status gives its other fields.
pub open spec fn bet_wf(b: Bet, i: int) -> bool {
    &&& b.id == i + 1
    &&& b.status == BetStatus::Open ==> b.acceptor is None
    &&& b.status == BetStatus::Accepted ==> {
        &&& b.acceptor is Some
        &&& b.acceptor_guess is Some
        &&& b.accepted_at_time is Some
        &&& !names(b.acceptor, b.maker@)
    }
}

/// Settings in range: the commission at most 50% and the reveal timeout
/// within its bounds.
pub open spec fn config_wf(c: Config) -> bool {
    &&& c.commission_bps <= MAX_COMMISSION_BPS
    &&& 60 <= c.reveal_timeout_secs <= 86400
}

/// The escrow vault: its settings, the ledger of balances, every bet ever
/// made (the bet with id `n` at position `n - 1`), and a proposed
/// administrator, if any.
#[derive(Debug)]
pub struct Vault {
    config: Config,
    ledger: Ledger,
    bets: Vec<Bet>,
    pending_admin: Option<Addr>,
}

impl Vault {
    /// The vault's invariant: settings in range, a consistent ledger, bets
    /// numbered from 1 in order, and each account's locked balance equal to
    /// what it has at stake in unresolved bets.
    pub closed spec fn wf(&self) -> bool {
        &&& config_wf(self.config)
        &&& self.ledger.wf()
        &&& self.bets@.len() < u64::MAX
        &&& forall|i: int| 0 <= i < self.bets@.len() ==> bet_wf(#[trigger] self.bets@[i], i)
        &&& forall|a: Seq<u8>| #[trigger]
            self.ledger.balance_of(a).locked == sum_bets(self.bets@, stake_fn(a))
    }

    /// The vault's settings.
    pub closed spec fn config(&self) -> Config {
        self.config
    }

    /// Every bet made, in order of id.
    pub closed spec fn bets(&self) -> Seq<Bet> {
        self.bets@
    }

    /// The balance of the account `a`.
    pub closed spec fn balance_of(&self, a: Seq<u8>) -> VaultBalance {
        self.ledger.balance_of(a)
    }

    /// The sum of available plus locked over all accounts.
    pub closed spec fn total(&self) -> int {
        self.ledger.total()
    }

    /// The number of ledger rows.
    pub closed spec fn num_accounts(&self) -> nat {
        self.ledger.num_entries()
    }

    /// The proposed administrator, if any.
    pub closed spec fn pending_admin(&self) -> Option<Addr> {
        self.pending_admin
    }

    /// Whether a bet with id `id` was made.
    pub open spec fn has_bet(&self, id: u64) -> bool {
        1 <= id <= self.bets().len()
    }

    /// The bet with id `id`.
    pub open spec fn bet(&self, id: u64) -> Bet {
        self.bets()[id - 1]
    }

    /// How many bets made by `a` are not yet resolved.
    pub open spec fn open_count(&self, a: Seq<u8>) -> int {
        sum_bets(self.bets(), made_live_fn(a))
    }

    /// The balances of all accounts but `a` and `b` agree in the two vaults.
    pub open spec fn others_agree(&self, other: &Vault, a: Seq<u8>, b: Seq<u8>) -> bool {
        forall|x: Seq<u8>| x != a && x != b ==> #[trigger] self.balance_of(x) == other.balance_of(x)
    }

    /// Every account's balance, and the total, agree.
    pub open spec fn ledger_agrees(&self, other: &Vault) -> bool {
        &&& forall|x: Seq<u8>| #[trigger] self.balance_of(x) == other.balance_of(x)
        &&& self.total() == other.total()
        &&& self.num_accounts() == other.num_accounts()
    }

    /// Settings and the proposed administrator agree.
    pub open spec fn settings_agree(&self, other: &Vault) -> bool {
        &&& self.config() == other.config()
        &&& self.pending_admin() == other.pending_admin()
    }

    /// The bet at position `i` has id `i + 1`.
    pub proof fn lemma_bet_ids(&self)
        requires
            self.wf(),
        ensures
            forall|i: int| 0 <= i < self.bets().len() ==> (#[trigger] self.bets()[i]).id == i + 1,
    {
        assert forall|i: int| 0 <= i < self.bets().len() implies (#[trigger] self.bets()[i]).id == i + 1 by {
            assert(bet_wf(self.bets@[i], i));
        }
    }

    /// What the invariant gives each account: its locked balance is its
    /// stakes in unresolved bets, and available plus locked is at most the
    /// total, which fits in a `u128`.
    pub proof fn lemma_wf_facts(&self, a: Seq<u8>)
        requires
            self.wf(),
        ensures
            self.balance_of(a).locked == sum_bets(self.bets(), stake_fn(a)),
            self.balance_of(a).available + self.balance_of(a).locked <= self.total() <= u128::MAX,
    {
        self.ledger.lemma_balance_bounded(a);
    }

    /// A vault with the given settings, an empty ledger and no bets.
    pub fn new(config: Config) -> (r: Vault)
        requires
            config_wf(config),
        ensures
            r.wf(),
            r.config() == config,
            r.bets().len() == 0,
            r.pending_admin() is None,
            r.total() == 0,
            forall|a: Seq<u8>| #[trigger] r.balance_of(a) == (VaultBalance { available: 0, locked: 0 }),
    {
        let r = Vault { config, ledger: Ledger::new(), bets: Vec::new(), pending_admin: None };
        assert forall|a: Seq<u8>| #[trigger]
            r.ledger.balance_of(a).locked == sum_bets(r.bets@, stake_fn(a)) by {
            assert(r.ledger.balance_of(a) == crate::ledger::zero_balance());
        }
        r
    }

    /// The position of the bet with id `id`.
    fn find_bet(&self, id: u64) -> (r: Result<usize, ContractError>)
        ensures
            match r {
                Ok(i) => self.has_bet(id) && i == id - 1,
                Err(e) => !self.has_bet(id) && e == ContractError::BetNotFound { id },
            },
    {
        if id >= 1 && id - 1 < self.bets.len() as u64 {
            Ok((id - 1) as usize)
        } else {
            Err(ContractError::BetNotFound { id })
        }
    }

    /// How many bets have been made.
    pub fn num_bets(&self) -> (r: usize)
        ensures
            r == self.bets().len(),
    {
        self.bets.len()
    }

    /// The bet at position `i` (its id is `i + 1`).
    pub fn bet_at(&self, i: usize) -> (r: &Bet)
        requires
            i < self.bets().len(),
        ensures
            *r == self.bets()[i as int],
    {
        &self.bets[i]
    }

    /// The vault's settings.
    pub fn settings(&self) -> (r: &Config)
        ensures
            *r == self.config(),
    {
        &self.config
    }

    /// The proposed administrator, if any.
    pub fn proposed_admin(&self) -> (r: &Option<Addr>)
        ensures
            *r == self.pending_admin(),
    {
        &self.pending_admin
    }

    /// The balance of `a`.
    pub fn balance(&self, a: &Addr) -> (r: VaultBalance)
        requires
            self.wf(),
        ensures
            r == self.balance_of(a@),
    {
        self.ledger.balance(a)
    }

    /// How many bets made by `a` are not yet resolved.
    pub fn open_bet_count(&self, a: &Addr) -> (r: u64)
        requires
            self.wf(),
        ensures
            r == self.open_count(a@),
    {
        let mut n: u64 = 0;
        let mut i: usize = 0;
        while i < self.bets.len()
            invariant
                self.wf(),
                0 <= i <= self.bets@.len(),
                n <= i,
                n == sum_bets(self.bets@.subrange(0, i as int), made_live_fn(a@)),
            decreases self.bets@.len() - i,
        {
            let b = &self.bets[i];
            proof {
                let s = self.bets@.subrange(0, i + 1);
                assert(s.drop_last() =~= self.bets@.subrange(0, i as int));
            }
            if b.status.is_live() && b.maker.same(a) {
                n = n + 1;
            }
            i = i + 1;
        }
        assert(self.bets@.subrange(0, i as int) =~= self.bets@);
        n
    }
}

/// Whether an open bet created at `created` has outlived its time to live
/// at `now` (a time to live of 0 never runs out).
pub open spec fn expired(created: u64, ttl: u64, now: u64) -> bool {
    ttl > 0 && now > created + ttl
}

/// Why creating a bet would fail, checked in this order; `None` if it succeeds.
pub open spec fn create_bet_error(v: Vault, sender: Seq<u8>, amount: u128, commitment: Seq<u8>) -> Option<
    ContractError,
> {
    if commitment.len() != 32 {
        Some(ContractError::InvalidCommitmentLength { len: commitment.len() as usize })
    } else if amount < v.config().min_bet {
        Some(ContractError::BetAmountBelowMinimum { min: v.config().min_bet })
    } else if v.open_count(sender) >= v.config().max_open_per_user {
        Some(ContractError::TooManyOpenBets { max: v.config().max_open_per_user })
    } else if v.balance_of(sender).available < amount {
        Some(
            ContractError::InsufficientAvailableBalance {
                need: amount,
                have: v.balance_of(sender).available,
            },
        )
    } else if v.bets().len() + 1 >= u64::MAX {
        Some(ContractError::Overflow)
    } else {
        None
    }
}

/// `b` is the open bet that a successful create records.
pub open spec fn is_new_bet(
    b: Bet,
    id: int,
    maker: Seq<u8>,
    amount: u128,
    commitment: Seq<u8>,
    env: BlockInfo,
) -> bool {
    &&& b.id == id
    &&& b.maker@ == maker
    &&& b.amount == amount
    &&& b.commitment@ == commitment
    &&& b.status == BetStatus::Open
    &&& b.created_at_height == env.height
    &&& b.created_at_time == env.time
    &&& b.acceptor is None
    &&& b.acceptor_guess is None
    &&& b.accepted_at_height is None
    &&& b.accepted_at_time is None
    &&& b.reveal_secret is None
    &&& b.reveal_side is None
    &&& b.resolved_at_height is None
    &&& b.payout_winner is None
    &&& b.commission_paid == 0
    &&& b.payout_amount == 0
}

/// Why canceling bet `id` would fail; `None` if it succeeds.
pub open spec fn cancel_bet_error(v: Vault, sender: Seq<u8>, id: u64) -> Option<ContractError> {
    if !v.has_bet(id) {
        Some(ContractError::BetNotFound { id })
    } else if v.bet(id).status != BetStatus::Open {
        Some(
            ContractError::InvalidStateTransition {
                action: BetAction::Cancel,
                current_status: v.bet(id).status,
            },
        )
    } else if v.bet(id).maker@ != sender {
        Some(ContractError::Unauthorized)
    } else {
        None
    }
}

/// Why accepting bet `id` would fail; `None` if it succeeds.
pub open spec fn accept_bet_error(v: Vault, env: BlockInfo, sender: Seq<u8>, id: u64) -> Option<
    ContractError,
> {
    if !v.has_bet(id) {
        Some(ContractError::BetNotFound { id })
    } else if v.bet(id).status != BetStatus::Open {
        Some(
            ContractError::InvalidStateTransition {
                action: BetAction::Accept,
                current_status: v.bet(id).status,
            },
        )
    } else if expired(v.bet(id).created_at_time, v.config().bet_ttl_secs, env.time) {
        Some(
            ContractError::BetExpired {
                id,
                expired_at: (v.bet(id).created_at_time + v.config().bet_ttl_secs) as u64,
            },
        )
    } else if v.bet(id).maker@ == sender {
        Some(ContractError::SelfAcceptNotAllowed)
    } else if v.balance_of(sender).available < v.bet(id).amount {
        Some(
            ContractError::InsufficientAvailableBalance {
                need: v.bet(id).amount,
                have: v.balance_of(sender).available,
            },
        )
    } else {
        None
    }
}

/// `nb` is the bet `b` once `acceptor` has accepted it with `guess`.
pub open spec fn is_accepted_bet(nb: Bet, b: Bet, acceptor: Seq<u8>, guess: Side, env: BlockInfo) -> bool {
    &&& names(nb.acceptor, acceptor)
    &&& nb == Bet {
        status: BetStatus::Accepted,
        acceptor: nb.acceptor,
        acceptor_guess: Some(guess),
        accepted_at_height: Some(env.height),
        accepted_at_time: Some(env.time),
        ..b
    }
}

/// What creating a bet does: the error of `create_bet_error`, with nothing
/// changed, or a new open bet with the next id and the stake locked.
pub open spec fn create_bet_done(
    v1: Vault,
    v2: Vault,
    r: Result<u64, ContractError>,
    env: BlockInfo,
    sender: Seq<u8>,
    amount: u128,
    commitment: Seq<u8>,
) -> bool {
    match create_bet_error(v1, sender, amount, commitment) {
        Some(e) => r == Err::<u64, ContractError>(e) && v2 == v1,
        None => {
            &&& r == Ok::<u64, ContractError>((v1.bets().len() + 1) as u64)
            &&& v2.bets().len() == v1.bets().len() + 1
            &&& v2.bets().drop_last() == v1.bets()
            &&& is_new_bet(
                v2.bets().last(),
                v1.bets().len() + 1 as int,
                sender,
                amount,
                commitment,
                env,
            )
            &&& v2.balance_of(sender) == (VaultBalance {
                available: (v1.balance_of(sender).available - amount) as u128,
                locked: (v1.balance_of(sender).locked + amount) as u128,
            })
            &&& v2.others_agree(&v1, sender, sender)
            &&& v2.settings_agree(&v1)
            &&& v2.total() == v1.total()
            &&& v2.open_count(sender) == v1.open_count(sender) + 1
        }
    }
}

/// Opens a bet of `amount` by `sender`, committed to `commitment`, and
/// locks the stake; returns the new bet's id.
pub fn execute_create_bet(
    vault: &mut Vault,
    env: &BlockInfo,
    sender: &Addr,
    amount: u128,
    commitment: Vec<u8>,
) -> (r: Result<u64, ContractError>)
    requires
        old(vault).wf(),
    ensures
        final(vault).wf(),
        create_bet_done(*old(vault), *final(vault), r, *env, sender@, amount, commitment@),
{
    if commitment.len() != 32 {
        return Err(ContractError::InvalidCommitmentLength { len: commitment.len() });
    }
    if amount < vault.config.min_bet {
        return Err(ContractError::BetAmountBelowMinimum { min: vault.config.min_bet });
    }
    let count = vault.open_bet_count(sender);
    if count >= vault.config.max_open_per_user as u64 {
        return Err(ContractError::TooManyOpenBets { max: vault.config.max_open_per_user });
    }
    let bal = vault.ledger.balance(sender);
    if bal.available < amount {
        return Err(ContractError::InsufficientAvailableBalance { need: amount, have: bal.available });
    }
    if vault.bets.len() as u64 + 1 >= u64::MAX {
        return Err(ContractError::Overflow);
    }
    let ghost prev = *vault;
    let id = vault.bets.len() as u64 + 1;
    if let Err(e) = vault.ledger.lock(sender, amount) {
        return Err(e);
    }
    let bet = Bet {
        id,
        maker: sender.clone(),
        amount,
        commitment,
        status: BetStatus::Open,
        created_at_height: env.height,
        created_at_time: env.time,
        acceptor: None,
        acceptor_guess: None,
        accepted_at_height: None,
        accepted_at_time: None,
        reveal_secret: None,
        reveal_side: None,
        resolved_at_height: None,
        payout_winner: None,
        commission_paid: 0,
        payout_amount: 0,
    };
    vault.bets.push(bet);
    proof {
        assert(vault.bets@ == prev.bets@.push(bet));
        assert(vault.bets@.drop_last() =~= prev.bets@);
        lemma_sum_bets_push(prev.bets@, bet, made_live_fn(sender@));
        assert forall|a: Seq<u8>| #[trigger]
            vault.ledger.balance_of(a).locked == sum_bets(vault.bets@, stake_fn(a)) by {
            lemma_sum_bets_push(prev.bets@, bet, stake_fn(a));
            prev.lemma_wf_facts(a);
        }
        assert forall|i: int| 0 <= i < vault.bets@.len() implies bet_wf(#[trigger] vault.bets@[i], i) by {
            if i < prev.bets@.len() {
                assert(vault.bets@[i] == prev.bets@[i]);
            }
        }
    }
    Ok(id)
}

/// What canceling bet `id` does: the error of `cancel_bet_error`, with
/// nothing changed, or the bet canceled and its stake unlocked.
pub open spec fn cancel_bet_done(
    v1: Vault,
    v2: Vault,
    r: Result<(), ContractError>,
    sender: Seq<u8>,
    id: u64,
) -> bool {
    match cancel_bet_error(v1, sender, id) {
        Some(e) => r == Err::<(), ContractError>(e) && v2 == v1,
        None => {
            let b = v1.bet(id);
            &&& r is Ok
            &&& v2.bets() == v1.bets().update(
                id - 1,
                Bet { status: BetStatus::Canceled, ..b },
            )
            &&& v2.balance_of(b.maker@) == (VaultBalance {
                available: (v1.balance_of(b.maker@).available + b.amount) as u128,
                locked: (v1.balance_of(b.maker@).locked - b.amount) as u128,
            })
            &&& v2.others_agree(&v1, b.maker@, b.maker@)
            &&& v2.settings_agree(&v1)
            &&& v2.total() == v1.total()
            &&& v2.open_count(b.maker@) == v1.open_count(b.maker@) - 1
        }
    }
}

/// Cancels an open bet at its maker's request and unlocks the stake.
pub fn execute_cancel_bet(vault: &mut Vault, sender: &Addr, id: u64) -> (r: Result<(), ContractError>)
    requires
        old(vault).wf(),
    ensures
        final(vault).wf(),
        cancel_bet_done(*old(vault), *final(vault), r, sender@, id),
{
    let i = match vault.find_bet(id) {
        Ok(i) => i,
        Err(e) => return Err(e),
    };
    let status = vault.bets[i].status;
    if !status.is_open() {
        return Err(ContractError::InvalidStateTransition { action: BetAction::Cancel, current_status: status });
    }
    if !vault.bets[i].maker.same(sender) {
        return Err(ContractError::Unauthorized);
    }
    let ghost prev = *vault;
    let maker = vault.bets[i].maker.clone();
    let amount = vault.bets[i].amount;
    proof {
        prev.lemma_wf_facts(maker@);
        assert(stake_in(prev.bets@[i as int], maker@) == amount);
        lemma_sum_bets_nonneg_stake(prev.bets@, maker@);
        lemma_sum_bets_update(prev.bets@, i as int, prev.bets@[i as int], stake_fn(maker@));
    }
    vault.ledger.unlock(&maker, amount);
    let mut bet = Bet::vacant();
    vault.bets.set_and_swap(i, &mut bet);
    bet.status = BetStatus::Canceled;
    vault.bets.set(i, bet);
    proof {
        let nb = vault.bets@[i as int];
        assert(vault.bets@ == prev.bets@.update(i as int, nb));
        lemma_sum_bets_update(prev.bets@, i as int, nb, made_live_fn(maker@));
        assert forall|a: Seq<u8>| #[trigger]
            vault.ledger.balance_of(a).locked == sum_bets(vault.bets@, stake_fn(a)) by {
            lemma_sum_bets_update(prev.bets@, i as int, nb, stake_fn(a));
            prev.lemma_wf_facts(a);
        }
        assert forall|j: int| 0 <= j < vault.bets@.len() implies bet_wf(#[trigger] vault.bets@[j], j) by {
            if j != i {
                assert(vault.bets@[j] == prev.bets@[j]);
            }
        }
    }
    Ok(())
}

/// What accepting bet `id` does: the error of `accept_bet_error`, with
/// nothing changed, or the bet accepted and the acceptor's stake locked.
pub open spec fn accept_bet_done(
    v1: Vault,
    v2: Vault,
    r: Result<(), ContractError>,
    env: BlockInfo,
    sender: Seq<u8>,
    id: u64,
    guess: Side,
) -> bool {
    match accept_bet_error(v1, env, sender, id) {
        Some(e) => r == Err::<(), ContractError>(e) && v2 == v1,
        None => {
            let b = v1.bet(id);
            &&& r is Ok
            &&& v2.bets() == v1.bets().update(id - 1, v2.bet(id))
            &&& is_accepted_bet(v2.bet(id), b, sender, guess, env)
            &&& v2.balance_of(sender) == (VaultBalance {
                available: (v1.balance_of(sender).available - b.amount) as u128,
                locked: (v1.balance_of(sender).locked + b.amount) as u128,
            })
            &&& v2.others_agree(&v1, sender, sender)
            &&& v2.settings_agree(&v1)
            &&& v2.total() == v1.total()
        }
    }
}

/// Accepts an open bet on behalf of `sender` with `guess`, locking the same
/// stake from the acceptor.
pub fn execute_accept_bet(vault: &mut Vault, env: &BlockInfo, sender: &Addr, id: u64, guess: Side) -> (r:
    Result<(), ContractError>)
    requires
        old(vault).wf(),
    ensures
        final(vault).wf(),
        accept_bet_done(*old(vault), *final(vault), r, *env, sender@, id, guess),
{
    let i = match vault.find_bet(id) {
        Ok(i) => i,
        Err(e) => return Err(e),
    };
    let status = vault.bets[i].status;
    if !status.is_open() {
        return Err(ContractError::InvalidStateTransition { action: BetAction::Accept, current_status: status });
    }
    let ttl = vault.config.bet_ttl_secs;
    let created = vault.bets[i].created_at_time;
    if ttl > 0 && env.time > created && env.time - created > ttl {
        return Err(ContractError::BetExpired { id, expired_at: created + ttl });
    }
    if vault.bets[i].maker.same(sender) {
        return Err(ContractError::SelfAcceptNotAllowed);
    }
    let amount = vault.bets[i].amount;
    let ghost prev = *vault;
    if let Err(e) = vault.ledger.lock(sender, amount) {
        return Err(e);
    }
    let mut bet = Bet::vacant();
    vault.bets.set_and_swap(i, &mut bet);
    bet.status = BetStatus::Accepted;
    bet.acceptor = Some(sender.clone());
    bet.acceptor_guess = Some(guess);
    bet.accepted_at_height = Some(env.height);
    bet.accepted_at_time = Some(env.time);
    vault.bets.set(i, bet);
    proof {
        let nb = vault.bets@[i as int];
        assert(vault.bets@ == prev.bets@.update(i as int, nb));
        assert forall|a: Seq<u8>| #[trigger]
            vault.ledger.balance_of(a).locked == sum_bets(vault.bets@, stake_fn(a)) by {
            lemma_sum_bets_update(prev.bets@, i as int, nb, stake_fn(a));
            prev.lemma_wf_facts(a);
        }
        assert forall|j: int| 0 <= j < vault.bets@.len() implies bet_wf(#[trigger] vault.bets@[j], j) by {
            if j != i {
                assert(vault.bets@[j] == prev.bets@[j]);
            }
        }
    }
    Ok(())
}

/// `start + timeout`, or the largest `u64` where the sum does not fit.
pub open spec fn deadline_of(start: u64, timeout: u64) -> u64 {
    if start + timeout <= u64::MAX {
        (start + timeout) as u64
    } else {
        u64::MAX
    }
}

/// The time held, or 0 when none is.
pub open spec fn time_or_zero(o: Option<u64>) -> u64 {
    match o {
        Some(t) => t,
        None => 0,
    }
}

/// The acceptor's guess on `b` (heads when there is none).
pub open spec fn guess_of(b: Bet) -> Side {
    match b.acceptor_guess {
        Some(g) => g,
        None => Side::Heads,
    }
}

/// The acceptor of `b` (the empty address when there is none).
pub open spec fn acceptor_of(b: Bet) -> Seq<u8> {
    match b.acceptor {
        Some(a) => a@,
        None => Seq::empty(),
    }
}

/// Whether the maker wins: on any reveal that differs from the guess.
pub open spec fn maker_wins(side: Side, guess: Side) -> bool {
    side != guess
}

/// Balance `b` of account `x` after a bet of `amount` per side between
/// `maker` and `acceptor` is paid out to `winner`, with `commission` to
/// `treasury`. Each returns (available, locked).
pub open spec fn settled(
    b: VaultBalance,
    x: Seq<u8>,
    maker: Seq<u8>,
    acceptor: Seq<u8>,
    winner: Seq<u8>,
    treasury: Seq<u8>,
    amount: int,
    commission: int,
) -> (int, int) {
    (
        b.available + (if x == winner { 2 * amount - commission } else { 0 }) + (if x == treasury {
            commission
        } else {
            0
        }),
        b.locked - (if x == maker { amount } else { 0 }) - (if x == acceptor { amount } else { 0 }),
    )
}

/// Releases `amount` from the locked balances of `maker` and `acceptor`,
/// credits the payout to `winner` and the commission to `treasury`. Returns
/// (commission, payout). The ledger's total does not change.
fn settle(
    ledger: &mut Ledger,
    maker: &Addr,
    acceptor: &Addr,
    winner: &Addr,
    treasury: &Addr,
    amount: u128,
    bps: u16,
) -> (r: (u128, u128))
    requires
        old(ledger).wf(),
        maker@ != acceptor@,
        old(ledger).balance_of(maker@).locked >= amount,
        old(ledger).balance_of(acceptor@).locked >= amount,
        bps <= MAX_COMMISSION_BPS,
    ensures
        final(ledger).wf(),
        final(ledger).total() == old(ledger).total(),
        r.0 == commission_of(amount as int, bps as int),
        r.1 == payout_of(amount as int, bps as int),
        forall|x: Seq<u8>| #[trigger]
            final(ledger).balance_of(x).locked == old(ledger).balance_of(x).locked - (if x == maker@ {
                amount as int
            } else {
                0
            }) - (if x == acceptor@ {
                amount as int
            } else {
                0
            }),
        forall|x: Seq<u8>|
            {
                let (av, lk) = #[trigger] settled(
                    old(ledger).balance_of(x),
                    x,
                    maker@,
                    acceptor@,
                    winner@,
                    treasury@,
                    amount as int,
                    r.0 as int,
                );
                &&& final(ledger).balance_of(x).available == av
                &&& final(ledger).balance_of(x).locked == lk
            },
{
    let ghost l0 = *ledger;
    ledger.release(maker, amount);
    let ghost l1 = *ledger;
    ledger.release(acceptor, amount);
    let ghost l2 = *ledger;
    proof {
        l0.lemma_balance_bounded(maker@);
        l0.lemma_balance_bounded(acceptor@);
        l2.lemma_balance_bounded(acceptor@);
        lemma_commission_bounded(amount as int, bps as int);
    }
    let (commission, payout) = compute_payout(amount, bps).unwrap();
    ledger.credit(winner, payout);
    ledger.credit(treasury, commission);
    assert forall|x: Seq<u8>|
        #[trigger] settled(l0.balance_of(x), x, maker@, acceptor@, winner@, treasury@, amount as int, commission as int)
            == (ledger.balance_of(x).available as int, ledger.balance_of(x).locked as int) by {
        assert(l1.balance_of(x).available == l0.balance_of(x).available);
        assert(l2.balance_of(x).available == l0.balance_of(x).available);
    }
    (commission, payout)
}

/// Why revealing bet `id` would fail, given the digest of what was revealed;
/// `None` if it succeeds.
pub open spec fn reveal_error(v: Vault, env: BlockInfo, sender: Seq<u8>, id: u64, digest: Seq<u8>) -> Option<
    ContractError,
> {
    if !v.has_bet(id) {
        Some(ContractError::BetNotFound { id })
    } else if v.bet(id).status != BetStatus::Accepted {
        Some(
            ContractError::InvalidStateTransition {
                action: BetAction::Reveal,
                current_status: v.bet(id).status,
            },
        )
    } else if v.bet(id).maker@ != sender {
        Some(ContractError::Unauthorized)
    } else if env.time > time_or_zero(v.bet(id).accepted_at_time) + v.config().reveal_timeout_secs {
        Some(
            ContractError::RevealTimeoutExpired {
                deadline: deadline_of(
                    time_or_zero(v.bet(id).accepted_at_time),
                    v.config().reveal_timeout_secs,
                ),
            },
        )
    } else if digest != v.bet(id).commitment@ {
        Some(ContractError::CommitmentMismatch)
    } else {
        None
    }
}

/// `nb` is the bet `b` once resolved by a reveal of `side` with `secret`.
pub open spec fn is_revealed_bet(
    nb: Bet,
    b: Bet,
    side: Side,
    secret: Seq<u8>,
    env: BlockInfo,
    winner: Seq<u8>,
    commission: int,
    payout: int,
) -> bool {
    &&& names(nb.payout_winner, winner)
    &&& nb.reveal_secret matches Some(s) && s@ == secret
    &&& nb == Bet {
        status: BetStatus::Revealed,
        reveal_secret: nb.reveal_secret,
        reveal_side: Some(side),
        resolved_at_height: Some(env.height),
        payout_winner: nb.payout_winner,
        commission_paid: commission as u128,
        payout_amount: payout as u128,
        ..b
    }
}

/// `st` reports a payout of `payout` to `winner` and `commission`.
pub open spec fn reports(st: Settlement, winner: Seq<u8>, commission: int, payout: int) -> bool {
    st.winner@ == winner && st.commission == commission && st.payout == payout
}

/// The balances of `v2` are those of `v1` once bet `b` is paid out to
/// `winner`, with the commission to the treasury.
pub open spec fn paid_out(v1: Vault, v2: Vault, b: Bet, acceptor: Seq<u8>, winner: Seq<u8>) -> bool {
    forall|x: Seq<u8>|
        {
            let (av, lk) = #[trigger] settled(
                v1.balance_of(x),
                x,
                b.maker@,
                acceptor,
                winner,
                v1.config().treasury@,
                b.amount as int,
                commission_of(b.amount as int, v1.config().commission_bps as int),
            );
            &&& v2.balance_of(x).available == av
            &&& v2.balance_of(x).locked == lk
        }
}

/// What a reveal of bet `id` does, given the digest of what was revealed.
pub open spec fn reveal_done(
    v1: Vault,
    v2: Vault,
    r: Result<Settlement, ContractError>,
    env: BlockInfo,
    sender: Seq<u8>,
    id: u64,
    side: Side,
    secret: Seq<u8>,
    digest: Seq<u8>,
) -> bool {
    match reveal_error(v1, env, sender, id, digest) {
        Some(e) => r == Err::<Settlement, ContractError>(e) && v2 == v1,
        None => {
            let b = v1.bet(id);
            let winner = if maker_wins(side, guess_of(b)) { b.maker@ } else { acceptor_of(b) };
            let c = commission_of(b.amount as int, v1.config().commission_bps as int);
            let p = payout_of(b.amount as int, v1.config().commission_bps as int);
            &&& r matches Ok(st) && reports(st, winner, c, p)
            &&& v2.bets() == v1.bets().update(id - 1, v2.bet(id))
            &&& is_revealed_bet(v2.bet(id), b, side, secret, env, winner, c, p)
            &&& paid_out(v1, v2, b, acceptor_of(b), winner)
            &&& v2.settings_agree(&v1)
            &&& v2.total() == v1.total()
            &&& v2.open_count(b.maker@) == v1.open_count(b.maker@) - 1
        },
    }
}

/// The digest that a reveal of `side` with `secret` on bet `id` yields: the
/// commitment of the bet's maker to them.
pub open spec fn reveal_digest(v: Vault, id: u64, side: Side, secret: Seq<u8>) -> Seq<u8> {
    crate::commit::commitment_of(v.bet(id).maker@, side, secret)
}

/// Resolves an accepted bet on its maker's reveal of `side` and `secret`,
/// where `digest` is the commitment those reveal (see `compute_commitment`).
/// The maker wins if `side` differs from the acceptor's guess.
pub fn reveal_with_digest(
    vault: &mut Vault,
    env: &BlockInfo,
    sender: &Addr,
    id: u64,
    side: Side,
    secret: Vec<u8>,
    digest: &[u8],
) -> (r: Result<Settlement, ContractError>)
    requires
        old(vault).wf(),
    ensures
        final(vault).wf(),
        reveal_done(*old(vault), *final(vault), r, *env, sender@, id, side, secret@, digest@),
{
    let i = match vault.find_bet(id) {
        Ok(i) => i,
        Err(e) => return Err(e),
    };
    let status = vault.bets[i].status;
    if !status.is_accepted() {
        return Err(ContractError::InvalidStateTransition { action: BetAction::Reveal, current_status: status });
    }
    if !vault.bets[i].maker.same(sender) {
        return Err(ContractError::Unauthorized);
    }
    let accepted = vault.bets[i].accepted_at_time.unwrap();
    let timeout = vault.config.reveal_timeout_secs;
    if env.time > accepted && env.time - accepted > timeout {
        return Err(ContractError::RevealTimeoutExpired { deadline: accepted + timeout });
    }
    if !crate::commit::digest_matches(digest, vault.bets[i].commitment.as_slice()) {
        return Err(ContractError::CommitmentMismatch);
    }
    let ghost prev = *vault;
    let maker = vault.bets[i].maker.clone();
    let acceptor = vault.bets[i].acceptor.as_ref().unwrap().clone();
    let guess = vault.bets[i].acceptor_guess.unwrap();
    let amount = vault.bets[i].amount;
    let maker_won = !side_eq(side, guess);
    let winner = if maker_won { maker.clone() } else { acceptor.clone() };
    proof {
        prev.lemma_wf_facts(maker@);
        prev.lemma_wf_facts(acceptor@);
        lemma_sum_bets_nonneg_stake(prev.bets@, maker@);
        lemma_sum_bets_nonneg_stake(prev.bets@, acceptor@);
    }
    let (commission, payout) = settle(
        &mut vault.ledger,
        &maker,
        &acceptor,
        &winner,
        &vault.config.treasury,
        amount,
        vault.config.commission_bps,
    );
    let mut bet = Bet::vacant();
    vault.bets.set_and_swap(i, &mut bet);
    bet.status = BetStatus::Revealed;
    bet.reveal_secret = Some(secret);
    bet.reveal_side = Some(side);
    bet.resolved_at_height = Some(env.height);
    bet.payout_winner = Some(winner.clone());
    bet.commission_paid = commission;
    bet.payout_amount = payout;
    vault.bets.set(i, bet);
    proof {
        let nb = vault.bets@[i as int];
        assert(vault.bets@ == prev.bets@.update(i as int, nb));
        lemma_sum_bets_update(prev.bets@, i as int, nb, made_live_fn(maker@));
        assert forall|a: Seq<u8>| #[trigger]
            vault.ledger.balance_of(a).locked == sum_bets(vault.bets@, stake_fn(a)) by {
            lemma_sum_bets_update(prev.bets@, i as int, nb, stake_fn(a));
            prev.lemma_wf_facts(a);
        }
        assert forall|j: int| 0 <= j < vault.bets@.len() implies bet_wf(#[trigger] vault.bets@[j], j) by {
            if j != i {
                assert(vault.bets@[j] == prev.bets@[j]);
            }
        }
    }
    Ok(Settlement { winner, payout, commission })
}

/// Resolves an accepted bet on its maker's reveal of `side` and `secret`.
/// It succeeds only if they reproduce the bet's commitment.
pub fn execute_reveal(
    vault: &mut Vault,
    env: &BlockInfo,
    sender: &Addr,
    id: u64,
    side: Side,
    secret: Vec<u8>,
) -> (r: Result<Settlement, ContractError>)
    requires
        old(vault).wf(),
    ensures
        final(vault).wf(),
        reveal_done(
            *old(vault),
            *final(vault),
            r,
            *env,
            sender@,
            id,
            side,
            secret@,
            reveal_digest(*old(vault), id, side, secret@),
        ),
{
    let i = match vault.find_bet(id) {
        Ok(i) => i,
        Err(e) => return Err(e),
    };
    let maker = vault.bets[i].maker.clone();
    let digest = crate::commit::compute_commitment(&maker, side, secret.as_slice());
    reveal_with_digest(vault, env, sender, id, side, secret, digest.as_slice())
}

/// Why accepting and revealing bet `id` at once would fail, given the
/// digest of what was revealed; `None` if it succeeds.
pub open spec fn accept_and_reveal_error(
    v: Vault,
    env: BlockInfo,
    sender: Seq<u8>,
    id: u64,
    digest: Seq<u8>,
) -> Option<ContractError> {
    if !v.has_bet(id) {
        Some(ContractError::BetNotFound { id })
    } else if v.bet(id).status != BetStatus::Open {
        Some(
            ContractError::InvalidStateTransition {
                action: BetAction::AcceptAndReveal,
                current_status: v.bet(id).status,
            },
        )
    } else if expired(v.bet(id).created_at_time, v.config().bet_ttl_secs, env.time) {
        Some(
            ContractError::BetExpired {
                id,
                expired_at: (v.bet(id).created_at_time + v.config().bet_ttl_secs) as u64,
            },
        )
    } else if v.bet(id).maker@ == sender {
        Some(ContractError::SelfAcceptNotAllowed)
    } else if v.balance_of(sender).available < v.bet(id).amount {
        Some(
            ContractError::InsufficientAvailableBalance {
                need: v.bet(id).amount,
                have: v.balance_of(sender).available,
            },
        )
    } else if digest != v.bet(id).commitment@ {
        Some(ContractError::CommitmentMismatch)
    } else {
        None
    }
}

/// `nb` is the open bet `b` once accepted by `acceptor` with `guess` and
/// resolved by a reveal of `side` with `secret`, in one step.
pub open spec fn is_accepted_revealed_bet(
    nb: Bet,
    b: Bet,
    acceptor: Seq<u8>,
    guess: Side,
    side: Side,
    secret: Seq<u8>,
    env: BlockInfo,
    winner: Seq<u8>,
    commission: int,
    payout: int,
) -> bool {
    &&& names(nb.acceptor, acceptor)
    &&& names(nb.payout_winner, winner)
    &&& nb.reveal_secret matches Some(s) && s@ == secret
    &&& nb == Bet {
        status: BetStatus::Revealed,
        acceptor: nb.acceptor,
        acceptor_guess: Some(guess),
        accepted_at_height: Some(env.height),
        accepted_at_time: Some(env.time),
        reveal_secret: nb.reveal_secret,
        reveal_side: Some(side),
        resolved_at_height: Some(env.height),
        payout_winner: nb.payout_winner,
        commission_paid: commission as u128,
        payout_amount: payout as u128,
        ..b
    }
}

/// The balances of `v2` are those of `v1` once `acceptor` has staked on the
/// open bet `b` and the bet is paid out to `winner` at once.
pub open spec fn paid_out_on_accept(v1: Vault, v2: Vault, b: Bet, acceptor: Seq<u8>, winner: Seq<u8>) -> bool {
    forall|x: Seq<u8>|
        {
            let (av, lk) = #[trigger] settled(
                v1.balance_of(x),
                x,
                b.maker@,
                acceptor,
                winner,
                v1.config().treasury@,
                b.amount as int,
                commission_of(b.amount as int, v1.config().commission_bps as int),
            );
            &&& v2.balance_of(x).available == av - (if x == acceptor { b.amount as int } else { 0 })
            &&& v2.balance_of(x).locked == lk + (if x == acceptor { b.amount as int } else { 0 })
        }
}

/// What accepting and revealing bet `id` at once does, given the digest of
/// what was revealed.
pub open spec fn accept_and_reveal_done(
    v1: Vault,
    v2: Vault,
    r: Result<Settlement, ContractError>,
    env: BlockInfo,
    sender: Seq<u8>,
    id: u64,
    guess: Side,
    side: Side,
    secret: Seq<u8>,
    digest: Seq<u8>,
) -> bool {
    match accept_and_reveal_error(v1, env, sender, id, digest) {
        Some(e) => r == Err::<Settlement, ContractError>(e) && v2 == v1,
        None => {
            let b = v1.bet(id);
            let winner = if maker_wins(side, guess) { b.maker@ } else { sender };
            let c = commission_of(b.amount as int, v1.config().commission_bps as int);
            let p = payout_of(b.amount as int, v1.config().commission_bps as int);
            &&& r matches Ok(st) && reports(st, winner, c, p)
            &&& v2.bets() == v1.bets().update(id - 1, v2.bet(id))
            &&& is_accepted_revealed_bet(v2.bet(id), b, sender, guess, side, secret, env, winner, c, p)
            &&& paid_out_on_accept(v1, v2, b, sender, winner)
            &&& v2.settings_agree(&v1)
            &&& v2.total() == v1.total()
            &&& v2.open_count(b.maker@) == v1.open_count(b.maker@) - 1
        },
    }
}

/// Accepts an open bet with `guess` and resolves it with the maker's
/// `side` and `secret` in one step, where `digest` is the commitment those
/// reveal. Knowing the secret is what authorizes the reveal: `sender` is
/// the acceptor and need not be the maker.
pub fn accept_and_reveal_with_digest(
    vault: &mut Vault,
    env: &BlockInfo,
    sender: &Addr,
    id: u64,
    guess: Side,
    side: Side,
    secret: Vec<u8>,
    digest: &[u8],
) -> (r: Result<Settlement, ContractError>)
    requires
        old(vault).wf(),
    ensures
        final(vault).wf(),
        accept_and_reveal_done(*old(vault), *final(vault), r, *env, sender@, id, guess, side, secret@, digest@),
{
    let i = match vault.find_bet(id) {
        Ok(i) => i,
        Err(e) => return Err(e),
    };
    let status = vault.bets[i].status;
    if !status.is_open() {
        return Err(
            ContractError::InvalidStateTransition { action: BetAction::AcceptAndReveal, current_status: status },
        );
    }
    let ttl = vault.config.bet_ttl_secs;
    let created = vault.bets[i].created_at_time;
    if ttl > 0 && env.time > created && env.time - created > ttl {
        return Err(ContractError::BetExpired { id, expired_at: created + ttl });
    }
    if vault.bets[i].maker.same(sender) {
        return Err(ContractError::SelfAcceptNotAllowed);
    }
    let amount = vault.bets[i].amount;
    let have = vault.ledger.balance(sender).available;
    if have < amount {
        return Err(ContractError::InsufficientAvailableBalance { need: amount, have });
    }
    if !crate::commit::digest_matches(digest, vault.bets[i].commitment.as_slice()) {
        return Err(ContractError::CommitmentMismatch);
    }
    let ghost prev = *vault;
    let maker = vault.bets[i].maker.clone();
    let winner = if side_eq(side, guess) { sender.clone() } else { maker.clone() };
    proof {
        prev.lemma_wf_facts(maker@);
        lemma_sum_bets_nonneg_stake(prev.bets@, maker@);
    }
    if let Err(e) = vault.ledger.lock(sender, amount) {
        return Err(e);
    }
    let ghost l1 = vault.ledger;
    let (commission, payout) = settle(
        &mut vault.ledger,
        &maker,
        sender,
        &winner,
        &vault.config.treasury,
        amount,
        vault.config.commission_bps,
    );
    let mut bet = Bet::vacant();
    vault.bets.set_and_swap(i, &mut bet);
    bet.status = BetStatus::Revealed;
    bet.acceptor = Some(sender.clone());
    bet.acceptor_guess = Some(guess);
    bet.accepted_at_height = Some(env.height);
    bet.accepted_at_time = Some(env.time);
    bet.reveal_secret = Some(secret);
    bet.reveal_side = Some(side);
    bet.resolved_at_height = Some(env.height);
    bet.payout_winner = Some(winner.clone());
    bet.commission_paid = commission;
    bet.payout_amount = payout;
    vault.bets.set(i, bet);
    proof {
        let nb = vault.bets@[i as int];
        assert(vault.bets@ == prev.bets@.update(i as int, nb));
        lemma_sum_bets_update(prev.bets@, i as int, nb, made_live_fn(maker@));
        assert forall|a: Seq<u8>| #[trigger]
            vault.ledger.balance_of(a).locked == sum_bets(vault.bets@, stake_fn(a)) by {
            lemma_sum_bets_update(prev.bets@, i as int, nb, stake_fn(a));
            prev.lemma_wf_facts(a);
        }
        assert forall|x: Seq<u8>| #[trigger]
            settled(prev.ledger.balance_of(x), x, maker@, sender@, winner@, prev.config.treasury@, amount as int, commission as int)
                == ({
                let (av, lk) = settled(l1.balance_of(x), x, maker@, sender@, winner@, prev.config.treasury@, amount as int, commission as int);
                (av + (if x == sender@ { amount as int } else { 0 }), lk - (if x == sender@ { amount as int } else { 0 }))
            }) by {}
        assert(paid_out_on_accept(prev, *vault, prev.bets@[i as int], sender@, winner@));
        assert forall|j: int| 0 <= j < vault.bets@.len() implies bet_wf(#[trigger] vault.bets@[j], j) by {
            if j != i {
                assert(vault.bets@[j] == prev.bets@[j]);
            }
        }
    }
    Ok(Settlement { winner, payout, commission })
}

/// Accepts an open bet with `guess` and resolves it with the maker's
/// `side` and `secret` in one step. It succeeds only if they reproduce the
/// bet's commitment, whoever sends them.
pub fn execute_accept_and_reveal(
    vault: &mut Vault,
    env: &BlockInfo,
    sender: &Addr,
    id: u64,
    guess: Side,
    side: Side,
    secret: Vec<u8>,
) -> (r: Result<Settlement, ContractError>)
    requires
        old(vault).wf(),
    ensures
        final(vault).wf(),
        accept_and_reveal_done(
            *old(vault),
            *final(vault),
            r,
            *env,
            sender@,
            id,
            guess,
            side,
            secret@,
            reveal_digest(*old(vault), id, side, secret@),
        ),
{
    let i = match vault.find_bet(id) {
        Ok(i) => i,
        Err(e) => return Err(e),
    };
    let maker = vault.bets[i].maker.clone();
    let digest = crate::commit::compute_commitment(&maker, side, secret.as_slice());
    accept_and_reveal_with_digest(vault, env, sender, id, guess, side, secret, digest.as_slice())
}

/// Why claiming bet `id` by timeout would fail; `None` if it succeeds.
pub open spec fn claim_timeout_error(v: Vault, env: BlockInfo, sender: Seq<u8>, id: u64) -> Option<
    ContractError,
> {
    if !v.has_bet(id) {
        Some(ContractError::BetNotFound { id })
    } else if v.bet(id).status != BetStatus::Accepted {
        Some(
            ContractError::InvalidStateTransition {
                action: BetAction::ClaimTimeout,
                current_status: v.bet(id).status,
            },
        )
    } else if acceptor_of(v.bet(id)) != sender {
        Some(ContractError::Unauthorized)
    } else if env.time <= time_or_zero(v.bet(id).accepted_at_time) + v.config().reveal_timeout_secs {
        Some(
            ContractError::RevealNotYetExpired {
                deadline: deadline_of(
                    time_or_zero(v.bet(id).accepted_at_time),
                    v.config().reveal_timeout_secs,
                ),
            },
        )
    } else {
        None
    }
}

/// `nb` is the accepted bet `b` once its acceptor has claimed it by timeout.
pub open spec fn is_claimed_bet(nb: Bet, b: Bet, env: BlockInfo, commission: int, payout: int) -> bool {
    &&& names(nb.payout_winner, acceptor_of(b))
    &&& nb == Bet {
        status: BetStatus::TimeoutClaimed,
        resolved_at_height: Some(env.height),
        payout_winner: nb.payout_winner,
        commission_paid: commission as u128,
        payout_amount: payout as u128,
        ..b
    }
}

/// What claiming bet `id` by timeout does.
pub open spec fn claim_timeout_done(
    v1: Vault,
    v2: Vault,
    r: Result<Settlement, ContractError>,
    env: BlockInfo,
    sender: Seq<u8>,
    id: u64,
) -> bool {
    match claim_timeout_error(v1, env, sender, id) {
        Some(e) => r == Err::<Settlement, ContractError>(e) && v2 == v1,
        None => {
            let b = v1.bet(id);
            let c = commission_of(b.amount as int, v1.config().commission_bps as int);
            let p = payout_of(b.amount as int, v1.config().commission_bps as int);
            &&& r matches Ok(st) && reports(st, acceptor_of(b), c, p)
            &&& v2.bets() == v1.bets().update(id - 1, v2.bet(id))
            &&& is_claimed_bet(v2.bet(id), b, env, c, p)
            &&& paid_out(v1, v2, b, acceptor_of(b), acceptor_of(b))
            &&& v2.settings_agree(&v1)
            &&& v2.total() == v1.total()
            &&& v2.open_count(b.maker@) == v1.open_count(b.maker@) - 1
        },
    }
}

/// Resolves an accepted bet in its acceptor's favor once the maker has let
/// the reveal deadline pass.
pub fn execute_claim_timeout(vault: &mut Vault, env: &BlockInfo, sender: &Addr, id: u64) -> (r: Result<
    Settlement,
    ContractError,
>)
    requires
        old(vault).wf(),
    ensures
        final(vault).wf(),
        claim_timeout_done(*old(vault), *final(vault), r, *env, sender@, id),
{
    let i = match vault.find_bet(id) {
        Ok(i) => i,
        Err(e) => return Err(e),
    };
    let status = vault.bets[i].status;
    if !status.is_accepted() {
        return Err(
            ContractError::InvalidStateTransition { action: BetAction::ClaimTimeout, current_status: status },
        );
    }
    let acceptor = vault.bets[i].acceptor.as_ref().unwrap().clone();
    if !acceptor.same(sender) {
        return Err(ContractError::Unauthorized);
    }
    let accepted = vault.bets[i].accepted_at_time.unwrap();
    let timeout = vault.config.reveal_timeout_secs;
    if env.time <= accepted || env.time - accepted <= timeout {
        let deadline = if accepted <= u64::MAX - timeout { accepted + timeout } else { u64::MAX };
        return Err(ContractError::RevealNotYetExpired { deadline });
    }
    let ghost prev = *vault;
    let maker = vault.bets[i].maker.clone();
    let amount = vault.bets[i].amount;
    proof {
        prev.lemma_wf_facts(maker@);
        prev.lemma_wf_facts(acceptor@);
        lemma_sum_bets_nonneg_stake(prev.bets@, maker@);
        lemma_sum_bets_nonneg_stake(prev.bets@, acceptor@);
    }
    let (commission, payout) = settle(
        &mut vault.ledger,
        &maker,
        &acceptor,
        &acceptor,
        &vault.config.treasury,
        amount,
        vault.config.commission_bps,
    );
    let mut bet = Bet::vacant();
    vault.bets.set_and_swap(i, &mut bet);
    bet.status = BetStatus::TimeoutClaimed;
    bet.resolved_at_height = Some(env.height);
    bet.payout_winner = Some(acceptor.clone());
    bet.commission_paid = commission;
    bet.payout_amount = payout;
    vault.bets.set(i, bet);
    proof {
        let nb = vault.bets@[i as int];
        assert(vault.bets@ == prev.bets@.update(i as int, nb));
        lemma_sum_bets_update(prev.bets@, i as int, nb, made_live_fn(maker@));
        assert forall|a: Seq<u8>| #[trigger]
            vault.ledger.balance_of(a).locked == sum_bets(vault.bets@, stake_fn(a)) by {
            lemma_sum_bets_update(prev.bets@, i as int, nb, stake_fn(a));
            prev.lemma_wf_facts(a);
        }
        assert forall|j: int| 0 <= j < vault.bets@.len() implies bet_wf(#[trigger] vault.bets@[j], j) by {
            if j != i {
                assert(vault.bets@[j] == prev.bets@[j]);
            }
        }
    }
    Ok(Settlement { winner: acceptor, payout, commission })
}

/// What a message sent along with a token deposit asks for.
#[derive(Clone, Copy, Debug, PartialEq, Eq, Structural)]
pub enum ReceiveMsg {
    Deposit {},
}

/// What a deposit does: credit the depositor when it comes from the accepted
/// token and the vault's total stays within a `u128`.
pub open spec fn receive_done(
    v1: Vault,
    v2: Vault,
    r: Result<u128, ContractError>,
    token: Seq<u8>,
    depositor: Seq<u8>,
    amount: u128,
) -> bool {
    &&& token != v1.config().token_cw20@ ==> v2 == v1 && (r matches Err(
        ContractError::InvalidToken { expected },
    ) && expected@ == v1.config().token_cw20@)
    &&& token == v1.config().token_cw20@ && v1.total() + amount > u128::MAX ==> r
        == Err::<u128, ContractError>(ContractError::Overflow) && v2 == v1
    &&& token == v1.config().token_cw20@ && v1.total() + amount <= u128::MAX ==> {
        &&& r == Ok::<u128, ContractError>(v2.balance_of(depositor).available)
        &&& v2.balance_of(depositor).available == v1.balance_of(
            depositor,
        ).available + amount
        &&& v2.balance_of(depositor).locked == v1.balance_of(depositor).locked
        &&& v2.others_agree(&v1, depositor, depositor)
        &&& v2.total() == v1.total() + amount
        &&& v2.bets() == v1.bets()
        &&& v2.settings_agree(&v1)
    }
}

/// Credits a deposit of `amount` to `depositor`, as reported by the token
/// ledger `token`; returns the depositor's new available balance. Only the
/// accepted token is taken; the vault's total must stay within a `u128`.
pub fn execute_receive(
    vault: &mut Vault,
    token: &Addr,
    depositor: &Addr,
    amount: u128,
    msg: ReceiveMsg,
) -> (r: Result<u128, ContractError>)
    requires
        old(vault).wf(),
    ensures
        final(vault).wf(),
        receive_done(*old(vault), *final(vault), r, token@, depositor@, amount),
{
    if !token.same(&vault.config.token_cw20) {
        return Err(ContractError::InvalidToken { expected: vault.config.token_cw20.clone() });
    }
    let total = vault.ledger.tracked_total();
    if amount > u128::MAX - total {
        return Err(ContractError::Overflow);
    }
    let ghost prev = *vault;
    vault.ledger.credit(depositor, amount);
    proof {
        assert forall|a: Seq<u8>| #[trigger]
            vault.ledger.balance_of(a).locked == sum_bets(vault.bets@, stake_fn(a)) by {
            prev.lemma_wf_facts(a);
        }
    }
    let b = vault.ledger.balance(depositor);
    Ok(b.available)
}

/// What a withdrawal does: debit the sender's available balance and send
/// the amount back, or fail with nothing changed.
pub open spec fn withdraw_done(
    v1: Vault,
    v2: Vault,
    r: Result<Transfer, ContractError>,
    sender: Seq<u8>,
    amount: u128,
) -> bool {
    &&& v1.balance_of(sender).available < amount ==> v2 == v1 && r
        == Err::<Transfer, ContractError>(
        ContractError::InsufficientAvailableBalance {
            need: amount,
            have: v1.balance_of(sender).available,
        },
    )
    &&& v1.balance_of(sender).available >= amount ==> {
        &&& r matches Ok(t) && t.recipient@ == sender && t.amount == amount
        &&& v2.balance_of(sender).available == v1.balance_of(sender).available
            - amount
        &&& v2.balance_of(sender).locked == v1.balance_of(sender).locked
        &&& v2.others_agree(&v1, sender, sender)
        &&& v2.total() == v1.total() - amount
        &&& v2.bets() == v1.bets()
        &&& v2.settings_agree(&v1)
    }
}

/// Takes `amount` out of `sender`'s available balance and returns the
/// transfer that sends it back to them.
pub fn execute_withdraw(vault: &mut Vault, sender: &Addr, amount: u128) -> (r: Result<Transfer, ContractError>)
    requires
        old(vault).wf(),
    ensures
        final(vault).wf(),
        withdraw_done(*old(vault), *final(vault), r, sender@, amount),
{
    let ghost prev = *vault;
    if let Err(e) = vault.ledger.debit(sender, amount) {
        return Err(e);
    }
    proof {
        assert forall|a: Seq<u8>| #[trigger]
            vault.ledger.balance_of(a).locked == sum_bets(vault.bets@, stake_fn(a)) by {
            prev.lemma_wf_facts(a);
        }
    }
    Ok(Transfer { recipient: sender.clone(), amount })
}

/// The smallest and largest reveal timeout, in seconds.
pub const MIN_REVEAL_TIMEOUT_SECS: u64 = 60;
pub const MAX_REVEAL_TIMEOUT_SECS: u64 = 86400;

/// The smallest and largest time to live of an open bet, in seconds, when
/// it is not 0.
pub const MIN_BET_TTL_SECS: u64 = 300;
pub const MAX_BET_TTL_SECS: u64 = 604800;

/// What instantiating a vault takes.
#[derive(Debug)]
pub struct InstantiateMsg {
    pub token_cw20: Addr,
    pub treasury: Addr,
    pub commission_bps: u16,
    pub min_bet: u128,
    pub reveal_timeout_secs: u64,
    pub max_open_per_user: u16,
    pub max_daily_amount_per_user: u128,
    pub bet_ttl_secs: u64,
}

/// Creates a vault administered by `sender`, with the settings of `msg`.
pub fn instantiate(sender: &Addr, msg: InstantiateMsg) -> (r: Result<Vault, ContractError>)
    ensures
        msg.commission_bps > MAX_COMMISSION_BPS ==> r == Err::<Vault, ContractError>(
            ContractError::InvalidCommission { max_bps: MAX_COMMISSION_BPS },
        ),
        msg.commission_bps <= MAX_COMMISSION_BPS && !(MIN_REVEAL_TIMEOUT_SECS <= msg.reveal_timeout_secs
            <= MAX_REVEAL_TIMEOUT_SECS) ==> r == Err::<Vault, ContractError>(
            ContractError::InvalidTimeout { min: MIN_REVEAL_TIMEOUT_SECS, max: MAX_REVEAL_TIMEOUT_SECS },
        ),
        msg.commission_bps <= MAX_COMMISSION_BPS && MIN_REVEAL_TIMEOUT_SECS <= msg.reveal_timeout_secs
            <= MAX_REVEAL_TIMEOUT_SECS ==> (r matches Ok(v) && {
            &&& v.wf()
            &&& v.config().admin@ == sender@
                        &&& v.config().token_cw20 == msg.token_cw20
            &&& v.config().treasury == msg.treasury
            &&& v.config().commission_bps == msg.commission_bps
            &&& v.config().min_bet == msg.min_bet
            &&& v.config().reveal_timeout_secs == msg.reveal_timeout_secs
            &&& v.config().max_open_per_user == msg.max_open_per_user
            &&& v.config().max_daily_amount_per_user == msg.max_daily_amount_per_user
            &&& v.config().bet_ttl_secs == msg.bet_ttl_secs
            &&& v.bets().len() == 0
            &&& v.pending_admin() is None
            &&& v.total() == 0
            &&& forall|a: Seq<u8>| #[trigger] v.balance_of(a) == (VaultBalance { available: 0, locked: 0 })
        }),
{
    if msg.commission_bps > MAX_COMMISSION_BPS {
        return Err(ContractError::InvalidCommission { max_bps: MAX_COMMISSION_BPS });
    }
    if msg.reveal_timeout_secs < MIN_REVEAL_TIMEOUT_SECS || msg.reveal_timeout_secs > MAX_REVEAL_TIMEOUT_SECS {
        return Err(ContractError::InvalidTimeout { min: MIN_REVEAL_TIMEOUT_SECS, max: MAX_REVEAL_TIMEOUT_SECS });
    }
    let config = Config {
        admin: sender.clone(),
        token_cw20: msg.token_cw20,
        treasury: msg.treasury,
        commission_bps: msg.commission_bps,
        min_bet: msg.min_bet,
        reveal_timeout_secs: msg.reveal_timeout_secs,
        max_open_per_user: msg.max_open_per_user,
        max_daily_amount_per_user: msg.max_daily_amount_per_user,
        bet_ttl_secs: msg.bet_ttl_secs,
    };
    Ok(Vault::new(config))
}

/// Why a configuration update would fail, checked in this order; `None` if
/// it succeeds.
pub open spec fn update_config_error(
    v: Vault,
    sender: Seq<u8>,
    commission_bps: Option<u16>,
    reveal_timeout_secs: Option<u64>,
    bet_ttl_secs: Option<u64>,
) -> Option<ContractError> {
    if sender != v.config().admin@ {
        Some(ContractError::Unauthorized)
    } else if commission_bps matches Some(b) && b > MAX_COMMISSION_BPS {
        Some(ContractError::InvalidCommission { max_bps: MAX_COMMISSION_BPS })
    } else if reveal_timeout_secs matches Some(t) && !(MIN_REVEAL_TIMEOUT_SECS <= t <= MAX_REVEAL_TIMEOUT_SECS) {
        Some(ContractError::InvalidTimeout { min: MIN_REVEAL_TIMEOUT_SECS, max: MAX_REVEAL_TIMEOUT_SECS })
    } else if bet_ttl_secs matches Some(t) && t > 0 && !(MIN_BET_TTL_SECS <= t <= MAX_BET_TTL_SECS) {
        Some(ContractError::InvalidTimeout { min: MIN_BET_TTL_SECS, max: MAX_BET_TTL_SECS })
    } else {
        None
    }
}

/// The new value if one is given, else the current one.
pub open spec fn or_keep<T>(o: Option<T>, current: T) -> T {
    match o {
        Some(x) => x,
        None => current,
    }
}

/// What a configuration update does: the error of `update_config_error`,
/// with nothing changed, or exactly the given settings replaced.
pub open spec fn update_config_done(
    v1: Vault,
    v2: Vault,
    r: Result<(), ContractError>,
    sender: Seq<u8>,
    treasury: Option<Addr>,
    commission_bps: Option<u16>,
    min_bet: Option<u128>,
    reveal_timeout_secs: Option<u64>,
    max_open_per_user: Option<u16>,
    max_daily_amount_per_user: Option<u128>,
    bet_ttl_secs: Option<u64>,
) -> bool {
    match update_config_error(v1, sender, commission_bps, reveal_timeout_secs, bet_ttl_secs) {
        Some(e) => r == Err::<(), ContractError>(e) && v2 == v1,
        None => {
            let c = v1.config();
            &&& r is Ok
            &&& v2.config() == (Config {
                admin: c.admin,
                token_cw20: c.token_cw20,
                treasury: or_keep(treasury, c.treasury),
                commission_bps: or_keep(commission_bps, c.commission_bps),
                min_bet: or_keep(min_bet, c.min_bet),
                reveal_timeout_secs: or_keep(reveal_timeout_secs, c.reveal_timeout_secs),
                max_open_per_user: or_keep(max_open_per_user, c.max_open_per_user),
                max_daily_amount_per_user: or_keep(max_daily_amount_per_user, c.max_daily_amount_per_user),
                bet_ttl_secs: or_keep(bet_ttl_secs, c.bet_ttl_secs),
            })
            &&& v2.bets() == v1.bets()
            &&& v2.ledger_agrees(&v1)
            &&& v2.pending_admin() == v1.pending_admin()
        }
    }
}

/// Changes the settings given as `Some`, at the administrator's request.
/// An out-of-range value changes nothing.
pub fn execute_update_config(
    vault: &mut Vault,
    sender: &Addr,
    treasury: Option<Addr>,
    commission_bps: Option<u16>,
    min_bet: Option<u128>,
    reveal_timeout_secs: Option<u64>,
    max_open_per_user: Option<u16>,
    max_daily_amount_per_user: Option<u128>,
    bet_ttl_secs: Option<u64>,
) -> (r: Result<(), ContractError>)
    requires
        old(vault).wf(),
    ensures
        final(vault).wf(),
        update_config_done(*old(vault), *final(vault), r, sender@, treasury, commission_bps, min_bet, reveal_timeout_secs, max_open_per_user, max_daily_amount_per_user, bet_ttl_secs),
{
    if !sender.same(&vault.config.admin) {
        return Err(ContractError::Unauthorized);
    }
    if let Some(b) = commission_bps {
        if b > MAX_COMMISSION_BPS {
            return Err(ContractError::InvalidCommission { max_bps: MAX_COMMISSION_BPS });
        }
    }
    if let Some(t) = reveal_timeout_secs {
        if t < MIN_REVEAL_TIMEOUT_SECS || t > MAX_REVEAL_TIMEOUT_SECS {
            return Err(ContractError::InvalidTimeout { min: MIN_REVEAL_TIMEOUT_SECS, max: MAX_REVEAL_TIMEOUT_SECS });
        }
    }
    if let Some(t) = bet_ttl_secs {
        if t > 0 && (t < MIN_BET_TTL_SECS || t > MAX_BET_TTL_SECS) {
            return Err(ContractError::InvalidTimeout { min: MIN_BET_TTL_SECS, max: MAX_BET_TTL_SECS });
        }
    }
    if let Some(t) = treasury {
        vault.config.treasury = t;
    }
    if let Some(b) = commission_bps {
        vault.config.commission_bps = b;
    }
    if let Some(m) = min_bet {
        vault.config.min_bet = m;
    }
    if let Some(t) = reveal_timeout_secs {
        vault.config.reveal_timeout_secs = t;
    }
    if let Some(m) = max_open_per_user {
        vault.config.max_open_per_user = m;
    }
    if let Some(m) = max_daily_amount_per_user {
        vault.config.max_daily_amount_per_user = m;
    }
    if let Some(t) = bet_ttl_secs {
        vault.config.bet_ttl_secs = t;
    }
    Ok(())
}

/// What proposing an administrator does: only the administrator may, and it
/// replaces any earlier proposal.
pub open spec fn transfer_admin_done(
    v1: Vault,
    v2: Vault,
    r: Result<(), ContractError>,
    sender: Seq<u8>,
    new_admin: Addr,
) -> bool {
    &&& sender != v1.config().admin@ ==> r == Err::<(), ContractError>(ContractError::Unauthorized)
        && v2 == v1
    &&& sender == v1.config().admin@ ==> {
        &&& r is Ok
        &&& v2.pending_admin() == Some(new_admin)
        &&& v2.config() == v1.config()
        &&& v2.bets() == v1.bets()
        &&& v2.ledger_agrees(&v1)
    }
}

/// Proposes `new_admin` as the next administrator, at the current
/// administrator's request; a later proposal replaces an earlier one.
pub fn execute_transfer_admin(vault: &mut Vault, sender: &Addr, new_admin: Addr) -> (r: Result<(), ContractError>)
    requires
        old(vault).wf(),
    ensures
        final(vault).wf(),
        transfer_admin_done(*old(vault), *final(vault), r, sender@, new_admin),
{
    if !sender.same(&vault.config.admin) {
        return Err(ContractError::Unauthorized);
    }
    vault.pending_admin = Some(new_admin);
    Ok(())
}

/// What accepting the administrator role does: only the proposed account
/// may, and it becomes the administrator with the proposal cleared.
pub open spec fn accept_admin_done(
    v1: Vault,
    v2: Vault,
    r: Result<(), ContractError>,
    sender: Seq<u8>,
) -> bool {
    &&& !names(v1.pending_admin(), sender) ==> r == Err::<(), ContractError>(
        ContractError::Unauthorized
    ) && v2 == v1
    &&& names(v1.pending_admin(), sender) ==> {
        &&& r is Ok
        &&& Some(v2.config().admin) == v1.pending_admin()
        &&& v2.config() == (Config { admin: v2.config().admin, ..v1.config() })
        &&& v2.pending_admin() is None
        &&& v2.bets() == v1.bets()
        &&& v2.ledger_agrees(&v1)
    }
}

/// Makes the proposed administrator the administrator, at that account's
/// own request, and clears the proposal.
pub fn execute_accept_admin(vault: &mut Vault, sender: &Addr) -> (r: Result<(), ContractError>)
    requires
        old(vault).wf(),
    ensures
        final(vault).wf(),
        accept_admin_done(*old(vault), *final(vault), r, sender@),
{
    let accepted = match &vault.pending_admin {
        Some(p) => p.same(sender),
        None => false,
    };
    if !accepted {
        return Err(ContractError::Unauthorized);
    }
    let mut pending: Option<Addr> = None;
    std::mem::swap(&mut vault.pending_admin, &mut pending);
    match pending {
        Some(p) => {
            vault.config.admin = p;
        },
        None => {},
    }
    Ok(())
}

/// Computes the funds held for the vault but tracked by no account:
/// `contract_balance`, what the token ledger reports for the vault, less the
/// ledger's total. At the administrator's request, returns the transfer
/// that sends them to `recipient`, or to the administrator.
pub fn execute_admin_sweep(
    vault: &Vault,
    sender: &Addr,
    contract_balance: u128,
    recipient: Option<Addr>,
) -> (r: Result<Transfer, ContractError>)
    requires
        vault.wf(),
    ensures
        sender@ != vault.config().admin@ ==> r == Err::<Transfer, ContractError>(ContractError::Unauthorized),
        sender@ == vault.config().admin@ && contract_balance <= vault.total() ==> r == Err::<
            Transfer,
            ContractError,
        >(ContractError::NothingToSweep),
        sender@ == vault.config().admin@ && contract_balance > vault.total() ==> (r matches Ok(t) && {
            &&& t.amount == contract_balance - vault.total()
            &&& t.recipient@ == (match recipient {
                Some(a) => a@,
                None => vault.config().admin@,
            })
        }),
{
    if !sender.same(&vault.config.admin) {
        return Err(ContractError::Unauthorized);
    }
    let held = vault.ledger.tracked_total();
    if contract_balance <= held {
        return Err(ContractError::NothingToSweep);
    }
    let to = match recipient {
        Some(a) => a,
        None => vault.config.admin.clone(),
    };
    Ok(Transfer { recipient: to, amount: contract_balance - held })
}

/// What an upgrade asks for: a new accepted token, and whether to wipe all
/// balances and bets.
#[derive(Debug)]
pub struct MigrateMsg {
    pub token_cw20: Option<Addr>,
    pub reset_state: bool,
}

/// Applies an upgrade: repoints the accepted token if asked, and on a reset
/// removes every ledger row and every bet, so that ids start again at 1.
/// Returns how many ledger rows and bets were removed.
pub fn migrate(vault: &mut Vault, msg: MigrateMsg) -> (r: (usize, usize))
    requires
        old(vault).wf(),
    ensures
        final(vault).wf(),
        final(vault).config() == (Config {
            token_cw20: or_keep(msg.token_cw20, old(vault).config().token_cw20),
            ..old(vault).config()
        }),
        final(vault).pending_admin() == old(vault).pending_admin(),
        msg.reset_state ==> {
            &&& r == (old(vault).num_accounts() as usize, old(vault).bets().len() as usize)
            &&& final(vault).bets().len() == 0
            &&& final(vault).total() == 0
            &&& final(vault).num_accounts() == 0
            &&& forall|a: Seq<u8>| #[trigger] final(vault).balance_of(a) == (VaultBalance { available: 0, locked: 0 })
        },
        !msg.reset_state ==> {
            &&& r == (0usize, 0usize)
            &&& final(vault).bets() == old(vault).bets()
            &&& final(vault).ledger_agrees(old(vault))
        },
{
    if let Some(t) = msg.token_cw20 {
        vault.config.token_cw20 = t;
    }
    if !msg.reset_state {
        return (0, 0);
    }
    let accounts = vault.ledger.clear();
    let bets = vault.bets.len();
    vault.bets = Vec::new();
    proof {
        assert forall|a: Seq<u8>| #[trigger]
            vault.ledger.balance_of(a).locked == sum_bets(vault.bets@, stake_fn(a)) by {
            assert(vault.ledger.balance_of(a) == crate::ledger::zero_balance());
        }
    }
    (accounts, bets)
}

/// Everything a vault holds, as plain parts: what a store keeps between
/// operations.
#[derive(Debug)]
pub struct VaultParts {
    pub config: Config,
    pub balances: Vec<LedgerEntry>,
    pub bets: Vec<Bet>,
    pub pending_admin: Option<Addr>,
}

/// What the rows give the account `a` in all (available plus locked).
pub open spec fn row_total(rows: Seq<LedgerEntry>, a: Seq<u8>) -> int
    decreases rows.len(),
{
    if rows.len() == 0 {
        0
    } else {
        row_total(rows.drop_last(), a) + if rows.last().account@ == a {
            crate::ledger::entry_value(rows.last())
        } else {
            0
        }
    }
}

/// Stored parts that describe a vault: settings in range, bets numbered
/// from 1 and shaped as their status requires, one row per account, a total
/// that fits in a `u128`, each row's locked balance equal to the account's
/// stakes in unresolved bets, and no stakes for an account without a row.
pub open spec fn parts_consistent(p: VaultParts) -> bool {
    &&& config_wf(p.config)
    &&& p.bets@.len() < u64::MAX
    &&& forall|i: int| 0 <= i < p.bets@.len() ==> bet_wf(#[trigger] p.bets@[i], i)
    &&& forall|k: int, l: int|
        0 <= k < p.balances@.len() && 0 <= l < p.balances@.len() && k != l ==> (#[trigger] p.balances@[k]).account@
            != (#[trigger] p.balances@[l]).account@
    &&& crate::ledger::sum_entries(p.balances@) <= u128::MAX
    &&& forall|k: int|
        0 <= k < p.balances@.len() ==> (#[trigger] p.balances@[k]).balance.locked == sum_bets(
            p.bets@,
            stake_fn(p.balances@[k].account@),
        )
    &&& forall|a: Seq<u8>| #[trigger] sum_bets(p.bets@, stake_fn(a)) <= row_total(p.balances@, a)
}

proof fn lemma_row_total_step(rows: Seq<LedgerEntry>, k: int, a: Seq<u8>)
    requires
        0 <= k < rows.len(),
    ensures
        row_total(rows.subrange(0, k + 1), a) == row_total(rows.subrange(0, k), a) + if rows[k].account@ == a {
            crate::ledger::entry_value(rows[k])
        } else {
            0
        },
        crate::ledger::sum_entries(rows.subrange(0, k + 1)) == crate::ledger::sum_entries(rows.subrange(0, k))
            + crate::ledger::entry_value(rows[k]),
{
    assert(rows.subrange(0, k + 1).drop_last() =~= rows.subrange(0, k));
}

proof fn lemma_row_total_of_row(rows: Seq<LedgerEntry>, k: int)
    requires
        0 <= k < rows.len(),
        forall|i: int, j: int|
            0 <= i < rows.len() && 0 <= j < rows.len() && i != j ==> (#[trigger] rows[i]).account@
                != (#[trigger] rows[j]).account@,
    ensures
        row_total(rows, rows[k].account@) == crate::ledger::entry_value(rows[k]),
    decreases rows.len(),
{
    let a = rows[k].account@;
    if k == rows.len() - 1 {
        lemma_row_total_absent(rows.drop_last(), a);
        assert forall|i: int| 0 <= i < rows.drop_last().len() implies rows.drop_last()[i].account@ != a by {
            assert(rows.drop_last()[i] == rows[i]);
        }
    } else {
        assert(rows.drop_last()[k] == rows[k]);
        assert forall|i: int, j: int|
            0 <= i < rows.drop_last().len() && 0 <= j < rows.drop_last().len() && i != j implies (
            #[trigger] rows.drop_last()[i]).account@ != (#[trigger] rows.drop_last()[j]).account@ by {
            assert(rows.drop_last()[i] == rows[i]);
            assert(rows.drop_last()[j] == rows[j]);
        }
        lemma_row_total_of_row(rows.drop_last(), k);
        assert(rows.last() == rows[rows.len() - 1]);
    }
}

proof fn lemma_row_total_absent(rows: Seq<LedgerEntry>, a: Seq<u8>)
    requires
        forall|i: int| 0 <= i < rows.len() ==> (#[trigger] rows[i]).account@ != a,
    ensures
        row_total(rows, a) == 0,
    decreases rows.len(),
{
    if rows.len() > 0 {
        assert forall|i: int| 0 <= i < rows.drop_last().len() implies (#[trigger] rows.drop_last()[i]).account@
            != a by {
            assert(rows.drop_last()[i] == rows[i]);
        }
        lemma_row_total_absent(rows.drop_last(), a);
        assert(rows.last() == rows[rows.len() - 1]);
    }
}

proof fn lemma_sum_entries_prefix_le(rows: Seq<LedgerEntry>, k: int)
    requires
        0 <= k <= rows.len(),
    ensures
        crate::ledger::sum_entries(rows.subrange(0, k)) <= crate::ledger::sum_entries(rows),
    decreases rows.len(),
{
    if k < rows.len() {
        assert(rows.drop_last().subrange(0, k) =~= rows.subrange(0, k));
        lemma_sum_entries_prefix_le(rows.drop_last(), k);
    } else {
        assert(rows.subrange(0, k) =~= rows);
    }
}

proof fn lemma_sum_bets_prefix_le(s: Seq<Bet>, j: int, a: Seq<u8>)
    requires
        0 <= j <= s.len(),
    ensures
        sum_bets(s.subrange(0, j), stake_fn(a)) <= sum_bets(s, stake_fn(a)),
    decreases s.len(),
{
    if j < s.len() {
        assert(s.drop_last().subrange(0, j) =~= s.subrange(0, j));
        lemma_sum_bets_prefix_le(s.drop_last(), j, a);
    } else {
        assert(s.subrange(0, j) =~= s);
    }
}

impl Vault {
    /// The vault taken apart: its settings, one row per account, every bet
    /// and the proposed administrator. The parts are consistent, so
    /// `from_parts` rebuilds the vault from them.
    pub fn into_parts(self) -> (r: VaultParts)
        requires
            self.wf(),
        ensures
            r.config == self.config(),
            r.pending_admin == self.pending_admin(),
            r.bets@ == self.bets(),
            r.balances@.len() == self.num_accounts(),
            forall|k: int|
                0 <= k < r.balances@.len() ==> self.balance_of((#[trigger] r.balances@[k]).account@)
                    == r.balances@[k].balance,
            parts_consistent(r),
    {
        let ghost v = self;
        let Vault { config, ledger, bets, pending_admin } = self;
        let balances = ledger.into_entries();
        let r = VaultParts { config, balances, bets, pending_admin };
        proof {
            let rows = r.balances@;
            assert forall|a: Seq<u8>| #[trigger] sum_bets(r.bets@, stake_fn(a)) <= row_total(rows, a) by {
                v.lemma_wf_facts(a);
                if exists|k: int| 0 <= k < rows.len() && rows[k].account@ == a {
                    let k = choose|k: int| 0 <= k < rows.len() && rows[k].account@ == a;
                    lemma_row_total_of_row(rows, k);
                } else {
                    lemma_row_total_absent(rows, a);
                }
            }
            assert forall|k: int| 0 <= k < rows.len() implies (#[trigger] rows[k]).balance.locked == sum_bets(
                r.bets@,
                stake_fn(rows[k].account@),
            ) by {
                v.lemma_wf_facts(rows[k].account@);
            }
            v.lemma_wf_facts(Seq::empty());
        }
        r
    }

    /// Rebuilds a vault from stored parts. It succeeds on all consistent
    /// parts (see `parts_consistent`), such as `into_parts` returns, and the
    /// vault it rebuilds holds what they describe. Parts it cannot rebuild
    /// are refused as `CorruptState`.
    pub fn from_parts(parts: VaultParts) -> (r: Result<Vault, ContractError>)
        ensures
            parts_consistent(parts) ==> r is Ok,
            r is Err ==> r == Err::<Vault, ContractError>(ContractError::CorruptState),
            r matches Ok(v) ==> {
                &&& v.wf()
                &&& v.config() == parts.config
                &&& v.pending_admin() == parts.pending_admin
                &&& v.bets() == parts.bets@
                &&& forall|k: int|
                    0 <= k < parts.balances@.len() ==> v.balance_of((#[trigger] parts.balances@[k]).account@)
                        == parts.balances@[k].balance
            },
    {
        let ghost whole = parts;
        let VaultParts { config, balances, bets, pending_admin } = parts;
        if config.commission_bps > MAX_COMMISSION_BPS || config.reveal_timeout_secs < MIN_REVEAL_TIMEOUT_SECS
            || config.reveal_timeout_secs > MAX_REVEAL_TIMEOUT_SECS {
            return Err(ContractError::CorruptState);
        }
        let ghost rows = balances@;
        let mut vault = Vault::new(config);
        let ghost cfg = vault.config;
        proof {
            assert forall|a: Seq<u8>| #[trigger]
                vault.ledger.balance_of(a).available == row_total(rows.subrange(0, 0), a) by {
                assert(vault.balance_of(a) == (VaultBalance { available: 0, locked: 0 }));
            }
        }
        let mut k: usize = 0;
        while k < balances.len()
            invariant
                vault.wf(),
                vault.bets@.len() == 0,
                vault.config == cfg,
                vault.pending_admin is None,
                whole == parts,
                rows == balances@,
                rows == whole.balances@,
                0 <= k <= rows.len(),
                vault.ledger.total() == crate::ledger::sum_entries(rows.subrange(0, k as int)),
                forall|a: Seq<u8>| #[trigger]
                    vault.ledger.balance_of(a).available == row_total(rows.subrange(0, k as int), a),
                parts_consistent(whole) ==> crate::ledger::sum_entries(rows) <= u128::MAX,
            decreases rows.len() - k,
        {
            let row = &balances[k];
            proof {
                lemma_row_total_step(rows, k as int, Seq::empty());
                lemma_sum_entries_prefix_le(rows, k + 1);
            }
            let held = vault.ledger.tracked_total();
            if row.balance.available > u128::MAX - held || row.balance.locked > u128::MAX - held
                - row.balance.available {
                return Err(ContractError::CorruptState);
            }
            let ghost prev = vault;
            vault.ledger.credit(&row.account, row.balance.available + row.balance.locked);
            proof {
                assert forall|a: Seq<u8>| #[trigger]
                    vault.ledger.balance_of(a).locked == sum_bets(vault.bets@, stake_fn(a)) by {
                    prev.lemma_wf_facts(a);
                }
                assert forall|a: Seq<u8>| #[trigger]
                    vault.ledger.balance_of(a).available == row_total(rows.subrange(0, k + 1), a) by {
                    lemma_row_total_step(rows, k as int, a);
                }
            }
            k = k + 1;
        }
        assert(rows.subrange(0, rows.len() as int) =~= rows);
        let ghost all = bets@;
        let mut source = bets;
        let mut i: usize = 0;
        while i < source.len()
            invariant
                vault.wf(),
                vault.config == cfg,
                vault.pending_admin is None,
                whole == parts,
                all == whole.bets@,
                rows == whole.balances@,
                source@.len() == all.len(),
                0 <= i <= all.len(),
                vault.bets@ == all.subrange(0, i as int),
                forall|j: int| i <= j < all.len() ==> #[trigger] source@[j] == all[j],
                forall|a: Seq<u8>| #[trigger]
                    vault.ledger.balance_of(a).available + sum_bets(vault.bets@, stake_fn(a)) == row_total(rows, a),
            decreases all.len() - i,
        {
            let mut b = Bet::vacant();
            source.set_and_swap(i, &mut b);
            assert(b == all[i as int]);
            if vault.bets.len() as u64 >= u64::MAX - 1 || b.id != vault.bets.len() as u64 + 1 {
                return Err(ContractError::CorruptState);
            }
            let shaped = match b.status {
                BetStatus::Open => b.acceptor.is_none(),
                BetStatus::Accepted => match (&b.acceptor, &b.acceptor_guess, &b.accepted_at_time) {
                    (Some(x), Some(_), Some(_)) => !x.same(&b.maker),
                    _ => false,
                },
                _ => true,
            };
            if !shaped {
                return Err(ContractError::CorruptState);
            }
            let ghost prev = vault;
            let ghost nb = b;
            proof {
                assert(all.subrange(0, i + 1) =~= all.subrange(0, i as int).push(all[i as int]));
                if parts_consistent(whole) {
                    let m = b.maker@;
                    lemma_sum_bets_push(prev.bets@, nb, stake_fn(m));
                    lemma_sum_bets_prefix_le(all, i + 1, m);
                    lemma_sum_bets_nonneg_stake(prev.bets@, m);
                    assert(sum_bets(all, stake_fn(m)) <= row_total(rows, m));
                    let x = acceptor_of(nb);
                    lemma_sum_bets_push(prev.bets@, nb, stake_fn(x));
                    lemma_sum_bets_prefix_le(all, i + 1, x);
                    lemma_sum_bets_nonneg_stake(prev.bets@, x);
                    assert(sum_bets(all, stake_fn(x)) <= row_total(rows, x));
                }
            }
            if b.status.is_live() {
                if vault.ledger.lock(&b.maker, b.amount).is_err() {
                    return Err(ContractError::CorruptState);
                }
            }
            if let BetStatus::Accepted = b.status {
                match &b.acceptor {
                    Some(x) => {
                        if vault.ledger.lock(x, b.amount).is_err() {
                            return Err(ContractError::CorruptState);
                        }
                    },
                    None => {},
                }
            }
            vault.bets.push(b);
            proof {
                assert(vault.bets@ == prev.bets@.push(nb));
                assert forall|a: Seq<u8>| #[trigger]
                    vault.ledger.balance_of(a).locked == sum_bets(vault.bets@, stake_fn(a)) by {
                    lemma_sum_bets_push(prev.bets@, nb, stake_fn(a));
                    prev.lemma_wf_facts(a);
                }
                assert forall|a: Seq<u8>| #[trigger]
                    vault.ledger.balance_of(a).available + sum_bets(vault.bets@, stake_fn(a)) == row_total(
                        rows,
                        a,
                    ) by {
                    lemma_sum_bets_push(prev.bets@, nb, stake_fn(a));
                }
                assert forall|j: int| 0 <= j < vault.bets@.len() implies bet_wf(#[trigger] vault.bets@[j], j) by {
                    if j < prev.bets@.len() {
                        assert(vault.bets@[j] == prev.bets@[j]);
                    }
                }
            }
            i = i + 1;
        }
        assert(all.subrange(0, all.len() as int) =~= all);
        let mut k: usize = 0;
        while k < balances.len()
            invariant
                vault.wf(),
                whole == parts,
                rows == balances@,
                rows == whole.balances@,
                vault.bets@ == whole.bets@,
                0 <= k <= rows.len(),
                forall|a: Seq<u8>| #[trigger]
                    vault.ledger.balance_of(a).available + sum_bets(vault.bets@, stake_fn(a)) == row_total(rows, a),
                forall|l: int|
                    0 <= l < k ==> vault.balance_of((#[trigger] rows[l]).account@) == rows[l].balance,
            decreases rows.len() - k,
        {
            proof {
                vault.lemma_wf_facts(rows[k as int].account@);
                if parts_consistent(whole) {
                    lemma_row_total_of_row(rows, k as int);
                }
            }
            let now = vault.ledger.balance(&balances[k].account);
            if now.available != balances[k].balance.available || now.locked != balances[k].balance.locked {
                return Err(ContractError::CorruptState);
            }
            k = k + 1;
        }
        vault.pending_admin = pending_admin;
        Ok(vault)
    }
}

/// Whether two sides are the same.
pub fn side_eq(a: Side, b: Side) -> (r: bool)
    ensures
        r == (a == b),
{
    match (a, b) {
        (Side::Heads, Side::Heads) | (Side::Tails, Side::Tails) => true,
        _ => false,
    }
}

/// Stakes are never negative, so no single bet's stake exceeds their sum.
pub proof fn lemma_sum_bets_nonneg_stake(s: Seq<Bet>, a: Seq<u8>)
    ensures
        forall|i: int| 0 <= i < s.len() ==> stake_in(#[trigger] s[i], a) <= sum_bets(s, stake_fn(a)),
        0 <= sum_bets(s, stake_fn(a)),
    decreases s.len(),
{
    if s.len() > 0 {
        lemma_sum_bets_nonneg_stake(s.drop_last(), a);
        assert forall|i: int| 0 <= i < s.len() implies stake_in(#[trigger] s[i], a) <= sum_bets(s, stake_fn(a)) by {
            if i < s.len() - 1 {
                assert(s[i] == s.drop_last()[i]);
            }
        }
    }
}

impl Bet {
    /// A blank record, used only to take a bet out of the registry while it
    /// is being updated.
    fn vacant() -> (r: Bet) {
        Bet {
            id: 0,
            maker: Addr::from_bytes(Vec::new()),
            amount: 0,
            commitment: Vec::new(),
            status: BetStatus::Canceled,
            created_at_height: 0,
            created_at_time: 0,
            acceptor: None,
            acceptor_guess: None,
            accepted_at_height: None,
            accepted_at_time: None,
            reveal_secret: None,
            reveal_side: None,
            resolved_at_height: None,
            payout_winner: None,
            commission_paid: 0,
            payout_amount: 0,
        }
    }
}

impl BetStatus {
    pub fn is_open(&self) -> (r: bool)
        ensures
            r == (*self == BetStatus::Open),
    {
        match self {
            BetStatus::Open => true,
            _ => false,
        }
    }

    pub fn is_accepted(&self) -> (r: bool)
        ensures
            r == (*self == BetStatus::Accepted),
    {
        match self {
            BetStatus::Accepted => true,
            _ => false,
        }
    }

    pub fn is_live(&self) -> (r: bool)
        ensures
            r == is_live(*self),
    {
        match self {
            BetStatus::Open | BetStatus::Accepted => true,
            _ => false,
        }
    }
}

} // verus!
