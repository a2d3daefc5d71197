use vstd::prelude::*;

use crate::addr::Addr;
use crate::error::ContractError;
use crate::types::VaultBalance;

verus! {

/// One account's row in the ledger.
#[derive(Debug)]
pub struct LedgerEntry {
    pub account: Addr,
    pub balance: VaultBalance,
}

/// What a row holds in all: available plus locked.
pub open spec fn entry_value(e: LedgerEntry) -> int {
    e.balance.available + e.balance.locked
}

/// The sum of available plus locked over a sequence of rows.
pub open spec fn sum_entries(s: Seq<LedgerEntry>) -> int
    decreases s.len(),
{
    if s.len() == 0 {
        0
    } else {
        sum_entries(s.drop_last()) + entry_value(s.last())
    }
}

/// The balance of an account that holds nothing.
pub open spec fn zero_balance() -> VaultBalance {
    VaultBalance { available: 0, locked: 0 }
}

proof fn lemma_sum_update(s: Seq<LedgerEntry>, i: int, e: LedgerEntry)
    requires
        0 <= i < s.len(),
    ensures
        sum_entries(s.update(i, e)) == sum_entries(s) - entry_value(s[i]) + entry_value(e),
    decreases s.len(),
{
    let t = s.update(i, e);
    if i == s.len() - 1 {
        assert(t.drop_last() =~= s.drop_last());
    } else {
        assert(t.drop_last() =~= s.drop_last().update(i, e));
        lemma_sum_update(s.drop_last(), i, e);
    }
}

proof fn lemma_sum_push(s: Seq<LedgerEntry>, e: LedgerEntry)
    ensures
        sum_entries(s.push(e)) == sum_entries(s) + entry_value(e),
{
    assert(s.push(e).drop_last() =~= s);
}

proof fn lemma_value_le_sum(s: Seq<LedgerEntry>, i: int)
    requires
        0 <= i < s.len(),
    ensures
        0 <= entry_value(s[i]) <= sum_entries(s),
    decreases s.len(),
{
    lemma_sum_nonneg(s.drop_last());
    if i < s.len() - 1 {
        lemma_value_le_sum(s.drop_last(), i);
    }
}

proof fn lemma_sum_nonneg(s: Seq<LedgerEntry>)
    ensures
        0 <= sum_entries(s),
    decreases s.len(),
{
    if s.len() > 0 {
        lemma_sum_nonneg(s.drop_last());
    }
}

/// Per-account available and locked balances. Each account has at most one
/// row; an account without a row holds nothing. The ledger also keeps the
/// running total of all funds it tracks.
#[derive(Debug)]
pub struct Ledger {
    entries: Vec<LedgerEntry>,
    total: u128,
}

impl Ledger {
    /// One row per account, and a running total equal to the sum of the rows.
    pub closed spec fn wf(&self) -> bool {
        &&& forall|i: int, j: int|
            0 <= i < self.entries@.len() && 0 <= j < self.entries@.len() && i != j
                ==> #[trigger] self.entries@[i].account@ != #[trigger] self.entries@[j].account@
        &&& self.total as int == sum_entries(self.entries@)
    }

    /// The balance of the account `a` (zero where it has no row).
    pub closed spec fn balance_of(&self, a: Seq<u8>) -> VaultBalance {
        if exists|i: int| 0 <= i < self.entries@.len() && self.entries@[i].account@ == a {
            let i = choose|i: int| 0 <= i < self.entries@.len() && self.entries@[i].account@ == a;
            self.entries@[i].balance
        } else {
            zero_balance()
        }
    }

    /// The sum of available plus locked over all accounts.
    pub closed spec fn total(&self) -> int {
        sum_entries(self.entries@)
    }

    /// The number of rows.
    pub closed spec fn num_entries(&self) -> nat {
        self.entries@.len()
    }

    proof fn lemma_balance_at(&self, i: int)
        requires
            self.wf(),
            0 <= i < self.entries@.len(),
        ensures
            self.balance_of(self.entries@[i].account@) == self.entries@[i].balance,
    {
        let a = self.entries@[i].account@;
        assert(0 <= i < self.entries@.len() && self.entries@[i].account@ == a);
        let j = choose|j: int| 0 <= j < self.entries@.len() && self.entries@[j].account@ == a;
        assert(self.entries@[j].account@ == a);
        assert(i == j);
    }

    /// A single account holds no more than the total, which fits in a `u128`.
    pub proof fn lemma_balance_bounded(&self, a: Seq<u8>)
        requires
            self.wf(),
        ensures
            self.balance_of(a).available + self.balance_of(a).locked <= self.total() <= u128::MAX,
    {
        if exists|i: int| 0 <= i < self.entries@.len() && self.entries@[i].account@ == a {
            let i = choose|i: int| 0 <= i < self.entries@.len() && self.entries@[i].account@ == a;
            lemma_value_le_sum(self.entries@, i);
        } else {
            lemma_sum_nonneg(self.entries@);
        }
    }

    pub fn new() -> (r: Ledger)
        ensures
            r.wf(),
            r.total() == 0,
            r.num_entries() == 0,
            forall|a: Seq<u8>| #[trigger] r.balance_of(a) == zero_balance(),
    {
        Ledger { entries: Vec::new(), total: 0 }
    }

    fn find(&self, a: &Addr) -> (r: Option<usize>)
        ensures
            match r {
                Some(i) => i < self.entries@.len() && self.entries@[i as int].account@ == a@,
                None => forall|i: int|
                    0 <= i < self.entries@.len() ==> #[trigger] self.entries@[i].account@ != a@,
            },
    {
        let mut i: usize = 0;
        while i < self.entries.len()
            invariant
                0 <= i <= self.entries@.len(),
                forall|j: int| 0 <= j < i ==> #[trigger] self.entries@[j].account@ != a@,
            decreases self.entries@.len() - i,
        {
            if self.entries[i].account.same(a) {
                return Some(i);
            }
            i = i + 1;
        }
        None
    }

    /// The balance of `a`.
    pub fn balance(&self, a: &Addr) -> (r: VaultBalance)
        requires
            self.wf(),
        ensures
            r == self.balance_of(a@),
    {
        match self.find(a) {
            Some(i) => {
                proof {
                    self.lemma_balance_at(i as int);
                }
                self.entries[i].balance
            },
            None => VaultBalance { available: 0, locked: 0 },
        }
    }

    /// The total of available plus locked over all accounts.
    pub fn tracked_total(&self) -> (r: u128)
        requires
            self.wf(),
        ensures
            r == self.total(),
    {
        self.total
    }

    /// The row of `a`, made with a zero balance if there was none.
    fn row_of(&mut self, a: &Addr) -> (i: usize)
        requires
            old(self).wf(),
        ensures
            final(self).wf(),
            i < final(self).entries@.len(),
            final(self).entries@[i as int].account@ == a@,
            final(self).entries@[i as int].balance == old(self).balance_of(a@),
            final(self).total() == old(self).total(),
            forall|x: Seq<u8>| #[trigger] final(self).balance_of(x) == old(self).balance_of(x),
            final(self).num_entries() >= old(self).num_entries(),
    {
        match self.find(a) {
            Some(i) => {
                proof {
                    self.lemma_balance_at(i as int);
                }
                i
            },
            None => {
                let ghost prev = *self;
                let e = LedgerEntry { account: a.clone(), balance: VaultBalance { available: 0, locked: 0 } };
                proof {
                    lemma_sum_push(self.entries@, e);
                }
                self.entries.push(e);
                let i = self.entries.len() - 1;
                assert(self.entries@[i as int] == e);
                assert forall|x: Seq<u8>| #[trigger] self.balance_of(x) == prev.balance_of(x) by {
                    if exists|j: int| 0 <= j < prev.entries@.len() && prev.entries@[j].account@ == x {
                        let j = choose|j: int| 0 <= j < prev.entries@.len() && prev.entries@[j].account@ == x;
                        prev.lemma_balance_at(j);
                        assert(self.entries@[j] == prev.entries@[j]);
                        self.lemma_balance_at(j);
                    } else if x == a@ {
                        self.lemma_balance_at(i as int);
                    } else {
                        assert forall|j: int| 0 <= j < self.entries@.len() implies self.entries@[j].account@ != x by {
                            if j < prev.entries@.len() {
                                assert(self.entries@[j] == prev.entries@[j]);
                            }
                        }
                    }
                }
                i
            },
        }
    }

    /// Replaces the balance on row `i`.
    fn set_row(&mut self, i: usize, b: VaultBalance)
        requires
            old(self).wf(),
            i < old(self).entries@.len(),
            old(self).total() - entry_value(old(self).entries@[i as int]) + b.available + b.locked
                <= u128::MAX,
        ensures
            final(self).wf(),
            final(self).total() == old(self).total() - entry_value(old(self).entries@[i as int])
                + b.available + b.locked,
            final(self).num_entries() == old(self).num_entries(),
            final(self).balance_of(old(self).entries@[i as int].account@) == b,
            forall|x: Seq<u8>|
                x != old(self).entries@[i as int].account@ ==> #[trigger] final(self).balance_of(x)
                    == old(self).balance_of(x),
    {
        let ghost prev = *self;
        let ghost a = self.entries@[i as int].account@;
        let old_b = self.entries[i].balance;
        proof {
            lemma_value_le_sum(self.entries@, i as int);
        }
        let rest: u128 = self.total - old_b.available - old_b.locked;
        let new_total: u128 = rest + b.available + b.locked;
        let account = self.entries[i].account.clone();
        let e = LedgerEntry { account, balance: b };
        proof {
            lemma_sum_update(self.entries@, i as int, e);
        }
        self.entries.set(i, e);
        self.total = new_total;
        assert(self.entries@ == prev.entries@.update(i as int, e));
        assert(self.wf()) by {
            assert forall|p: int, q: int|
                0 <= p < self.entries@.len() && 0 <= q < self.entries@.len() && p != q
                    implies #[trigger] self.entries@[p].account@ != #[trigger] self.entries@[q].account@ by {
                assert(self.entries@[p].account@ == prev.entries@[p].account@);
                assert(self.entries@[q].account@ == prev.entries@[q].account@);
            }
        }
        proof {
            self.lemma_balance_at(i as int);
        }
        assert forall|x: Seq<u8>| x != a implies #[trigger] self.balance_of(x) == prev.balance_of(x) by {
            if exists|j: int| 0 <= j < prev.entries@.len() && prev.entries@[j].account@ == x {
                let j = choose|j: int| 0 <= j < prev.entries@.len() && prev.entries@[j].account@ == x;
                prev.lemma_balance_at(j);
                assert(self.entries@[j] == prev.entries@[j]);
                self.lemma_balance_at(j);
            } else {
                assert forall|j: int| 0 <= j < self.entries@.len() implies self.entries@[j].account@ != x by {
                    assert(self.entries@[j].account@ == prev.entries@[j].account@);
                }
            }
        }
    }

    /// Adds `amount` to the available balance of `a`.
    pub fn credit(&mut self, a: &Addr, amount: u128)
        requires
            old(self).wf(),
            old(self).total() + amount <= u128::MAX,
        ensures
            final(self).wf(),
            final(self).total() == old(self).total() + amount,
            final(self).balance_of(a@).available == old(self).balance_of(a@).available + amount,
            final(self).balance_of(a@).locked == old(self).balance_of(a@).locked,
            forall|x: Seq<u8>| x != a@ ==> #[trigger] final(self).balance_of(x) == old(self).balance_of(x),
    {
        let i = self.row_of(a);
        proof {
            lemma_value_le_sum(self.entries@, i as int);
        }
        let b = self.entries[i].balance;
        self.set_row(i, VaultBalance { available: b.available + amount, locked: b.locked });
    }

    /// Takes `amount` out of the available balance of `a`, which must hold it.
    pub fn debit(&mut self, a: &Addr, amount: u128) -> (r: Result<(), ContractError>)
        requires
            old(self).wf(),
        ensures
            final(self).wf(),
            old(self).balance_of(a@).available < amount ==> r == Err::<(), ContractError>(
                ContractError::InsufficientAvailableBalance {
                    need: amount,
                    have: old(self).balance_of(a@).available,
                },
            ) && *final(self) == *old(self),
            old(self).balance_of(a@).available >= amount ==> r is Ok && final(self).total()
                == old(self).total() - amount && final(self).balance_of(a@).available == old(
                self,
            ).balance_of(a@).available - amount && final(self).balance_of(a@).locked == old(
                self,
            ).balance_of(a@).locked && forall|x: Seq<u8>|
                x != a@ ==> #[trigger] final(self).balance_of(x) == old(self).balance_of(x),
    {
        let b = self.balance(a);
        if b.available < amount {
            return Err(ContractError::InsufficientAvailableBalance { need: amount, have: b.available });
        }
        let i = self.row_of(a);
        self.set_row(i, VaultBalance { available: b.available - amount, locked: b.locked });
        Ok(())
    }

    /// Moves `amount` of `a` from available to locked.
    pub fn lock(&mut self, a: &Addr, amount: u128) -> (r: Result<(), ContractError>)
        requires
            old(self).wf(),
        ensures
            final(self).wf(),
            old(self).balance_of(a@).available < amount ==> r == Err::<(), ContractError>(
                ContractError::InsufficientAvailableBalance {
                    need: amount,
                    have: old(self).balance_of(a@).available,
                },
            ) && *final(self) == *old(self),
            old(self).balance_of(a@).available >= amount ==> r is Ok && final(self).total()
                == old(self).total() && final(self).balance_of(a@).available == old(self).balance_of(
                a@,
            ).available - amount && final(self).balance_of(a@).locked == old(self).balance_of(a@).locked
                + amount && forall|x: Seq<u8>|
                x != a@ ==> #[trigger] final(self).balance_of(x) == old(self).balance_of(x),
    {
        let b = self.balance(a);
        if b.available < amount {
            return Err(ContractError::InsufficientAvailableBalance { need: amount, have: b.available });
        }
        let i = self.row_of(a);
        proof {
            lemma_value_le_sum(self.entries@, i as int);
        }
        self.set_row(i, VaultBalance { available: b.available - amount, locked: b.locked + amount });
        Ok(())
    }

    /// Moves `amount` of `a` from locked back to available.
    pub fn unlock(&mut self, a: &Addr, amount: u128)
        requires
            old(self).wf(),
            old(self).balance_of(a@).locked >= amount,
        ensures
            final(self).wf(),
            final(self).total() == old(self).total(),
            final(self).balance_of(a@).available == old(self).balance_of(a@).available + amount,
            final(self).balance_of(a@).locked == old(self).balance_of(a@).locked - amount,
            forall|x: Seq<u8>| x != a@ ==> #[trigger] final(self).balance_of(x) == old(self).balance_of(x),
    {
        let i = self.row_of(a);
        proof {
            lemma_value_le_sum(self.entries@, i as int);
        }
        let b = self.entries[i].balance;
        self.set_row(i, VaultBalance { available: b.available + amount, locked: b.locked - amount });
    }

    /// Removes `amount` from the locked balance of `a`: a stake that is lost
    /// or about to be paid out again.
    pub fn release(&mut self, a: &Addr, amount: u128)
        requires
            old(self).wf(),
            old(self).balance_of(a@).locked >= amount,
        ensures
            final(self).wf(),
            final(self).total() == old(self).total() - amount,
            final(self).balance_of(a@).available == old(self).balance_of(a@).available,
            final(self).balance_of(a@).locked == old(self).balance_of(a@).locked - amount,
            forall|x: Seq<u8>| x != a@ ==> #[trigger] final(self).balance_of(x) == old(self).balance_of(x),
    {
        let i = self.row_of(a);
        proof {
            lemma_value_le_sum(self.entries@, i as int);
        }
        let b = self.entries[i].balance;
        self.set_row(i, VaultBalance { available: b.available, locked: b.locked - amount });
    }

    /// The rows, each with its account's balance.
    pub fn into_entries(self) -> (r: Vec<LedgerEntry>)
        requires
            self.wf(),
        ensures
            r@.len() == self.num_entries(),
            forall|k: int| 0 <= k < r@.len() ==> self.balance_of((#[trigger] r@[k]).account@) == r@[k].balance,
            forall|k: int, l: int|
                0 <= k < r@.len() && 0 <= l < r@.len() && k != l ==> (#[trigger] r@[k]).account@
                    != (#[trigger] r@[l]).account@,
            sum_entries(r@) == self.total(),
            forall|a: Seq<u8>|
                (forall|k: int| 0 <= k < r@.len() ==> (#[trigger] r@[k]).account@ != a) ==> #[trigger]
                    self.balance_of(a) == zero_balance(),
    {
        proof {
            assert forall|k: int| 0 <= k < self.entries@.len() implies self.balance_of(
                (#[trigger] self.entries@[k]).account@,
            ) == self.entries@[k].balance by {
                self.lemma_balance_at(k);
            }
        }
        self.entries
    }

    /// Removes every row; returns how many there were.
    pub fn clear(&mut self) -> (r: usize)
        ensures
            final(self).wf(),
            r == old(self).num_entries(),
            final(self).total() == 0,
            final(self).num_entries() == 0,
            forall|a: Seq<u8>| #[trigger] final(self).balance_of(a) == zero_balance(),
    {
        let n = self.entries.len();
        *self = Ledger::new();
        n
    }
}

} // verus!
