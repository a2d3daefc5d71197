use vstd::prelude::*;

use crate::error::ContractError;

verus! {

/// Basis points in a whole.
pub const BPS_DENOMINATOR: u128 = 10000;

/// The commission on a resolved bet of `stake` per side: the pot times the
/// rate, divided by 10 000 and rounded down.
pub open spec fn commission_of(stake: int, bps: int) -> int {
    (2 * stake * bps) / 10000
}

/// What the winner of a resolved bet of `stake` per side receives.
pub open spec fn payout_of(stake: int, bps: int) -> int {
    2 * stake - commission_of(stake, bps)
}

proof fn lemma_commission_split(pot: int, bps: int)
    requires
        0 <= pot,
        0 <= bps <= 10000,
    ensures
        (pot * bps) / 10000 == (pot / 10000) * bps + ((pot % 10000) * bps) / 10000,
        (pot * bps) / 10000 <= pot,
        ((pot % 10000) * bps) / 10000 <= pot % 10000,
{
    let q = pot / 10000;
    let r = pot % 10000;
    assert(pot == q * 10000 + r) by (nonlinear_arith)
        requires q == pot / 10000, r == pot % 10000;
    assert(pot * bps == (q * bps) * 10000 + r * bps) by (nonlinear_arith)
        requires pot == q * 10000 + r;
    assert(0 <= r * bps) by (nonlinear_arith)
        requires 0 <= r, 0 <= bps;
    vstd::arithmetic::div_mod::lemma_hoist_over_denominator(r * bps, q * bps, 10000);
    assert(r * bps + (q * bps) * 10000 == pot * bps);
    assert(0 <= pot * bps <= pot * 10000) by (nonlinear_arith)
        requires 0 <= pot, 0 <= bps <= 10000;
    assert((pot * bps) / 10000 <= pot) by (nonlinear_arith)
        requires 0 <= pot, 0 <= bps <= 10000, 0 <= pot * bps <= pot * 10000;
    assert(r * bps <= r * 10000) by (nonlinear_arith)
        requires 0 <= r, 0 <= bps <= 10000;
    assert((r * bps) / 10000 <= r) by (nonlinear_arith)
        requires 0 <= r * bps <= r * 10000, 0 <= r;
}

/// The commission never exceeds the pot when the rate is at most 100%.
pub proof fn lemma_commission_bounded(stake: int, bps: int)
    requires
        0 <= stake,
        0 <= bps <= 10000,
    ensures
        0 <= commission_of(stake, bps) <= 2 * stake,
{
    lemma_commission_split(2 * stake, bps);
    assert(0 <= 2 * stake * bps) by (nonlinear_arith)
        requires 0 <= stake, 0 <= bps;
    assert(2 * stake * bps == (2 * stake) * bps);
}

/// The commission and the payout of a resolved bet of `stake` per side at
/// `commission_bps`. The pot, twice the stake, must fit in a `u128`.
pub fn compute_payout(stake: u128, commission_bps: u16) -> (r: Result<(u128, u128), ContractError>)
    requires
        commission_bps <= 10000,
    ensures
        2 * stake > u128::MAX ==> r == Err::<(u128, u128), ContractError>(ContractError::Overflow),
        2 * stake <= u128::MAX ==> r == Ok::<(u128, u128), ContractError>((
            commission_of(stake as int, commission_bps as int) as u128,
            payout_of(stake as int, commission_bps as int) as u128,
        )),
{
    let pot = match stake.checked_mul(2) {
        Some(p) => p,
        None => return Err(ContractError::Overflow),
    };
    let bps = commission_bps as u128;
    proof {
        lemma_commission_split(pot as int, bps as int);
        assert(pot / 10000 * bps <= pot) by (nonlinear_arith)
            requires bps <= 10000, pot / 10000 * 10000 <= pot, pot >= 0;
        assert(pot / 10000 * 10000 <= pot) by (nonlinear_arith)
            requires pot >= 0;
        assert(pot % 10000 * bps <= 10000 * 10000) by (nonlinear_arith)
            requires bps <= 10000, 0 <= pot % 10000 < 10000;
    }
    let whole = (pot / BPS_DENOMINATOR) * bps;
    let part = ((pot % BPS_DENOMINATOR) * bps) / BPS_DENOMINATOR;
    let commission = whole + part;
    Ok((commission, pot - commission))
}

} // verus!
