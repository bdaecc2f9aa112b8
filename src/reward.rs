use vstd::prelude::*;

use crate::error::Error;

verus! {

/// Ticks the engine counts as one year when it annualises the reward rate.
pub const LEDGERS_PER_YEAR: i128 = 6_307_200;

/// Yearly reward rate, in basis points of the staked principal.
pub const REWARD_RATE_BPS: i128 = 500;

/// Basis points in one whole.
pub const BPS_DENOM: i128 = 10_000;

/// Ticks elapsed from `since` to `now`; none when the clock has not moved past `since`.
pub open spec fn elapsed(since: u32, now: u32) -> int {
    if now <= since {
        0
    } else {
        now - since
    }
}

/// The product that accrual divides; it must fit an `i128` for accrual to succeed.
pub open spec fn accrual_numerator(principal: int, since: u32, now: u32) -> int {
    principal * REWARD_RATE_BPS * elapsed(since, now)
}

/// Whether accrual on `principal` from `since` to `now` overflows.
pub open spec fn accrual_overflows(principal: int, since: u32, now: u32) -> bool {
    accrual_numerator(principal, since, now) > i128::MAX
}

/// Reward owed on `principal` for the ticks from `since` to `now`, rounded down.
pub open spec fn accrued(principal: int, since: u32, now: u32) -> int {
    accrual_numerator(principal, since, now) / (BPS_DENOM * LEDGERS_PER_YEAR)
}

/// Reward accrued is never negative, and grows with the time elapsed.
pub proof fn lemma_accrued_monotone(principal: int, since: u32, now1: u32, now2: u32)
    requires
        principal >= 0,
        now1 <= now2,
    ensures
        0 <= accrued(principal, since, now1) <= accrued(principal, since, now2),
        accrual_numerator(principal, since, now1) <= accrual_numerator(principal, since, now2),
        accrued(principal, since, now2) <= accrual_numerator(principal, since, now2),
{
    let e1 = elapsed(since, now1);
    let e2 = elapsed(since, now2);
    assert(0 <= e1 <= e2);
    assert(0 <= principal * 500 * e1 <= principal * 500 * e2) by (nonlinear_arith)
        requires
            principal >= 0,
            0 <= e1 <= e2,
    ;
    let d = BPS_DENOM * LEDGERS_PER_YEAR;
    assert(d == 63_072_000_000);
    vstd::arithmetic::div_mod::lemma_div_is_ordered(principal * 500 * e1, principal * 500 * e2, d);
    vstd::arithmetic::div_mod::lemma_div_pos_is_pos(principal * 500 * e1, d);
    vstd::arithmetic::div_mod::lemma_div_is_ordered_by_denominator(principal * 500 * e2, 1, d);
}

/// Reward owed on `principal` for the ticks from `since` to `now`.
///
/// Fails with `Overflow` exactly when the intermediate product does not fit an `i128`.
pub fn calculate_accrued(principal: i128, since: u32, now: u32) -> (r: Result<i128, Error>)
    requires
        principal >= 0,
    ensures
        accrual_overflows(principal as int, since, now) <==> r is Err,
        r is Err ==> r == Err::<i128, Error>(Error::Overflow),
        r is Ok ==> r->Ok_0 == accrued(principal as int, since, now),
{
    proof {
        lemma_accrued_monotone(principal as int, since, now, now);
    }
    if principal == 0 || now <= since {
        assert(accrual_numerator(principal as int, since, now) == 0) by (nonlinear_arith)
            requires
                principal == 0 || elapsed(since, now) == 0,
                accrual_numerator(principal as int, since, now) == principal * 500 * elapsed(since, now),
        ;
        return Ok(0);
    }
    let ticks: i128 = (now - since) as i128;
    let scaled = match principal.checked_mul(REWARD_RATE_BPS) {
        Some(v) => v,
        None => {
            assert(principal * 500 <= principal * 500 * ticks) by (nonlinear_arith)
                requires
                    principal >= 0,
                    ticks >= 1,
            ;
            return Err(Error::Overflow);
        },
    };
    let numerator = match scaled.checked_mul(ticks) {
        Some(v) => v,
        None => {
            return Err(Error::Overflow);
        },
    };
    Ok(numerator / (BPS_DENOM * LEDGERS_PER_YEAR))
}

} // verus!
