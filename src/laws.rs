use vstd::prelude::*;

use crate::account::{owed, Participant};
use crate::boost::{boost_of, is_floor_sqrt, lemma_floor_sqrt_unique, MAX_BOOST, MIN_STAKE};
use crate::engine::StakingContract;
use crate::error::Error;
use crate::reward::{accrual_numerator, lemma_accrued_monotone};

verus! {

/// The total staked of a well-formed engine is the sum of every participant's principal;
/// every operation of the engine keeps it well formed.
pub proof fn law_total_is_sum_of_principals(c: StakingContract)
    requires
        c.wf(),
    ensures
        c.total() as int == c.principal_total(),
{
    c.lemma_account(0);
}

/// The sum of a sequence of amounts.
pub open spec fn amount_sum(amounts: Seq<i128>) -> int
    decreases amounts.len(),
{
    if amounts.len() == 0 {
        0
    } else {
        amounts[0] + amount_sum(amounts.drop_first())
    }
}

/// The participant after unstaking `amounts[i]` at tick `times[i]`, one after another;
/// `None` where one of them is refused.
pub open spec fn unstake_all(p: Participant, amounts: Seq<i128>, times: Seq<u32>) -> Option<
    Participant,
>
    decreases amounts.len(),
{
    if amounts.len() == 0 || times.len() == 0 {
        Some(p)
    } else {
        match p.unstake_result(amounts[0], times[0]) {
            Ok(q) => unstake_all(q, amounts.drop_first(), times.drop_first()),
            Err(_) => None,
        }
    }
}

proof fn lemma_unstake_all(p: Participant, amounts: Seq<i128>, times: Seq<u32>)
    requires
        amounts.len() == times.len(),
        forall|i: int| 0 <= i < amounts.len() ==> amounts[i] >= 0,
        unstake_all(p, amounts, times) is Some,
    ensures
        unstake_all(p, amounts, times)->Some_0.queued() == p.queued() + amount_sum(amounts),
        unstake_all(p, amounts, times)->Some_0.principal() == p.principal() - amount_sum(amounts),
        unstake_all(p, amounts, times)->Some_0.slashed == p.slashed,
    decreases amounts.len(),
{
    if amounts.len() > 0 {
        let q = p.unstake_result(amounts[0], times[0])->Ok_0;
        assert(q.queued() == p.queued() + amounts[0]);
        assert(q.principal() == p.principal() - amounts[0]);
        lemma_unstake_all(q, amounts.drop_first(), times.drop_first());
    }
}

/// Conservation of unstaked value: once a cooldown cycle opens with no pending request,
/// a withdrawal pays out exactly the sum of the amounts unstaked in that cycle, and value
/// only moves between the principal and the request.
pub proof fn law_withdraw_pays_unstaked_sum(
    p: Participant,
    amounts: Seq<i128>,
    times: Seq<u32>,
    now: u32,
)
    requires
        p.unstake is None,
        amounts.len() == times.len(),
        forall|i: int| 0 <= i < amounts.len() ==> amounts[i] >= 0,
        unstake_all(p, amounts, times) is Some,
        unstake_all(p, amounts, times)->Some_0.withdraw_result(now) is Ok,
    ensures
        ({
            let q = unstake_all(p, amounts, times)->Some_0;
            let w = q.withdraw_result(now)->Ok_0;
            &&& q.queued() == amount_sum(amounts)
            &&& q.principal() + q.queued() == p.principal()
            &&& w.queued() == 0
            &&& w.principal() == q.principal()
        }),
{
    lemma_unstake_all(p, amounts, times);
}

/// Between claims, what can be claimed never shrinks as time passes.
pub proof fn law_pending_grows_with_time(p: Participant, now1: u32, now2: u32)
    requires
        p.wf(),
        now1 <= now2,
        p.pending_at(now2) is Some,
    ensures
        p.pending_at(now1) is Some,
        0 <= p.pending_at(now1)->Some_0 <= p.pending_at(now2)->Some_0,
{
    if let Some(s) = p.stake {
        lemma_accrued_monotone(s.amount as int, s.since_ledger, now1, now2);
    }
}

proof fn lemma_fresh_accrual(principal: int, now: u32)
    ensures
        accrual_numerator(principal, now, now) == 0,
        owed(crate::account::StakeInfo { amount: 0, since_ledger: now, pending_rewards: 0 }, now)
            == 0,
{
    assert(accrual_numerator(0, now, now) == 0);
}

/// Staking and unstaking roll rewards forward: what can be claimed right after them is
/// what could be claimed right before. A withdrawal leaves it untouched at every tick.
pub proof fn law_pending_kept_between_claims(
    p: Participant,
    total: i128,
    amount: i128,
    now: u32,
    later: u32,
)
    requires
        p.wf(),
    ensures
        p.withdraw_result(now) is Ok ==> p.withdraw_result(now)->Ok_0.pending_at(later)
            == p.pending_at(later),
        p.stake_result(total, amount, now) is Ok ==> p.stake_result(total, amount, now)->Ok_0.pending_at(
            now,
        ) == p.pending_at(now),
        p.unstake_result(amount, now) is Ok ==> p.unstake_result(amount, now)->Ok_0.pending_at(
            now,
        ) == p.pending_at(now),
{
    let s = p.base(now);
    lemma_fresh_accrual((s.amount + amount) as int, now);
    lemma_fresh_accrual((s.amount - amount) as int, now);
    lemma_fresh_accrual(s.amount as int, now);
}

/// Right after a successful claim nothing more can be claimed.
pub proof fn law_claim_resets_pending(p: Participant, now: u32)
    requires
        p.wf(),
        p.claim_result(now) is Ok,
    ensures
        p.claim_result(now)->Ok_0.pending_at(now) == Some(0int),
{
    let s = p.stake->Some_0;
    lemma_fresh_accrual(s.amount as int, now);
}

/// Boost of `n` minimum stakes: ten points per unit of the integer square root of `n`,
/// up to the cap.
pub proof fn law_boost_of_multiple(n: int, root: int)
    requires
        n >= 0,
        is_floor_sqrt(n, root),
    ensures
        boost_of(n * MIN_STAKE) == if root * 10 < MAX_BOOST {
            root * 10
        } else {
            MAX_BOOST as int
        },
{
    lemma_floor_sqrt_unique(n, root);
    vstd::arithmetic::div_mod::lemma_div_multiples_vanish(n, MIN_STAKE as int);
    assert(n * MIN_STAKE == MIN_STAKE * n);
    if n == 0 {
        assert(root == 0) by (nonlinear_arith)
            requires
                root >= 0,
                root * root <= 0,
        ;
    }
}

/// A slash takes away boost and every claimable reward, and refuses staking and
/// claiming; unstaking keeps the flag. A restore clears the flag alone: the cut and the
/// forfeited rewards stay lost, and staking is no longer refused for the slash.
pub proof fn law_slash_and_restore(
    p: Participant,
    now: u32,
    total: i128,
    amount: i128,
    later: u32,
)
    requires
        p.wf(),
        p.slash_result(now) is Ok,
    ensures
        ({
            let q = p.slash_result(now)->Ok_0;
            let r = q.restored();
            &&& q.slashed
            &&& q.boost() == 0
            &&& q.pending_at(now) == Some(0int)
            &&& q.stake_result(total, amount, later) == Err::<Participant, Error>(
                Error::AccountSlashed,
            )
            &&& q.claim_result(later) == Err::<Participant, Error>(Error::AccountSlashed)
            &&& (q.unstake_result(amount, later) is Ok ==> q.unstake_result(
                amount,
                later,
            )->Ok_0.slashed)
            &&& !r.slashed
            &&& r.stake == q.stake
            &&& r.pending_at(now) == Some(0int)
            &&& r.stake_result(total, amount, later) != Err::<Participant, Error>(
                Error::AccountSlashed,
            )
        }),
{
    let q = p.slash_result(now)->Ok_0;
    lemma_fresh_accrual(q.principal(), now);
}

} // verus!
