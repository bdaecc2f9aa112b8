use vstd::prelude::*;

use crate::boost::{boost_for_principal, boost_of, MIN_STAKE};
use crate::error::Error;
use crate::reward::{accrual_overflows, accrued, calculate_accrued, BPS_DENOM};

verus! {

/// Ticks between an unstake request and the first tick at which it can be withdrawn.
pub const COOLDOWN_LEDGERS: u32 = 120_960;

/// Share of the principal that a slash cuts, in basis points.
pub const SLASH_RATE_BPS: i128 = 1_000;

/// A participant's staked position.
#[derive(Clone, Copy, Debug, PartialEq, Eq, Structural)]
pub struct StakeInfo {
    /// Value currently staked.
    pub amount: i128,
    /// Tick at which `amount` last changed, and from which rewards accrue.
    pub since_ledger: u32,
    /// Rewards accrued up to `since_ledger` and not yet claimed.
    pub pending_rewards: i128,
}

/// Value that has been unstaked and waits for its cooldown to end.
#[derive(Clone, Copy, Debug, PartialEq, Eq, Structural)]
pub struct UnstakeRequest {
    pub amount: i128,
    /// First tick at which `amount` can be withdrawn.
    pub available_at_ledger: u32,
}

/// Everything the engine keeps about one participant.
#[derive(Clone, Copy, Debug, PartialEq, Eq, Structural)]
pub struct Participant {
    /// Created on the first stake, never removed.
    pub stake: Option<StakeInfo>,
    /// At most one pending withdrawal; repeated unstakes merge into it.
    pub unstake: Option<UnstakeRequest>,
    /// Set by a slash, cleared by a restore.
    pub slashed: bool,
}

/// The amount a slash cuts from a principal of `amount`.
pub open spec fn slash_cut(amount: int) -> int {
    amount * (SLASH_RATE_BPS as int) / (BPS_DENOM as int)
}

/// Rewards owed on `s` at tick `now`: those pending plus those accrued since `since_ledger`.
pub open spec fn owed(s: StakeInfo, now: u32) -> int {
    s.pending_rewards + accrued(s.amount as int, s.since_ledger, now)
}

/// Whether rolling the rewards of `s` forward to `now` overflows.
pub open spec fn owed_overflows(s: StakeInfo, now: u32) -> bool {
    accrual_overflows(s.amount as int, s.since_ledger, now) || owed(s, now) > i128::MAX
}

/// `total` lowered by `by`, but never below zero.
pub open spec fn reduced(total: i128, by: int) -> i128 {
    if total >= by {
        (total - by) as i128
    } else {
        0
    }
}

impl Participant {
    /// A participant that has never staked.
    pub open spec fn fresh() -> Participant {
        Participant { stake: None, unstake: None, slashed: false }
    }

    /// Amounts are never negative.
    pub open spec fn wf(self) -> bool {
        &&& match self.stake {
            Some(s) => s.amount >= 0 && s.pending_rewards >= 0,
            None => true,
        }
        &&& match self.unstake {
            Some(u) => u.amount >= 0,
            None => true,
        }
    }

    /// Value currently staked; none before the first stake.
    pub open spec fn principal(self) -> int {
        match self.stake {
            Some(s) => s.amount as int,
            None => 0,
        }
    }

    /// Value waiting in the unstake request; none without one.
    pub open spec fn queued(self) -> int {
        match self.unstake {
            Some(u) => u.amount as int,
            None => 0,
        }
    }

    /// The stake record at tick `now`, with an empty one before the first stake.
    pub open spec fn base(self, now: u32) -> StakeInfo {
        match self.stake {
            Some(s) => s,
            None => StakeInfo { amount: 0, since_ledger: now, pending_rewards: 0 },
        }
    }

    /// Rewards claimable at `now`; `None` where computing them overflows.
    pub open spec fn pending_at(self, now: u32) -> Option<int> {
        match self.stake {
            None => Some(0),
            Some(s) => if owed_overflows(s, now) {
                None
            } else {
                Some(owed(s, now))
            },
        }
    }

    /// Boost in percentage points: none while slashed.
    pub open spec fn boost(self) -> int {
        if self.slashed {
            0
        } else {
            boost_of(self.principal())
        }
    }

    /// Outcome of staking `amount` at `now`, with `total` staked over all participants.
    pub open spec fn stake_result(self, total: i128, amount: i128, now: u32) -> Result<Participant, Error> {
        let s = self.base(now);
        if self.slashed {
            Err(Error::AccountSlashed)
        } else if amount < MIN_STAKE {
            Err(Error::BelowMinimum)
        } else if owed_overflows(s, now) || s.amount + amount > i128::MAX || total + amount > i128::MAX {
            Err(Error::Overflow)
        } else {
            Ok(
                Participant {
                    stake: Some(
                        StakeInfo {
                            amount: (s.amount + amount) as i128,
                            since_ledger: now,
                            pending_rewards: owed(s, now) as i128,
                        },
                    ),
                    ..self
                },
            )
        }
    }

    /// Outcome of unstaking `amount` at `now`.
    pub open spec fn unstake_result(self, amount: i128, now: u32) -> Result<Participant, Error> {
        match self.stake {
            None => Err(Error::NoStake),
            Some(s) => if amount > s.amount {
                Err(Error::InsufficientStake)
            } else if owed_overflows(s, now) || now + COOLDOWN_LEDGERS > u32::MAX
                || self.queued() + amount > i128::MAX {
                Err(Error::Overflow)
            } else {
                Ok(
                    Participant {
                        stake: Some(
                            StakeInfo {
                                amount: (s.amount - amount) as i128,
                                since_ledger: now,
                                pending_rewards: owed(s, now) as i128,
                            },
                        ),
                        unstake: Some(
                            UnstakeRequest {
                                amount: (self.queued() + amount) as i128,
                                available_at_ledger: (now + COOLDOWN_LEDGERS) as u32,
                            },
                        ),
                        slashed: self.slashed,
                    },
                )
            },
        }
    }

    /// Outcome of withdrawing at `now`; what is paid out is `queued()`.
    pub open spec fn withdraw_result(self, now: u32) -> Result<Participant, Error> {
        match self.unstake {
            None => Err(Error::NoUnstakeRequest),
            Some(u) => if now < u.available_at_ledger {
                Err(Error::CooldownNotMet)
            } else {
                Ok(Participant { unstake: None, ..self })
            },
        }
    }

    /// Outcome of claiming at `now`; what is paid out is `pending_at(now)`.
    pub open spec fn claim_result(self, now: u32) -> Result<Participant, Error> {
        if self.slashed {
            Err(Error::AccountSlashed)
        } else {
            match self.stake {
                None => Err(Error::NoStake),
                Some(s) => if owed_overflows(s, now) {
                    Err(Error::Overflow)
                } else if owed(s, now) == 0 {
                    Ok(self)
                } else {
                    Ok(
                        Participant {
                            stake: Some(
                                StakeInfo { amount: s.amount, since_ledger: now, pending_rewards: 0 },
                            ),
                            ..self
                        },
                    )
                },
            }
        }
    }

    /// Outcome of a slash at `now`; what is cut is `slash_cut(principal())`.
    pub open spec fn slash_result(self, now: u32) -> Result<Participant, Error> {
        match self.stake {
            None => Err(Error::NoStake),
            Some(s) => Ok(
                Participant {
                    stake: Some(
                        StakeInfo {
                            amount: (s.amount - slash_cut(s.amount as int)) as i128,
                            since_ledger: now,
                            pending_rewards: 0,
                        },
                    ),
                    unstake: self.unstake,
                    slashed: true,
                },
            ),
        }
    }

    /// The participant after a restore: the flag cleared, nothing given back.
    pub open spec fn restored(self) -> Participant {
        Participant { slashed: false, ..self }
    }
}

/// Pending rewards of `s` rolled forward to `now`.
pub fn roll_forward(s: &StakeInfo, now: u32) -> (r: Result<i128, Error>)
    requires
        s.amount >= 0,
        s.pending_rewards >= 0,
    ensures
        owed_overflows(*s, now) <==> r is Err,
        r is Err ==> r == Err::<i128, Error>(Error::Overflow),
        r is Ok ==> r->Ok_0 == owed(*s, now) && r->Ok_0 >= s.pending_rewards,
{
    proof {
        crate::reward::lemma_accrued_monotone(s.amount as int, s.since_ledger, now, now);
    }
    let accrued_now = match calculate_accrued(s.amount, s.since_ledger, now) {
        Ok(v) => v,
        Err(e) => {
            return Err(e);
        },
    };
    match s.pending_rewards.checked_add(accrued_now) {
        Some(v) => Ok(v),
        None => Err(Error::Overflow),
    }
}

/// The amount a slash cuts from `amount`, computed without an intermediate overflow.
pub fn cut_for(amount: i128) -> (r: i128)
    requires
        amount >= 0,
    ensures
        r == slash_cut(amount as int),
        0 <= r <= amount,
{
    let whole: i128 = amount / BPS_DENOM;
    let part: i128 = amount % BPS_DENOM;
    proof {
        let a = amount as int;
        vstd::arithmetic::div_mod::lemma_fundamental_div_mod(a, 10_000);
        let q = a / 10_000;
        let m = a % 10_000;
        let t = m * 1000 / 10_000;
        let rem = m * 1000 % 10_000;
        vstd::arithmetic::div_mod::lemma_fundamental_div_mod(m * 1000, 10_000);
        assert(a * 1000 == 10_000 * (q * 1000 + t) + rem) by (nonlinear_arith)
            requires
                a == 10_000 * q + m,
                m * 1000 == 10_000 * t + rem,
        ;
        vstd::arithmetic::div_mod::lemma_fundamental_div_mod_converse(a * 1000, 10_000, q * 1000 + t, rem);
        assert(0 <= t <= m) by (nonlinear_arith)
            requires
                0 <= m < 10_000,
                m * 1000 == 10_000 * t + rem,
                0 <= rem < 10_000,
        ;
        assert(q * 1000 <= q * 10_000) by (nonlinear_arith)
            requires
                q >= 0,
        ;
    }
    whole * SLASH_RATE_BPS + part * SLASH_RATE_BPS / BPS_DENOM
}

impl Participant {
    /// A participant that has never staked.
    pub fn new() -> (r: Participant)
        ensures
            r == Participant::fresh(),
    {
        Participant { stake: None, unstake: None, slashed: false }
    }

    /// Stakes `amount` at tick `now`; `total` is the value staked over all participants.
    ///
    /// Rewards earned so far are first folded into `pending_rewards`; on success the
    /// caller moves `amount` from the participant into the engine's custody.
    pub fn stake(&mut self, total: &mut i128, amount: i128, now: u32) -> (r: Result<(), Error>)
        requires
            old(self).wf(),
            *old(total) >= 0,
        ensures
            final(self).wf(),
            *final(total) >= 0,
            match old(self).stake_result(*old(total), amount, now) {
                Ok(p) => r is Ok && *final(self) == p && *final(total) == *old(total) + amount,
                Err(e) => r == Err::<(), Error>(e) && *final(self) == *old(self) && *final(total)
                    == *old(total),
            },
    {
        if self.slashed {
            return Err(Error::AccountSlashed);
        }
        if amount < MIN_STAKE {
            return Err(Error::BelowMinimum);
        }
        let base = match self.stake {
            Some(s) => s,
            None => StakeInfo { amount: 0, since_ledger: now, pending_rewards: 0 },
        };
        let pending = match roll_forward(&base, now) {
            Ok(v) => v,
            Err(e) => {
                return Err(e);
            },
        };
        let principal = match base.amount.checked_add(amount) {
            Some(v) => v,
            None => {
                return Err(Error::Overflow);
            },
        };
        let new_total = match total.checked_add(amount) {
            Some(v) => v,
            None => {
                return Err(Error::Overflow);
            },
        };
        self.stake = Some(StakeInfo { amount: principal, since_ledger: now, pending_rewards: pending });
        *total = new_total;
        Ok(())
    }

    /// Unstakes `amount` at tick `now`, lowering `total` by it.
    ///
    /// The amount joins the pending unstake request, whose cooldown restarts from `now`
    /// for the whole accumulated amount.
    pub fn unstake(&mut self, total: &mut i128, amount: i128, now: u32) -> (r: Result<(), Error>)
        requires
            old(self).wf(),
            *old(total) >= 0,
            amount >= 0,
        ensures
            final(self).wf(),
            *final(total) >= 0,
            match old(self).unstake_result(amount, now) {
                Ok(p) => r is Ok && *final(self) == p && *final(total) == reduced(*old(total), amount as int),
                Err(e) => r == Err::<(), Error>(e) && *final(self) == *old(self) && *final(total)
                    == *old(total),
            },
    {
        let s = match self.stake {
            Some(s) => s,
            None => {
                return Err(Error::NoStake);
            },
        };
        if amount > s.amount {
            return Err(Error::InsufficientStake);
        }
        let pending = match roll_forward(&s, now) {
            Ok(v) => v,
            Err(e) => {
                return Err(e);
            },
        };
        let available_at = match now.checked_add(COOLDOWN_LEDGERS) {
            Some(v) => v,
            None => {
                return Err(Error::Overflow);
            },
        };
        let existing: i128 = match self.unstake {
            Some(u) => u.amount,
            None => 0,
        };
        let queued = match existing.checked_add(amount) {
            Some(v) => v,
            None => {
                return Err(Error::Overflow);
            },
        };
        self.stake = Some(
            StakeInfo { amount: s.amount - amount, since_ledger: now, pending_rewards: pending },
        );
        self.unstake = Some(UnstakeRequest { amount: queued, available_at_ledger: available_at });
        *total = if *total >= amount {
            *total - amount
        } else {
            0
        };
        Ok(())
    }

    /// Withdraws the whole pending unstake request at tick `now`, returning its amount,
    /// which the caller pays out to the participant.
    pub fn withdraw(&mut self, now: u32) -> (r: Result<i128, Error>)
        requires
            old(self).wf(),
        ensures
            final(self).wf(),
            match old(self).withdraw_result(now) {
                Ok(p) => r == Ok::<i128, Error>(old(self).queued() as i128) && *final(self) == p,
                Err(e) => r == Err::<i128, Error>(e) && *final(self) == *old(self),
            },
    {
        let request = match self.unstake {
            Some(u) => u,
            None => {
                return Err(Error::NoUnstakeRequest);
            },
        };
        if now < request.available_at_ledger {
            return Err(Error::CooldownNotMet);
        }
        self.unstake = None;
        Ok(request.amount)
    }

    /// Claims every reward owed at tick `now`, returning it; the caller pays it out.
    pub fn claim_rewards(&mut self, now: u32) -> (r: Result<i128, Error>)
        requires
            old(self).wf(),
        ensures
            final(self).wf(),
            match old(self).claim_result(now) {
                Ok(p) => r == Ok::<i128, Error>(old(self).pending_at(now)->Some_0 as i128)
                    && *final(self) == p,
                Err(e) => r == Err::<i128, Error>(e) && *final(self) == *old(self),
            },
    {
        if self.slashed {
            return Err(Error::AccountSlashed);
        }
        let s = match self.stake {
            Some(s) => s,
            None => {
                return Err(Error::NoStake);
            },
        };
        let owed_now = match roll_forward(&s, now) {
            Ok(v) => v,
            Err(e) => {
                return Err(e);
            },
        };
        if owed_now == 0 {
            return Ok(0);
        }
        self.stake = Some(StakeInfo { amount: s.amount, since_ledger: now, pending_rewards: 0 });
        Ok(owed_now)
    }

    /// Slashes the participant at tick `now`: cuts the principal, forfeits pending rewards,
    /// sets the slash flag and lowers `total` by the cut, which is returned.
    pub fn slash(&mut self, total: &mut i128, now: u32) -> (r: Result<i128, Error>)
        requires
            old(self).wf(),
            *old(total) >= 0,
        ensures
            final(self).wf(),
            *final(total) >= 0,
            match old(self).slash_result(now) {
                Ok(p) => r == Ok::<i128, Error>(slash_cut(old(self).principal()) as i128)
                    && *final(self) == p && *final(total) == reduced(
                    *old(total),
                    slash_cut(old(self).principal()),
                ),
                Err(e) => r == Err::<i128, Error>(e) && *final(self) == *old(self) && *final(total)
                    == *old(total),
            },
    {
        let s = match self.stake {
            Some(s) => s,
            None => {
                return Err(Error::NoStake);
            },
        };
        let cut = cut_for(s.amount);
        self.stake = Some(StakeInfo { amount: s.amount - cut, since_ledger: now, pending_rewards: 0 });
        self.slashed = true;
        *total = if *total >= cut {
            *total - cut
        } else {
            0
        };
        Ok(cut)
    }

    /// Clears the slash flag; neither the cut nor the forfeited rewards come back.
    pub fn restore(&mut self)
        requires
            old(self).wf(),
        ensures
            *final(self) == old(self).restored(),
            final(self).wf(),
    {
        self.slashed = false;
    }

    /// Boost in percentage points: none while slashed or with nothing staked.
    pub fn calculate_boost(&self) -> (r: u32)
        ensures
            r as int == self.boost(),
    {
        if self.slashed {
            return 0;
        }
        match self.stake {
            None => 0,
            Some(s) => boost_for_principal(s.amount),
        }
    }

    /// Rewards claimable at tick `now`, or `Overflow` where they do not fit an `i128`.
    pub fn pending_rewards(&self, now: u32) -> (r: Result<i128, Error>)
        requires
            self.wf(),
        ensures
            match self.pending_at(now) {
                Some(v) => r == Ok::<i128, Error>(v as i128),
                None => r == Err::<i128, Error>(Error::Overflow),
            },
    {
        match self.stake {
            None => Ok(0),
            Some(s) => roll_forward(&s, now),
        }
    }

    /// Whether the participant is slashed.
    pub fn is_slashed(&self) -> (r: bool)
        ensures
            r == self.slashed,
    {
        self.slashed
    }
}

} // verus!
