use vstd::prelude::*;

use crate::account::{reduced, slash_cut, Participant, StakeInfo, UnstakeRequest};
use crate::error::Error;

verus! {

/// The staking engine: each participant's records, the total staked, the admin and
/// the asset staked. Participants and assets are named by integer identifiers.
pub struct StakingContract {
    admin: Option<u64>,
    token: Option<u64>,
    total_staked: i128,
    accounts: Vec<(u64, Participant)>,
}

/// No identifier occurs twice in `s`.
pub open spec fn keys_unique(s: Seq<(u64, Participant)>) -> bool {
    forall|i: int, j: int| 0 <= i < j < s.len() ==> s[i].0 != s[j].0
}

/// Every participant held in `s` is well formed.
pub open spec fn all_wf(s: Seq<(u64, Participant)>) -> bool {
    forall|i: int| 0 <= i < s.len() ==> (#[trigger] s[i]).1.wf()
}

/// The participant recorded under `id` in `s`, or a fresh one where there is none.
pub open spec fn lookup(s: Seq<(u64, Participant)>, id: u64) -> Participant
    decreases s.len(),
{
    if s.len() == 0 {
        Participant::fresh()
    } else if s.last().0 == id {
        s.last().1
    } else {
        lookup(s.drop_last(), id)
    }
}

/// The sum of the principals of every participant in `s`.
pub open spec fn principal_sum(s: Seq<(u64, Participant)>) -> int
    decreases s.len(),
{
    if s.len() == 0 {
        0
    } else {
        principal_sum(s.drop_last()) + s.last().1.principal()
    }
}

proof fn lemma_lookup_at(s: Seq<(u64, Participant)>, i: int)
    requires
        keys_unique(s),
        0 <= i < s.len(),
    ensures
        lookup(s, s[i].0) == s[i].1,
    decreases s.len(),
{
    if i < s.len() - 1 {
        assert(s.drop_last()[i] == s[i]);
        lemma_lookup_at(s.drop_last(), i);
    }
}

proof fn lemma_lookup_absent(s: Seq<(u64, Participant)>, id: u64)
    requires
        forall|j: int| 0 <= j < s.len() ==> s[j].0 != id,
    ensures
        lookup(s, id) == Participant::fresh(),
    decreases s.len(),
{
    if s.len() > 0 {
        lemma_lookup_absent(s.drop_last(), id);
    }
}

proof fn lemma_lookup_wf(s: Seq<(u64, Participant)>, id: u64)
    requires
        all_wf(s),
    ensures
        lookup(s, id).wf(),
    decreases s.len(),
{
    if s.len() > 0 {
        assert(s[s.len() - 1].1.wf());
        lemma_lookup_wf(s.drop_last(), id);
    }
}

proof fn lemma_sum_bound(s: Seq<(u64, Participant)>, id: u64)
    requires
        all_wf(s),
    ensures
        0 <= lookup(s, id).principal() <= principal_sum(s),
    decreases s.len(),
{
    if s.len() > 0 {
        assert(s[s.len() - 1].1.wf());
        lemma_sum_bound(s.drop_last(), id);
        lemma_lookup_wf(s.drop_last(), id);
        lemma_sum_nonneg(s.drop_last());
    }
}

proof fn lemma_sum_nonneg(s: Seq<(u64, Participant)>)
    requires
        all_wf(s),
    ensures
        principal_sum(s) >= 0,
    decreases s.len(),
{
    if s.len() > 0 {
        assert(s[s.len() - 1].1.wf());
        lemma_sum_nonneg(s.drop_last());
    }
}

proof fn lemma_update(s: Seq<(u64, Participant)>, i: int, p: Participant)
    requires
        keys_unique(s),
        0 <= i < s.len(),
    ensures
        forall|k: u64| #[trigger]
            lookup(s.update(i, (s[i].0, p)), k) == if k == s[i].0 {
                p
            } else {
                lookup(s, k)
            },
        principal_sum(s.update(i, (s[i].0, p))) == principal_sum(s) - s[i].1.principal()
            + p.principal(),
    decreases s.len(),
{
    let t = s.update(i, (s[i].0, p));
    if i == s.len() - 1 {
        assert(t.drop_last() =~= s.drop_last());
    } else {
        assert(t.drop_last() =~= s.drop_last().update(i, (s[i].0, p)));
        assert(s.drop_last()[i] == s[i]);
        assert(keys_unique(s.drop_last()));
        lemma_update(s.drop_last(), i, p);
        assert(t.last() == s.last());
        assert(s.last().0 != s[i].0);
        assert forall|k: u64| #[trigger]
            lookup(t, k) == if k == s[i].0 {
                p
            } else {
                lookup(s, k)
            } by {
            if k != s.last().0 {
                assert(lookup(s.drop_last().update(i, (s[i].0, p)), k) == if k == s[i].0 {
                    p
                } else {
                    lookup(s.drop_last(), k)
                });
            }
        }
    }
}

proof fn lemma_push(s: Seq<(u64, Participant)>, id: u64, p: Participant)
    ensures
        forall|k: u64| #[trigger]
            lookup(s.push((id, p)), k) == if k == id {
                p
            } else {
                lookup(s, k)
            },
        principal_sum(s.push((id, p))) == principal_sum(s) + p.principal(),
{
    assert(s.push((id, p)).drop_last() =~= s);
}

impl StakingContract {
    /// The participant recorded under `id`, or a fresh one.
    pub closed spec fn account(self, id: u64) -> Participant {
        lookup(self.accounts@, id)
    }

    /// The value staked over all participants, as the engine counts it.
    pub closed spec fn total(self) -> i128 {
        self.total_staked
    }

    /// The sum of every participant's principal.
    pub closed spec fn principal_total(self) -> int {
        principal_sum(self.accounts@)
    }

    /// The privileged account, once initialised.
    pub closed spec fn admin(self) -> Option<u64> {
        self.admin
    }

    /// The asset staked, once initialised.
    pub closed spec fn asset(self) -> Option<u64> {
        self.token
    }

    /// Records are unique per participant and well formed, and the total staked is
    /// the sum of every principal.
    pub closed spec fn wf(self) -> bool {
        &&& keys_unique(self.accounts@)
        &&& all_wf(self.accounts@)
        &&& self.total_staked as int == principal_sum(self.accounts@)
    }

    /// Every participant of a well-formed engine is well formed, and the total staked
    /// covers each principal.
    pub proof fn lemma_account(self, id: u64)
        requires
            self.wf(),
        ensures
            self.account(id).wf(),
            0 <= self.account(id).principal() <= self.total(),
            self.total() == self.principal_total(),
    {
        lemma_lookup_wf(self.accounts@, id);
        lemma_sum_bound(self.accounts@, id);
    }

    /// An engine that is not initialised and holds no participant.
    pub fn new() -> (r: StakingContract)
        ensures
            r.wf(),
            r.admin() is None,
            r.asset() is None,
            r.total() == 0,
            forall|id: u64| #[trigger] r.account(id) == Participant::fresh(),
    {
        StakingContract { admin: None, token: None, total_staked: 0, accounts: Vec::new() }
    }

    fn find(&self, id: u64) -> (r: Option<usize>)
        ensures
            match r {
                Some(i) => i < self.accounts@.len() && self.accounts@[i as int].0 == id,
                None => forall|j: int| 0 <= j < self.accounts@.len() ==> self.accounts@[j].0 != id,
            },
    {
        let mut i: usize = 0;
        while i < self.accounts.len()
            invariant
                i <= self.accounts@.len(),
                forall|j: int| 0 <= j < i ==> self.accounts@[j].0 != id,
            decreases self.accounts@.len() - i,
        {
            if self.accounts[i].0 == id {
                return Some(i);
            }
            i = i + 1;
        }
        None
    }

    fn load(&self, id: u64) -> (r: Participant)
        requires
            self.wf(),
        ensures
            r == self.account(id),
            r.wf(),
    {
        proof {
            lemma_lookup_wf(self.accounts@, id);
        }
        match self.find(id) {
            Some(i) => {
                proof {
                    lemma_lookup_at(self.accounts@, i as int);
                }
                self.accounts[i].1
            },
            None => {
                proof {
                    lemma_lookup_absent(self.accounts@, id);
                }
                Participant::new()
            },
        }
    }

    fn store(&mut self, id: u64, p: Participant)
        requires
            keys_unique(old(self).accounts@),
            all_wf(old(self).accounts@),
            p.wf(),
        ensures
            keys_unique(final(self).accounts@),
            all_wf(final(self).accounts@),
            final(self).account(id) == p,
            forall|k: u64| k != id ==> #[trigger] final(self).account(k) == old(self).account(k),
            final(self).principal_total() == old(self).principal_total() - old(self).account(
                id,
            ).principal() + p.principal(),
            final(self).total_staked == old(self).total_staked,
            final(self).admin == old(self).admin,
            final(self).token == old(self).token,
    {
        match self.find(id) {
            Some(i) => {
                proof {
                    lemma_lookup_at(self.accounts@, i as int);
                    lemma_update(self.accounts@, i as int, p);
                }
                self.accounts.set(i, (id, p));
            },
            None => {
                proof {
                    lemma_lookup_absent(self.accounts@, id);
                    lemma_push(self.accounts@, id, p);
                }
                self.accounts.push((id, p));
            },
        }
    }
}

impl StakingContract {
    /// Every participant but `id` is the same in `self` and `other`.
    pub open spec fn others_kept(self, other: StakingContract, id: u64) -> bool {
        forall|k: u64| k != id ==> #[trigger] other.account(k) == self.account(k)
    }

    /// Admin and asset are the same in `self` and `other`.
    pub open spec fn config_kept(self, other: StakingContract) -> bool {
        other.admin() == self.admin() && other.asset() == self.asset()
    }

    /// Why a privileged `caller` is refused, if it is.
    pub open spec fn privilege_error(self, caller: u64) -> Option<Error> {
        match self.admin() {
            None => Some(Error::NotInitialised),
            Some(a) => if a != caller {
                Some(Error::Unauthorized)
            } else {
                None
            },
        }
    }

    /// Records `admin` as the privileged account and `token` as the asset staked.
    pub fn initialize(&mut self, admin: u64, token: u64) -> (r: Result<(), Error>)
        requires
            old(self).wf(),
        ensures
            final(self).wf(),
            forall|k: u64| #[trigger] final(self).account(k) == old(self).account(k),
            final(self).total() == old(self).total(),
            old(self).admin() is Some ==> r == Err::<(), Error>(Error::AlreadyInitialised)
                && old(self).config_kept(*final(self)),
            old(self).admin() is None ==> r is Ok && final(self).admin() == Some(admin)
                && final(self).asset() == Some(token),
    {
        if self.admin.is_some() {
            return Err(Error::AlreadyInitialised);
        }
        self.admin = Some(admin);
        self.token = Some(token);
        Ok(())
    }

    /// Stakes `amount` for `artist` at tick `now`; on success the caller moves `amount`
    /// from `artist` into the engine's custody.
    pub fn stake(&mut self, artist: u64, amount: i128, now: u32) -> (r: Result<(), Error>)
        requires
            old(self).wf(),
        ensures
            final(self).wf(),
            old(self).config_kept(*final(self)),
            old(self).others_kept(*final(self), artist),
            old(self).admin() is None ==> r == Err::<(), Error>(Error::NotInitialised)
                && final(self).account(artist) == old(self).account(artist) && final(self).total()
                == old(self).total(),
            old(self).admin() is Some ==> match old(self).account(artist).stake_result(
                old(self).total(),
                amount,
                now,
            ) {
                Ok(p) => r is Ok && final(self).account(artist) == p && final(self).total()
                    == old(self).total() + amount,
                Err(e) => r == Err::<(), Error>(e) && final(self).account(artist) == old(
                    self,
                ).account(artist) && final(self).total() == old(self).total(),
            },
    {
        if self.admin.is_none() {
            return Err(Error::NotInitialised);
        }
        let mut p = self.load(artist);
        let mut total = self.total_staked;
        proof {
            self.lemma_account(artist);
        }
        match p.stake(&mut total, amount, now) {
            Ok(()) => {
                self.total_staked = total;
                self.store(artist, p);
                Ok(())
            },
            Err(e) => Err(e),
        }
    }

    /// Unstakes `amount` for `artist` at tick `now`, moving it to the pending request.
    pub fn unstake(&mut self, artist: u64, amount: i128, now: u32) -> (r: Result<(), Error>)
        requires
            old(self).wf(),
            amount >= 0,
        ensures
            final(self).wf(),
            old(self).config_kept(*final(self)),
            old(self).others_kept(*final(self), artist),
            old(self).admin() is None ==> r == Err::<(), Error>(Error::NotInitialised)
                && final(self).account(artist) == old(self).account(artist) && final(self).total()
                == old(self).total(),
            old(self).admin() is Some ==> match old(self).account(artist).unstake_result(
                amount,
                now,
            ) {
                Ok(p) => r is Ok && final(self).account(artist) == p && final(self).total()
                    == old(self).total() - amount,
                Err(e) => r == Err::<(), Error>(e) && final(self).account(artist) == old(
                    self,
                ).account(artist) && final(self).total() == old(self).total(),
            },
    {
        if self.admin.is_none() {
            return Err(Error::NotInitialised);
        }
        let mut p = self.load(artist);
        let mut total = self.total_staked;
        proof {
            self.lemma_account(artist);
        }
        match p.unstake(&mut total, amount, now) {
            Ok(()) => {
                self.total_staked = total;
                self.store(artist, p);
                Ok(())
            },
            Err(e) => Err(e),
        }
    }

    /// Withdraws the pending request of `artist` at tick `now`, returning the amount
    /// that the caller pays out to `artist`.
    pub fn withdraw(&mut self, artist: u64, now: u32) -> (r: Result<i128, Error>)
        requires
            old(self).wf(),
        ensures
            final(self).wf(),
            old(self).config_kept(*final(self)),
            old(self).others_kept(*final(self), artist),
            final(self).total() == old(self).total(),
            match old(self).account(artist).withdraw_result(now) {
                Ok(p) => r == Ok::<i128, Error>(old(self).account(artist).queued() as i128)
                    && final(self).account(artist) == p,
                Err(e) => r == Err::<i128, Error>(e) && final(self).account(artist) == old(
                    self,
                ).account(artist),
            },
    {
        let mut p = self.load(artist);
        match p.withdraw(now) {
            Ok(amount) => {
                self.store(artist, p);
                Ok(amount)
            },
            Err(e) => Err(e),
        }
    }

    /// Claims the rewards of `artist` at tick `now`, returning the amount that the caller
    /// pays out to `artist`.
    pub fn claim_rewards(&mut self, artist: u64, now: u32) -> (r: Result<i128, Error>)
        requires
            old(self).wf(),
        ensures
            final(self).wf(),
            old(self).config_kept(*final(self)),
            old(self).others_kept(*final(self), artist),
            final(self).total() == old(self).total(),
            old(self).admin() is None ==> r == Err::<i128, Error>(Error::NotInitialised)
                && final(self).account(artist) == old(self).account(artist),
            old(self).admin() is Some ==> match old(self).account(artist).claim_result(now) {
                Ok(p) => r == Ok::<i128, Error>(
                    old(self).account(artist).pending_at(now)->Some_0 as i128,
                ) && final(self).account(artist) == p,
                Err(e) => r == Err::<i128, Error>(e) && final(self).account(artist) == old(
                    self,
                ).account(artist),
            },
    {
        if self.admin.is_none() {
            return Err(Error::NotInitialised);
        }
        let mut p = self.load(artist);
        match p.claim_rewards(now) {
            Ok(amount) => {
                self.store(artist, p);
                Ok(amount)
            },
            Err(e) => Err(e),
        }
    }

    /// Boost of `artist` in percentage points.
    pub fn calculate_boost(&self, artist: u64) -> (r: u32)
        requires
            self.wf(),
        ensures
            r as int == self.account(artist).boost(),
    {
        self.load(artist).calculate_boost()
    }

    /// Slashes `artist` at tick `now` on behalf of the privileged `caller`, returning the
    /// amount cut, which the caller pays out to the admin.
    pub fn slash(&mut self, caller: u64, artist: u64, now: u32) -> (r: Result<i128, Error>)
        requires
            old(self).wf(),
        ensures
            final(self).wf(),
            old(self).config_kept(*final(self)),
            old(self).others_kept(*final(self), artist),
            match old(self).privilege_error(caller) {
                Some(e) => r == Err::<i128, Error>(e) && final(self).account(artist) == old(
                    self,
                ).account(artist) && final(self).total() == old(self).total(),
                None => match old(self).account(artist).slash_result(now) {
                    Ok(p) => r == Ok::<i128, Error>(
                        slash_cut(old(self).account(artist).principal()) as i128,
                    ) && final(self).account(artist) == p && final(self).total() == old(
                        self,
                    ).total() - slash_cut(old(self).account(artist).principal()),
                    Err(e) => r == Err::<i128, Error>(e) && final(self).account(artist) == old(
                        self,
                    ).account(artist) && final(self).total() == old(self).total(),
                },
            },
    {
        match self.admin {
            None => {
                return Err(Error::NotInitialised);
            },
            Some(a) => {
                if a != caller {
                    return Err(Error::Unauthorized);
                }
            },
        }
        let mut p = self.load(artist);
        let mut total = self.total_staked;
        proof {
            self.lemma_account(artist);
        }
        match p.slash(&mut total, now) {
            Ok(cut) => {
                self.total_staked = total;
                self.store(artist, p);
                Ok(cut)
            },
            Err(e) => Err(e),
        }
    }

    /// Clears the slash flag of `artist` on behalf of the privileged `caller`.
    pub fn restore(&mut self, caller: u64, artist: u64) -> (r: Result<(), Error>)
        requires
            old(self).wf(),
        ensures
            final(self).wf(),
            old(self).config_kept(*final(self)),
            old(self).others_kept(*final(self), artist),
            final(self).total() == old(self).total(),
            match old(self).privilege_error(caller) {
                Some(e) => r == Err::<(), Error>(e) && final(self).account(artist) == old(
                    self,
                ).account(artist),
                None => r is Ok && final(self).account(artist) == old(self).account(
                    artist,
                ).restored(),
            },
    {
        match self.admin {
            None => {
                return Err(Error::NotInitialised);
            },
            Some(a) => {
                if a != caller {
                    return Err(Error::Unauthorized);
                }
            },
        }
        let mut p = self.load(artist);
        p.restore();
        self.store(artist, p);
        Ok(())
    }

    /// Hands the privileged role from `caller` to `new_admin`.
    pub fn transfer_admin(&mut self, caller: u64, new_admin: u64) -> (r: Result<(), Error>)
        requires
            old(self).wf(),
        ensures
            final(self).wf(),
            forall|k: u64| #[trigger] final(self).account(k) == old(self).account(k),
            final(self).total() == old(self).total(),
            final(self).asset() == old(self).asset(),
            match old(self).privilege_error(caller) {
                Some(e) => r == Err::<(), Error>(e) && final(self).admin() == old(self).admin(),
                None => r is Ok && final(self).admin() == Some(new_admin),
            },
    {
        match self.admin {
            None => {
                return Err(Error::NotInitialised);
            },
            Some(a) => {
                if a != caller {
                    return Err(Error::Unauthorized);
                }
            },
        }
        self.admin = Some(new_admin);
        Ok(())
    }

    /// The stake record of `artist`, if it has ever staked.
    pub fn get_stake(&self, artist: u64) -> (r: Option<StakeInfo>)
        requires
            self.wf(),
        ensures
            r == self.account(artist).stake,
    {
        self.load(artist).stake
    }

    /// The pending unstake request of `artist`, if any.
    pub fn get_unstake_request(&self, artist: u64) -> (r: Option<UnstakeRequest>)
        requires
            self.wf(),
        ensures
            r == self.account(artist).unstake,
    {
        self.load(artist).unstake
    }

    /// The value staked over all participants.
    pub fn total_staked(&self) -> (r: i128)
        ensures
            r == self.total(),
    {
        self.total_staked
    }

    /// The rewards `artist` could claim at tick `now`.
    pub fn pending_rewards(&self, artist: u64, now: u32) -> (r: Result<i128, Error>)
        requires
            self.wf(),
        ensures
            match self.account(artist).pending_at(now) {
                Some(v) => r == Ok::<i128, Error>(v as i128),
                None => r == Err::<i128, Error>(Error::Overflow),
            },
    {
        self.load(artist).pending_rewards(now)
    }

    /// Whether `artist` is slashed.
    pub fn is_slashed(&self, artist: u64) -> (r: bool)
        requires
            self.wf(),
        ensures
            r == self.account(artist).slashed,
    {
        self.load(artist).slashed
    }

    /// The asset staked, once initialised.
    pub fn get_token(&self) -> (r: Option<u64>)
        ensures
            r == self.asset(),
    {
        self.token
    }
}

} // verus!
