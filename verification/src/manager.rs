//! The keyed store around the state machine: one pool record plus one
//! position per participant, with the conservation invariant.
//!
//! The host keeps one [`StakeManager`] per deployment and serializes the
//! operations on it; each operation here is a single atomic step.  Every
//! operation that succeeds with a [`TokenTransfer`] obliges the host to
//! perform that transfer; if the host's ledger refuses it, the host must
//! discard the mutated manager and keep the value it held before the call.

use vstd::prelude::*;
use vstd::pervasive::VecAdditionalExecFns;

use crate::errors::StakingError;
use crate::ops;
use crate::records::StakingAccount;
use crate::records::TokenTransfer;
use crate::records::UserStake;

verus! {

/// The staked value the positions of a sequence hold, summed.
pub open spec fn sum_amounts(positions: Seq<UserStake>) -> int
    decreases positions.len(),
{
    if positions.len() == 0 {
        0
    } else {
        sum_amounts(positions.drop_last()) + positions.last().amount
    }
}

/// Staked amounts are unsigned, so their sum is never negative.
pub proof fn lemma_sum_amounts_nonneg(positions: Seq<UserStake>)
    ensures
        sum_amounts(positions) >= 0,
    decreases positions.len(),
{
    if positions.len() > 0 {
        lemma_sum_amounts_nonneg(positions.drop_last());
    }
}

/// Appending a position grows the sum by exactly its amount.
pub proof fn lemma_sum_amounts_push(positions: Seq<UserStake>, position: UserStake)
    ensures
        sum_amounts(positions.push(position)) == sum_amounts(positions) + position.amount,
{
    assert(positions.push(position).drop_last() =~= positions);
}

/// Replacing one position moves the sum by the difference of the amounts.
pub proof fn lemma_sum_amounts_update(positions: Seq<UserStake>, i: int, position: UserStake)
    requires
        0 <= i < positions.len(),
    ensures
        sum_amounts(positions.update(i, position)) == sum_amounts(positions)
            - positions[i].amount + position.amount,
    decreases positions.len(),
{
    let updated = positions.update(i, position);
    if i == positions.len() - 1 {
        assert(updated.drop_last() =~= positions.drop_last());
    } else {
        assert(updated.drop_last() =~= positions.drop_last().update(i, position));
        lemma_sum_amounts_update(positions.drop_last(), i, position);
    }
}

/// Each single position holds at most the sum of them all.
pub proof fn lemma_sum_amounts_element_bound(positions: Seq<UserStake>, i: int)
    requires
        0 <= i < positions.len(),
    ensures
        positions[i].amount <= sum_amounts(positions),
    decreases positions.len(),
{
    if i == positions.len() - 1 {
        lemma_sum_amounts_nonneg(positions.drop_last());
    } else {
        lemma_sum_amounts_element_bound(positions.drop_last(), i);
    }
}

/// Replacing the position at `i` by one with the same owner keeps the
/// owners distinct and leaves every other participant's position as the
/// store denotes it.
pub proof fn lemma_store_update(before: StakeManager, after: StakeManager, i: int, v: UserStake)
    requires
        before.owners_distinct(),
        0 <= i < before.positions@.len(),
        after.positions@ == before.positions@.update(i, v),
        v.user_id == before.positions@[i].user_id,
    ensures
        after.owners_distinct(),
        after.has_position(v.user_id),
        after.position_of(v.user_id) == v,
        forall|other: u64|
            other != v.user_id ==> (after.has_position(other) <==> before.has_position(other)),
        forall|other: u64| other != v.user_id ==> after.position_of(other) == before.position_of(other),
{
    assert forall|p: int, q: int| 0 <= p < q < after.positions@.len()
        implies after.positions@[p].user_id != after.positions@[q].user_id by {
        assert(after.positions@[p].user_id == before.positions@[p].user_id);
        assert(after.positions@[q].user_id == before.positions@[q].user_id);
    }
    after.lemma_position_at(i);
    assert forall|other: u64| other != v.user_id
        implies (after.has_position(other) <==> before.has_position(other))
            && after.position_of(other) == before.position_of(other) by {
        if before.has_position(other) {
            let j = before.position_index(other);
            assert(0 <= j < before.positions@.len() && before.positions@[j].user_id == other);
            assert(j != i);
            assert(after.positions@[j].user_id == other);
            assert(after.has_position(other));
        }
        if after.has_position(other) {
            let j = after.position_index(other);
            assert(0 <= j < after.positions@.len() && after.positions@[j].user_id == other);
            assert(j != i);
            assert(before.positions@[j].user_id == other);
            assert(before.has_position(other));
        }
        if before.has_position(other) {
            let jb = before.position_index(other);
            let ja = after.position_index(other);
            assert(before.positions@[jb].user_id == other);
            assert(after.positions@[ja].user_id == other);
            assert(ja != i);
            assert(before.positions@[ja].user_id == other);
            if jb < ja {
                assert(before.positions@[jb].user_id != before.positions@[ja].user_id);
            } else if ja < jb {
                assert(before.positions@[ja].user_id != before.positions@[jb].user_id);
            }
            assert(jb == ja);
            assert(after.position_of(other) == before.position_of(other));
        }
    }
}

/// Appending a position for a participant the store does not know yet keeps
/// the owners distinct and leaves every other participant's position as the
/// store denotes it.
pub proof fn lemma_store_push(before: StakeManager, after: StakeManager, v: UserStake)
    requires
        before.owners_distinct(),
        !before.has_position(v.user_id),
        after.positions@ == before.positions@.push(v),
    ensures
        after.owners_distinct(),
        after.has_position(v.user_id),
        after.position_of(v.user_id) == v,
        forall|other: u64|
            other != v.user_id ==> (after.has_position(other) <==> before.has_position(other)),
        forall|other: u64| other != v.user_id ==> after.position_of(other) == before.position_of(other),
{
    let n = before.positions@.len() as int;
    assert forall|p: int, q: int| 0 <= p < q < after.positions@.len()
        implies after.positions@[p].user_id != after.positions@[q].user_id by {
        if q < n {
            assert(after.positions@[p].user_id == before.positions@[p].user_id);
            assert(after.positions@[q].user_id == before.positions@[q].user_id);
        } else {
            assert(after.positions@[q] == v);
            assert(after.positions@[p].user_id == before.positions@[p].user_id);
            assert(before.positions@[p].user_id != v.user_id);
        }
    }
    after.lemma_position_at(n);
    assert forall|other: u64| other != v.user_id
        implies (after.has_position(other) <==> before.has_position(other))
            && after.position_of(other) == before.position_of(other) by {
        if before.has_position(other) {
            let j = before.position_index(other);
            assert(0 <= j < n && before.positions@[j].user_id == other);
            assert(after.positions@[j].user_id == other);
            assert(after.has_position(other));
        }
        if after.has_position(other) {
            let j = after.position_index(other);
            assert(0 <= j < after.positions@.len() && after.positions@[j].user_id == other);
            assert(j != n);
            assert(before.positions@[j].user_id == other);
            assert(before.has_position(other));
        }
        if before.has_position(other) {
            let jb = before.position_index(other);
            let ja = after.position_index(other);
            assert(before.positions@[jb].user_id == other);
            assert(after.positions@[ja].user_id == other);
            assert(ja != n);
            assert(before.positions@[ja].user_id == other);
            if jb < ja {
                assert(before.positions@[jb].user_id != before.positions@[ja].user_id);
            } else if ja < jb {
                assert(before.positions@[ja].user_id != before.positions@[jb].user_id);
            }
            assert(jb == ja);
            assert(after.position_of(other) == before.position_of(other));
        }
    }
}

/// One staking deployment: the pool record and every participant's
/// position, keyed by the participant's identity.
pub struct StakeManager {
    /// The singleton pool record.
    pub pool: StakingAccount,
    /// One position per participant; `user_id`s are distinct.
    pub positions: Vec<UserStake>,
}

impl StakeManager {
    /// At most one position per participant.
    pub open spec fn owners_distinct(self) -> bool {
        forall|i: int, j: int|
            0 <= i < j < self.positions@.len()
                ==> self.positions@[i].user_id != self.positions@[j].user_id
    }

    /// Conservation: the pool's running total equals the sum of the staked
    /// amounts over all positions.
    pub open spec fn conserves_total(self) -> bool {
        self.pool.total_staked == sum_amounts(self.positions@)
    }

    /// The invariant every operation preserves.
    pub open spec fn wf(self) -> bool {
        self.owners_distinct() && self.conserves_total()
    }

    /// Whether `owner` already has a position record.
    pub open spec fn has_position(self, owner: u64) -> bool {
        exists|i: int| 0 <= i < self.positions@.len() && self.positions@[i].user_id == owner
    }

    /// The index of `owner`'s position record.
    pub open spec fn position_index(self, owner: u64) -> int {
        choose|i: int| 0 <= i < self.positions@.len() && self.positions@[i].user_id == owner
    }

    /// `owner`'s position as the operations see it: the stored record, or
    /// an inactive position when none is stored yet.
    pub open spec fn position_of(self, owner: u64) -> UserStake {
        if self.has_position(owner) {
            self.positions@[self.position_index(owner)]
        } else {
            UserStake { user_id: owner, amount: 0, staked_at: 0, claimed_rewards: 0 }
        }
    }

    /// With distinct owners, the position stored at `i` is exactly what
    /// `position_of` denotes for its owner.
    pub proof fn lemma_position_at(self, i: int)
        requires
            self.owners_distinct(),
            0 <= i < self.positions@.len(),
        ensures
            self.has_position(self.positions@[i].user_id),
            self.position_index(self.positions@[i].user_id) == i,
            self.position_of(self.positions@[i].user_id) == self.positions@[i],
    {
        let owner = self.positions@[i].user_id;
        assert(self.has_position(owner));
        let j = self.position_index(owner);
        assert(0 <= j < self.positions@.len() && self.positions@[j].user_id == owner);
        if i < j {
            assert(self.positions@[i].user_id != self.positions@[j].user_id);
        } else if j < i {
            assert(self.positions@[j].user_id != self.positions@[i].user_id);
        }
    }

    /// Creates the deployment's pool with the given parameters, zeroed
    /// totals and no positions.  No cross-field validation is performed;
    /// that gap is deliberate (see [`ops::initialize`]).
    pub fn new(
        admin: u64,
        staking_start_time: i64,
        staking_end_time: i64,
        lock_duration: i64,
        apy: u64,
    ) -> (manager: StakeManager)
        ensures
            manager.wf(),
            manager.pool == (StakingAccount {
                admin,
                staking_start_time,
                staking_end_time,
                lock_duration,
                apy,
                total_staked: 0,
                total_rewards: 0,
            }),
            manager.positions@.len() == 0,
    {
        let pool = ops::initialize(admin, staking_start_time, staking_end_time, lock_duration, apy);
        StakeManager { pool, positions: Vec::new() }
    }

    /// The index of `owner`'s stored position, if any.
    fn find_position(&self, owner: u64) -> (found: Option<usize>)
        ensures
            match found {
                Some(i) => i < self.positions@.len() && self.positions@[i as int].user_id == owner,
                None => !self.has_position(owner),
            },
    {
        let mut i: usize = 0;
        while i < self.positions.len()
            invariant
                i <= self.positions@.len(),
                forall|j: int| 0 <= j < i ==> self.positions@[j].user_id != owner,
            decreases self.positions@.len() - i,
        {
            if self.positions[i].user_id == owner {
                return Some(i);
            }
            i = i + 1;
        }
        None
    }

    /// Deposits `amount` for `caller` at time `now`.
    ///
    /// The host has verified `caller`'s signature before this runs.
    /// Succeeds exactly when `now` lies inside the staking window and
    /// `caller` holds no active stake; the window is checked first.  On
    /// success the deposit the host must move into the vault is returned,
    /// `caller`'s position is overwritten and the pool's total grows by
    /// `amount`; no other participant's position changes, and the total
    /// still equals the sum of all positions.
    pub fn stake(&mut self, caller: u64, amount: u64, now: i64) -> (result: Result<
        TokenTransfer,
        StakingError,
    >)
        requires
            old(self).wf(),
            ops::in_staking_window(old(self).pool, now) && old(self).position_of(caller).amount == 0
                ==> old(self).pool.total_staked + amount <= u64::MAX,
        ensures
            final(self).wf(),
            result == Err::<TokenTransfer, StakingError>(StakingError::StakingPeriodInactive)
                <==> !ops::in_staking_window(old(self).pool, now),
            result == Err::<TokenTransfer, StakingError>(StakingError::ActiveStakeAlreadyExists)
                <==> ops::in_staking_window(old(self).pool, now)
                    && old(self).position_of(caller).amount > 0,
            result is Ok <==> ops::in_staking_window(old(self).pool, now)
                && old(self).position_of(caller).amount == 0,
            result is Ok ==> {
                &&& result == Ok::<TokenTransfer, StakingError>(TokenTransfer::deposit(caller, amount))
                &&& final(self).pool == (StakingAccount {
                    total_staked: (old(self).pool.total_staked + amount) as u64,
                    ..old(self).pool
                })
                &&& final(self).has_position(caller)
                &&& final(self).position_of(caller) == UserStake::staked(caller, amount, now)
            },
            result is Err ==> *final(self) == *old(self),
            forall|other: u64|
                other != caller ==> (final(self).has_position(other) <==> old(self).has_position(
                    other,
                )),
            forall|other: u64|
                other != caller ==> final(self).position_of(other) == old(self).position_of(other),
    {
        let found = self.find_position(caller);
        let mut position: UserStake = match found {
            Some(i) => self.positions[i],
            None => UserStake::empty(caller),
        };
        proof {
            if found is Some {
                old(self).lemma_position_at(found->0 as int);
            }
        }
        let mut pool: StakingAccount = self.pool;
        let result = ops::stake_tokens(&mut pool, &mut position, caller, amount, now);
        match result {
            Ok(transfer) => {
                self.pool = pool;
                match found {
                    Some(i) => {
                        proof {
                            lemma_sum_amounts_update(self.positions@, i as int, position);
                        }
                        self.positions.set(i, position);
                        proof {
                            lemma_store_update(*old(self), *self, i as int, position);
                        }
                    },
                    None => {
                        proof {
                            lemma_sum_amounts_push(self.positions@, position);
                        }
                        self.positions.push(position);
                        proof {
                            lemma_store_push(*old(self), *self, position);
                        }
                    },
                }
                Ok(transfer)
            },
            Err(e) => Err(e),
        }
    }

    /// Withdraws `amount` of `caller`'s staked value at time `now`.
    ///
    /// The host has verified `caller`'s signature before this runs.  Fails
    /// with `InsufficientBalance` exactly when `caller` holds less than
    /// `amount` (checked first), otherwise with `LockDurationNotPassed`
    /// exactly while `now` lies before the pool's lock release time.  On
    /// success the payout the host must move out of the vault is returned
    /// and both `caller`'s position and the pool's total shrink by exactly
    /// `amount`; no other participant's position changes.  That the pool's
    /// total covers `amount` follows from conservation, so no caller has to
    /// establish it.
    pub fn unstake(&mut self, caller: u64, amount: u64, now: i64) -> (result: Result<
        TokenTransfer,
        StakingError,
    >)
        requires
            old(self).wf(),
            amount <= old(self).position_of(caller).amount
                ==> i64::MIN <= ops::lock_release_time(old(self).pool) <= i64::MAX,
        ensures
            final(self).wf(),
            result == Err::<TokenTransfer, StakingError>(StakingError::InsufficientBalance)
                <==> amount > old(self).position_of(caller).amount,
            result == Err::<TokenTransfer, StakingError>(StakingError::LockDurationNotPassed)
                <==> amount <= old(self).position_of(caller).amount
                    && now < ops::lock_release_time(old(self).pool),
            result is Ok <==> amount <= old(self).position_of(caller).amount
                && now >= ops::lock_release_time(old(self).pool),
            result is Ok ==> {
                &&& result == Ok::<TokenTransfer, StakingError>(TokenTransfer::payout(caller, amount))
                &&& final(self).pool == (StakingAccount {
                    total_staked: (old(self).pool.total_staked - amount) as u64,
                    ..old(self).pool
                })
                &&& final(self).position_of(caller) == (UserStake {
                    amount: (old(self).position_of(caller).amount - amount) as u64,
                    ..old(self).position_of(caller)
                })
            },
            result is Err ==> *final(self) == *old(self),
            forall|other: u64|
                other != caller ==> (final(self).has_position(other) <==> old(self).has_position(
                    other,
                )),
            forall|other: u64|
                other != caller ==> final(self).position_of(other) == old(self).position_of(other),
    {
        let found = self.find_position(caller);
        let mut position: UserStake = match found {
            Some(i) => self.positions[i],
            None => UserStake::empty(caller),
        };
        proof {
            if found is Some {
                old(self).lemma_position_at(found->0 as int);
                lemma_sum_amounts_element_bound(self.positions@, found->0 as int);
            }
        }
        let mut pool: StakingAccount = self.pool;
        let result = ops::unstake_tokens(&mut pool, &mut position, amount, now);
        match result {
            Ok(transfer) => {
                self.pool = pool;
                match found {
                    Some(i) => {
                        proof {
                            lemma_sum_amounts_update(self.positions@, i as int, position);
                        }
                        self.positions.set(i, position);
                        proof {
                            lemma_store_update(*old(self), *self, i as int, position);
                        }
                    },
                    None => {
                        // `caller` holds nothing, so only `amount == 0` reaches
                        // this arm and there is no record to shrink.
                    },
                }
                Ok(transfer)
            },
            Err(e) => Err(e),
        }
    }

    /// Pays out the reward `caller`'s position has accrued by `now`.
    ///
    /// The host has verified `caller`'s signature before this runs.  Fails
    /// with `NoRewards` exactly when the accrued reward is not positive; on
    /// success the payout the host must move out of the vault is returned
    /// and both cumulative reward totals grow by the reward.  The staked
    /// amount, and with it conservation, is untouched; `staked_at` is not
    /// reset (see [`ops::claim_rewards`]).
    pub fn claim_rewards(&mut self, caller: u64, now: i64) -> (result: Result<
        TokenTransfer,
        StakingError,
    >)
        requires
            old(self).wf(),
            i64::MIN <= now - old(self).position_of(caller).staked_at <= i64::MAX,
            now - old(self).position_of(caller).staked_at > 0
                ==> old(self).position_of(caller).amount * old(self).pool.apy * (now - old(
                    self,
                ).position_of(caller).staked_at) <= u64::MAX,
            ops::reward_amount(
                old(self).position_of(caller).amount,
                old(self).pool.apy,
                old(self).position_of(caller).staked_at,
                now,
            ) > 0 ==> {
                &&& old(self).pool.total_rewards + ops::reward_amount(
                    old(self).position_of(caller).amount,
                    old(self).pool.apy,
                    old(self).position_of(caller).staked_at,
                    now,
                ) <= u64::MAX
                &&& old(self).position_of(caller).claimed_rewards + ops::reward_amount(
                    old(self).position_of(caller).amount,
                    old(self).pool.apy,
                    old(self).position_of(caller).staked_at,
                    now,
                ) <= u64::MAX
            },
        ensures
            final(self).wf(),
            result == Err::<TokenTransfer, StakingError>(StakingError::NoRewards)
                <==> ops::reward_amount(
                    old(self).position_of(caller).amount,
                    old(self).pool.apy,
                    old(self).position_of(caller).staked_at,
                    now,
                ) <= 0,
            result is Ok <==> ops::reward_amount(
                old(self).position_of(caller).amount,
                old(self).pool.apy,
                old(self).position_of(caller).staked_at,
                now,
            ) > 0,
            result is Ok ==> {
                let rewards = ops::reward_amount(
                    old(self).position_of(caller).amount,
                    old(self).pool.apy,
                    old(self).position_of(caller).staked_at,
                    now,
                );
                &&& result == Ok::<TokenTransfer, StakingError>(
                    TokenTransfer::payout(caller, rewards as u64),
                )
                &&& final(self).pool == (StakingAccount {
                    total_rewards: (old(self).pool.total_rewards + rewards) as u64,
                    ..old(self).pool
                })
                &&& final(self).position_of(caller) == (UserStake {
                    claimed_rewards: (old(self).position_of(caller).claimed_rewards + rewards) as u64,
                    ..old(self).position_of(caller)
                })
            },
            result is Err ==> *final(self) == *old(self),
            forall|other: u64|
                other != caller ==> (final(self).has_position(other) <==> old(self).has_position(
                    other,
                )),
            forall|other: u64|
                other != caller ==> final(self).position_of(other) == old(self).position_of(other),
    {
        let found = self.find_position(caller);
        let mut position: UserStake = match found {
            Some(i) => self.positions[i],
            None => UserStake::empty(caller),
        };
        proof {
            if found is Some {
                old(self).lemma_position_at(found->0 as int);
            }
        }
        let mut pool: StakingAccount = self.pool;
        let result = ops::claim_rewards(&mut pool, &mut position, now);
        match result {
            Ok(transfer) => {
                self.pool = pool;
                match found {
                    Some(i) => {
                        proof {
                            lemma_sum_amounts_update(self.positions@, i as int, position);
                        }
                        self.positions.set(i, position);
                        proof {
                            lemma_store_update(*old(self), *self, i as int, position);
                        }
                    },
                    None => {
                        // An absent position holds nothing and accrues
                        // nothing, so the claim cannot have succeeded.
                        proof {
                            vstd::arithmetic::mul::lemma_mul_by_zero_is_zero(old(self).pool.apy as int);
                            vstd::arithmetic::mul::lemma_mul_by_zero_is_zero(now - 0);
                            vstd::arithmetic::div_mod::lemma_div_of0(
                                100 * (ops::SECONDS_PER_YEAR as int),
                            );
                            assert(false);
                        }
                    },
                }
                Ok(transfer)
            },
            Err(e) => Err(e),
        }
    }

    /// Unconditionally overwrites the pool's window, lock and rate.
    ///
    /// Only the pool's admin may call this; the host authenticates the
    /// caller, so the check stands as a precondition.  Positions, totals
    /// and the admin itself are untouched.
    pub fn update_parameters(
        &mut self,
        caller: u64,
        new_staking_start_time: i64,
        new_staking_end_time: i64,
        new_lock_duration: i64,
        new_apy: u64,
    )
        requires
            old(self).wf(),
            caller == old(self).pool.admin,
        ensures
            final(self).wf(),
            final(self).pool == ops::with_parameters(
                old(self).pool,
                new_staking_start_time,
                new_staking_end_time,
                new_lock_duration,
                new_apy,
            ),
            final(self).positions == old(self).positions,
    {
        ops::admin_update_staking_parameters(
            &mut self.pool,
            caller,
            new_staking_start_time,
            new_staking_end_time,
            new_lock_duration,
            new_apy,
        );
    }
}

} // verus!

