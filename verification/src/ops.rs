//! The five transitions of the staking state machine, on one pool record and
//! one position record.
//!
//! Each transition takes the verified current time as an argument and, when
//! value must move, returns the [`TokenTransfer`] the host has to perform.
//! A transition that returns an error leaves both records exactly as they
//! were.

use vstd::prelude::*;

use crate::errors::StakingError;
use crate::records::StakingAccount;
use crate::records::TokenTransfer;
use crate::records::TransferParty;
use crate::records::UserStake;

verus! {

/// Seconds in the fixed 365-day year the reward formula divides by.
pub const SECONDS_PER_YEAR: u64 = 31_536_000;

/// The reward formula divides by 100 (the rate is a percentage) times the
/// seconds of a year.
pub const REWARD_DENOMINATOR: u64 = 100 * 31_536_000;

/// The staking window is inclusive at both ends.
pub open spec fn in_staking_window(pool: StakingAccount, now: i64) -> bool {
    pool.staking_start_time <= now <= pool.staking_end_time
}

/// First instant at which withdrawals are allowed: the lock runs from the
/// pool's window start, shared by all participants, not from each deposit.
pub open spec fn lock_release_time(pool: StakingAccount) -> int {
    pool.staking_start_time + pool.lock_duration
}

/// The reward a position has accrued by `now`:
/// `floor(amount * apy * (now - staked_at) / (100 * 31_536_000))`, over
/// unbounded integers.  It is computed over the whole time since the last
/// stake, never reduced by rewards already paid.
pub open spec fn reward_amount(amount: u64, apy: u64, staked_at: i64, now: i64) -> int {
    (amount * apy * (now - staked_at)) / (100 * (SECONDS_PER_YEAR as int))
}

/// The pool record as a parameter update leaves it: the four
/// parameters overwritten, the admin and both totals untouched.
pub open spec fn with_parameters(
    pool: StakingAccount,
    staking_start_time: i64,
    staking_end_time: i64,
    lock_duration: i64,
    apy: u64,
) -> StakingAccount {
    StakingAccount { staking_start_time, staking_end_time, lock_duration, apy, ..pool }
}

/// Creates the pool record with the given parameters and zeroed totals.
///
/// No cross-field validation is performed: the window bounds may be in any
/// order and the rate may be any value.  That gap is deliberate and left to
/// callers.
pub fn initialize(
    admin: u64,
    staking_start_time: i64,
    staking_end_time: i64,
    lock_duration: i64,
    apy: u64,
) -> (pool: StakingAccount)
    ensures
        pool == (StakingAccount {
            admin,
            staking_start_time,
            staking_end_time,
            lock_duration,
            apy,
            total_staked: 0,
            total_rewards: 0,
        }),
{
    StakingAccount {
        admin,
        staking_start_time,
        staking_end_time,
        lock_duration,
        apy,
        total_staked: 0,
        total_rewards: 0,
    }
}

/// Unconditionally overwrites the window, lock and rate of the pool.
///
/// Only the pool's admin may call this; the host authenticates the caller,
/// so the check stands as a precondition.  Existing positions are untouched.
pub fn admin_update_staking_parameters(
    staking_account: &mut StakingAccount,
    caller: u64,
    new_staking_start_time: i64,
    new_staking_end_time: i64,
    new_lock_duration: i64,
    new_apy: u64,
)
    requires
        caller == old(staking_account).admin,
    ensures
        *final(staking_account) == with_parameters(
            *old(staking_account),
            new_staking_start_time,
            new_staking_end_time,
            new_lock_duration,
            new_apy,
        ),
{
    staking_account.staking_start_time = new_staking_start_time;
    staking_account.staking_end_time = new_staking_end_time;
    staking_account.lock_duration = new_lock_duration;
    staking_account.apy = new_apy;
}

/// Deposits `amount` into the position, owned by `user_id`, at time `now`.
///
/// Succeeds exactly when `now` lies inside the staking window and the
/// position holds no active stake; on success it returns the deposit the
/// host must move into the vault, overwrites the position and grows the
/// pool's total.  The window is checked first, so an out-of-window call
/// fails with `StakingPeriodInactive` whatever the position holds.
pub fn stake_tokens(
    staking_account: &mut StakingAccount,
    user_stake: &mut UserStake,
    user_id: u64,
    amount: u64,
    now: i64,
) -> (result: Result<TokenTransfer, StakingError>)
    requires
        in_staking_window(*old(staking_account), now) && old(user_stake).amount == 0
            ==> old(staking_account).total_staked + amount <= u64::MAX,
    ensures
        result == Err::<TokenTransfer, StakingError>(StakingError::StakingPeriodInactive)
            <==> !in_staking_window(*old(staking_account), now),
        result == Err::<TokenTransfer, StakingError>(StakingError::ActiveStakeAlreadyExists)
            <==> in_staking_window(*old(staking_account), now) && old(user_stake).amount > 0,
        result is Ok <==> in_staking_window(*old(staking_account), now) && old(user_stake).amount == 0,
        result is Ok ==> {
            &&& result == Ok::<TokenTransfer, StakingError>(TokenTransfer::deposit(user_id, amount))
            &&& *final(staking_account) == (StakingAccount {
                total_staked: (old(staking_account).total_staked + amount) as u64,
                ..*old(staking_account)
            })
            &&& *final(user_stake) == UserStake::staked(user_id, amount, now)
        },
        result is Err ==> {
            &&& *final(staking_account) == *old(staking_account)
            &&& *final(user_stake) == *old(user_stake)
        },
{
    if now < staking_account.staking_start_time || now > staking_account.staking_end_time {
        return Err(StakingError::StakingPeriodInactive);
    }
    if user_stake.amount > 0 {
        return Err(StakingError::ActiveStakeAlreadyExists);
    }
    staking_account.total_staked = staking_account.total_staked + amount;
    user_stake.user_id = user_id;
    user_stake.amount = amount;
    user_stake.staked_at = now;
    user_stake.claimed_rewards = 0;
    Ok(TokenTransfer {
        from: TransferParty::Participant(user_id),
        to: TransferParty::PoolVault,
        amount,
    })
}

/// Withdraws `amount` from the position at time `now`.
///
/// Fails with `InsufficientBalance` exactly when the position holds less
/// than `amount` (checked first); otherwise with `LockDurationNotPassed`
/// exactly while `now` lies before the pool's lock release time.  On
/// success it returns the payout the host must move out of the vault and
/// shrinks both the position and the pool's total by exactly `amount`.
pub fn unstake_tokens(
    staking_account: &mut StakingAccount,
    user_stake: &mut UserStake,
    amount: u64,
    now: i64,
) -> (result: Result<TokenTransfer, StakingError>)
    requires
        amount <= old(user_stake).amount
            ==> i64::MIN <= lock_release_time(*old(staking_account)) <= i64::MAX,
        amount <= old(user_stake).amount && now >= lock_release_time(*old(staking_account))
            ==> amount <= old(staking_account).total_staked,
    ensures
        result == Err::<TokenTransfer, StakingError>(StakingError::InsufficientBalance)
            <==> amount > old(user_stake).amount,
        result == Err::<TokenTransfer, StakingError>(StakingError::LockDurationNotPassed)
            <==> amount <= old(user_stake).amount && now < lock_release_time(*old(staking_account)),
        result is Ok <==> amount <= old(user_stake).amount
            && now >= lock_release_time(*old(staking_account)),
        result is Ok ==> {
            &&& result == Ok::<TokenTransfer, StakingError>(
                TokenTransfer::payout(old(user_stake).user_id, amount),
            )
            &&& *final(staking_account) == (StakingAccount {
                total_staked: (old(staking_account).total_staked - amount) as u64,
                ..*old(staking_account)
            })
            &&& *final(user_stake) == (UserStake {
                amount: (old(user_stake).amount - amount) as u64,
                ..*old(user_stake)
            })
        },
        result is Err ==> {
            &&& *final(staking_account) == *old(staking_account)
            &&& *final(user_stake) == *old(user_stake)
        },
{
    if user_stake.amount < amount {
        return Err(StakingError::InsufficientBalance);
    }
    if now < staking_account.staking_start_time + staking_account.lock_duration {
        return Err(StakingError::LockDurationNotPassed);
    }
    staking_account.total_staked = staking_account.total_staked - amount;
    user_stake.amount = user_stake.amount - amount;
    Ok(TokenTransfer {
        from: TransferParty::PoolVault,
        to: TransferParty::Participant(user_stake.user_id),
        amount,
    })
}

/// Pays out the reward the position has accrued by `now`.
///
/// Fails with `NoRewards` exactly when the accrued reward is not positive;
/// otherwise it returns the payout the host must move out of the vault and
/// grows both cumulative totals by the reward.  `staked_at` is deliberately
/// not reset: a later claim recomputes the reward over the whole time since
/// the stake, so repeated claims re-earn overlapping intervals.  That is a
/// deliberate property of this design, stated here so nobody "fixes" it.
pub fn claim_rewards(
    staking_account: &mut StakingAccount,
    user_stake: &mut UserStake,
    now: i64,
) -> (result: Result<TokenTransfer, StakingError>)
    requires
        i64::MIN <= now - old(user_stake).staked_at <= i64::MAX,
        now - old(user_stake).staked_at > 0
            ==> old(user_stake).amount * old(staking_account).apy * (now - old(user_stake).staked_at)
                <= u64::MAX,
        reward_amount(old(user_stake).amount, old(staking_account).apy, old(user_stake).staked_at, now) > 0
            ==> {
                &&& old(staking_account).total_rewards + reward_amount(
                    old(user_stake).amount,
                    old(staking_account).apy,
                    old(user_stake).staked_at,
                    now,
                ) <= u64::MAX
                &&& old(user_stake).claimed_rewards + reward_amount(
                    old(user_stake).amount,
                    old(staking_account).apy,
                    old(user_stake).staked_at,
                    now,
                ) <= u64::MAX
            },
    ensures
        result == Err::<TokenTransfer, StakingError>(StakingError::NoRewards)
            <==> reward_amount(
                old(user_stake).amount,
                old(staking_account).apy,
                old(user_stake).staked_at,
                now,
            ) <= 0,
        result is Ok <==> reward_amount(
            old(user_stake).amount,
            old(staking_account).apy,
            old(user_stake).staked_at,
            now,
        ) > 0,
        result is Ok ==> {
            let rewards = reward_amount(
                old(user_stake).amount,
                old(staking_account).apy,
                old(user_stake).staked_at,
                now,
            );
            &&& result == Ok::<TokenTransfer, StakingError>(
                TokenTransfer::payout(old(user_stake).user_id, rewards as u64),
            )
            &&& *final(staking_account) == (StakingAccount {
                total_rewards: (old(staking_account).total_rewards + rewards) as u64,
                ..*old(staking_account)
            })
            &&& *final(user_stake) == (UserStake {
                claimed_rewards: (old(user_stake).claimed_rewards + rewards) as u64,
                ..*old(user_stake)
            })
        },
        result is Err ==> {
            &&& *final(staking_account) == *old(staking_account)
            &&& *final(user_stake) == *old(user_stake)
        },
{
    let staking_duration: i64 = now - user_stake.staked_at;
    if staking_duration <= 0 {
        proof {
            lemma_reward_nonpositive_duration(
                user_stake.amount,
                staking_account.apy,
                user_stake.staked_at,
                now,
            );
        }
        return Err(StakingError::NoRewards);
    }
    proof {
        lemma_product_intermediate_fits(
            old(user_stake).amount,
            old(staking_account).apy,
            now - old(user_stake).staked_at,
        );
    }
    let scaled: u64 = user_stake.amount * staking_account.apy;
    let product: u64 = scaled * (staking_duration as u64);
    let rewards: u64 = product / REWARD_DENOMINATOR;
    if rewards == 0 {
        return Err(StakingError::NoRewards);
    }
    staking_account.total_rewards = staking_account.total_rewards + rewards;
    user_stake.claimed_rewards = user_stake.claimed_rewards + rewards;
    Ok(TokenTransfer {
        from: TransferParty::PoolVault,
        to: TransferParty::Participant(user_stake.user_id),
        amount: rewards,
    })
}

/// A stake held for no time, or measured against a clock that went
/// backwards, has accrued nothing: the reward is not positive.
proof fn lemma_reward_nonpositive_duration(amount: u64, apy: u64, staked_at: i64, now: i64)
    requires
        now - staked_at <= 0,
    ensures
        reward_amount(amount, apy, staked_at, now) <= 0,
{
    assert(amount * apy * (now - staked_at) <= 0) by (nonlinear_arith)
        requires
            amount >= 0,
            apy >= 0,
            now - staked_at <= 0,
    ;
    vstd::arithmetic::div_mod::lemma_div_is_ordered(
        amount * apy * (now - staked_at),
        0,
        100 * (SECONDS_PER_YEAR as int),
    );
    vstd::arithmetic::div_mod::lemma_div_of0(100 * (SECONDS_PER_YEAR as int));
}

/// When the full reward product fits a `u64` and the duration is at least
/// one second, the partial product of amount and rate fits too.
proof fn lemma_product_intermediate_fits(amount: u64, apy: u64, duration: int)
    requires
        duration >= 1,
        amount * apy * duration <= u64::MAX,
    ensures
        amount * apy <= u64::MAX,
{
    assert(amount * apy <= amount * apy * duration) by (nonlinear_arith)
        requires
            duration >= 1,
            amount >= 0,
            apy >= 0,
    ;
}

/// Overwriting the parameters a second time with the same values changes
/// nothing: the pool after two identical updates equals the pool after one.
pub proof fn lemma_update_parameters_idempotent(
    pool: StakingAccount,
    staking_start_time: i64,
    staking_end_time: i64,
    lock_duration: i64,
    apy: u64,
)
    ensures
        with_parameters(
            with_parameters(pool, staking_start_time, staking_end_time, lock_duration, apy),
            staking_start_time,
            staking_end_time,
            lock_duration,
            apy,
        ) == with_parameters(pool, staking_start_time, staking_end_time, lock_duration, apy),
{
}

} // verus!
