use staking_program::errors::StakingError;
use staking_program::ops;
use staking_program::records::StakingAccount;
use staking_program::records::TokenTransfer;
use staking_program::records::TransferParty;
use staking_program::records::UserStake;

const T0: i64 = 1_000;
const YEAR: i64 = 31_536_000;

fn fresh_position(user_id: u64) -> UserStake {
    UserStake { user_id, amount: 0, staked_at: 0, claimed_rewards: 0 }
}

#[test]
fn initialize_zeroes_totals_and_keeps_parameters() {
    let pool = ops::initialize(9, T0, T0 + 1_000, 7, 20);
    assert_eq!(pool.admin, 9);
    assert_eq!(pool.staking_start_time, T0);
    assert_eq!(pool.staking_end_time, T0 + 1_000);
    assert_eq!(pool.lock_duration, 7);
    assert_eq!(pool.apy, 20);
    assert_eq!(pool.total_staked, 0);
    assert_eq!(pool.total_rewards, 0);
}

#[test]
fn initialize_performs_no_cross_field_validation() {
    let pool = ops::initialize(9, T0 + 1_000, T0, -5, 0);
    assert_eq!(pool.staking_start_time, T0 + 1_000);
    assert_eq!(pool.staking_end_time, T0);
    assert_eq!(pool.lock_duration, -5);
    assert_eq!(pool.apy, 0);
}

#[test]
fn stake_inside_window_moves_deposit_into_vault() {
    let mut pool = ops::initialize(9, T0, T0 + 1_000, 0, 20);
    let mut position = fresh_position(7);
    let result = ops::stake_tokens(&mut pool, &mut position, 7, 1_000, T0 + 10);
    assert_eq!(
        result,
        Ok(TokenTransfer {
            from: TransferParty::Participant(7),
            to: TransferParty::PoolVault,
            amount: 1_000,
        })
    );
    assert_eq!(pool.total_staked, 1_000);
    assert_eq!(
        position,
        UserStake { user_id: 7, amount: 1_000, staked_at: T0 + 10, claimed_rewards: 0 }
    );
}

#[test]
fn stake_before_window_fails_staking_period_inactive() {
    let mut pool = ops::initialize(9, T0, T0 + 1_000, 0, 20);
    let mut position = fresh_position(7);
    let result = ops::stake_tokens(&mut pool, &mut position, 7, 100, T0 - 1);
    assert_eq!(result, Err(StakingError::StakingPeriodInactive));
    assert_eq!(pool.total_staked, 0);
    assert_eq!(position.amount, 0);
}

#[test]
fn stake_after_window_fails_staking_period_inactive() {
    let mut pool = ops::initialize(9, T0, T0 + 1_000, 0, 20);
    let mut position = fresh_position(7);
    let result = ops::stake_tokens(&mut pool, &mut position, 7, 100, T0 + 1_001);
    assert_eq!(result, Err(StakingError::StakingPeriodInactive));
}

#[test]
fn second_stake_on_active_position_fails() {
    let mut pool = ops::initialize(9, T0, T0 + 1_000, 0, 20);
    let mut position = fresh_position(7);
    ops::stake_tokens(&mut pool, &mut position, 7, 500, T0 + 5).unwrap();
    let result = ops::stake_tokens(&mut pool, &mut position, 7, 100, T0 + 6);
    assert_eq!(result, Err(StakingError::ActiveStakeAlreadyExists));
    assert_eq!(position.amount, 500);
    assert_eq!(pool.total_staked, 500);
}

#[test]
fn unstake_more_than_staked_fails_insufficient_balance() {
    let mut pool = ops::initialize(9, T0, T0 + 1_000, 0, 20);
    let mut position = fresh_position(7);
    ops::stake_tokens(&mut pool, &mut position, 7, 500, T0 + 5).unwrap();
    let result = ops::unstake_tokens(&mut pool, &mut position, 600, T0 + 50);
    assert_eq!(result, Err(StakingError::InsufficientBalance));
    assert_eq!(position.amount, 500);
}

#[test]
fn unstake_before_lock_release_fails() {
    let mut pool = ops::initialize(9, T0, T0 + 1_000, 100, 20);
    let mut position = fresh_position(7);
    ops::stake_tokens(&mut pool, &mut position, 7, 500, T0 + 5).unwrap();
    let result = ops::unstake_tokens(&mut pool, &mut position, 500, T0 + 50);
    assert_eq!(result, Err(StakingError::LockDurationNotPassed));
    assert_eq!(position.amount, 500);
    assert_eq!(pool.total_staked, 500);
}

#[test]
fn insufficient_balance_is_checked_before_the_lock() {
    let mut pool = ops::initialize(9, T0, T0 + 1_000, 100, 20);
    let mut position = fresh_position(7);
    ops::stake_tokens(&mut pool, &mut position, 7, 500, T0 + 5).unwrap();
    let result = ops::unstake_tokens(&mut pool, &mut position, 600, T0 + 50);
    assert_eq!(result, Err(StakingError::InsufficientBalance));
}

#[test]
fn partial_unstake_shrinks_position_and_total() {
    let mut pool = ops::initialize(9, T0, T0 + 1_000, 100, 20);
    let mut position = fresh_position(7);
    ops::stake_tokens(&mut pool, &mut position, 7, 500, T0 + 5).unwrap();
    let result = ops::unstake_tokens(&mut pool, &mut position, 200, T0 + 100);
    assert_eq!(
        result,
        Ok(TokenTransfer {
            from: TransferParty::PoolVault,
            to: TransferParty::Participant(7),
            amount: 200,
        })
    );
    assert_eq!(position.amount, 300);
    assert_eq!(pool.total_staked, 300);
}

#[test]
fn lock_runs_from_window_start_not_from_the_deposit() {
    let mut pool = ops::initialize(9, T0, T0 + 1_000, 100, 20);
    let mut position = fresh_position(7);
    // Deposited late in the window: the lock has already released at
    // T0 + 100, well before staked_at + 100.
    ops::stake_tokens(&mut pool, &mut position, 7, 500, T0 + 900).unwrap();
    let result = ops::unstake_tokens(&mut pool, &mut position, 500, T0 + 901);
    assert!(result.is_ok());
}

#[test]
fn full_unstake_then_stake_again_succeeds() {
    let mut pool = ops::initialize(9, T0, T0 + 1_000, 0, 20);
    let mut position = fresh_position(7);
    ops::stake_tokens(&mut pool, &mut position, 7, 500, T0 + 5).unwrap();
    ops::unstake_tokens(&mut pool, &mut position, 500, T0 + 6).unwrap();
    assert_eq!(position.amount, 0);
    assert_eq!(pool.total_staked, 0);
    let result = ops::stake_tokens(&mut pool, &mut position, 7, 300, T0 + 7);
    assert!(result.is_ok());
    assert_eq!(position.amount, 300);
    assert_eq!(position.staked_at, T0 + 7);
    assert_eq!(pool.total_staked, 300);
}

#[test]
fn one_year_at_twenty_percent_yields_one_fifth() {
    let mut pool = ops::initialize(9, T0, T0 + 1_000, 0, 20);
    let mut position = fresh_position(7);
    ops::stake_tokens(&mut pool, &mut position, 7, 1_000, T0 + 10).unwrap();
    let result = ops::claim_rewards(&mut pool, &mut position, T0 + 10 + YEAR);
    assert_eq!(
        result,
        Ok(TokenTransfer {
            from: TransferParty::PoolVault,
            to: TransferParty::Participant(7),
            amount: 200,
        })
    );
    assert_eq!(pool.total_rewards, 200);
    assert_eq!(position.claimed_rewards, 200);
    assert_eq!(position.amount, 1_000);
    assert_eq!(position.staked_at, T0 + 10);
}

#[test]
fn reward_is_truncated_down() {
    let mut pool = ops::initialize(9, T0, T0 + 1_000, 0, 10);
    let mut position = fresh_position(7);
    ops::stake_tokens(&mut pool, &mut position, 7, 155, T0 + 10).unwrap();
    // 155 * 10 / 100 = 15.5, truncated to 15 after one year.
    let result = ops::claim_rewards(&mut pool, &mut position, T0 + 10 + YEAR);
    assert_eq!(result.unwrap().amount, 15);
}

#[test]
fn zero_reward_fails_no_rewards() {
    let mut pool = ops::initialize(9, T0, T0 + 1_000, 0, 20);
    let mut position = fresh_position(7);
    ops::stake_tokens(&mut pool, &mut position, 7, 1_000, T0 + 10).unwrap();
    let result = ops::claim_rewards(&mut pool, &mut position, T0 + 10);
    assert_eq!(result, Err(StakingError::NoRewards));
    assert_eq!(pool.total_rewards, 0);
    assert_eq!(position.claimed_rewards, 0);
}

#[test]
fn tiny_stake_earns_nothing_in_a_year() {
    let mut pool = ops::initialize(9, T0, T0 + 1_000, 0, 1);
    let mut position = fresh_position(7);
    ops::stake_tokens(&mut pool, &mut position, 7, 1, T0 + 10).unwrap();
    // 1 * 1 * YEAR / (100 * YEAR) = 0.01, truncated to 0.
    let result = ops::claim_rewards(&mut pool, &mut position, T0 + 10 + YEAR);
    assert_eq!(result, Err(StakingError::NoRewards));
}

#[test]
fn repeated_claims_recompute_over_the_full_duration() {
    let mut pool = ops::initialize(9, T0, T0 + 1_000, 0, 20);
    let mut position = fresh_position(7);
    ops::stake_tokens(&mut pool, &mut position, 7, 1_000, T0 + 10).unwrap();
    let first = ops::claim_rewards(&mut pool, &mut position, T0 + 10 + YEAR);
    assert_eq!(first.unwrap().amount, 200);
    // staked_at is not reset, so the second claim pays over both years.
    let second = ops::claim_rewards(&mut pool, &mut position, T0 + 10 + 2 * YEAR);
    assert_eq!(second.unwrap().amount, 400);
    assert_eq!(position.claimed_rewards, 600);
    assert_eq!(pool.total_rewards, 600);
}

#[test]
fn update_parameters_overwrites_only_the_parameters() {
    let mut pool = ops::initialize(9, T0, T0 + 1_000, 0, 20);
    let mut position = fresh_position(7);
    ops::stake_tokens(&mut pool, &mut position, 7, 500, T0 + 5).unwrap();
    ops::admin_update_staking_parameters(&mut pool, 9, T0 + 50, T0 + 2_000, 30, 12);
    assert_eq!(
        pool,
        StakingAccount {
            admin: 9,
            staking_start_time: T0 + 50,
            staking_end_time: T0 + 2_000,
            lock_duration: 30,
            apy: 12,
            total_staked: 500,
            total_rewards: 0,
        }
    );
    // Existing positions are untouched.
    assert_eq!(position.amount, 500);
    assert_eq!(position.staked_at, T0 + 5);
}

#[test]
fn updating_parameters_twice_with_the_same_values_changes_nothing() {
    let mut pool = ops::initialize(9, T0, T0 + 1_000, 0, 20);
    ops::admin_update_staking_parameters(&mut pool, 9, T0 + 50, T0 + 2_000, 30, 12);
    let after_first = pool;
    ops::admin_update_staking_parameters(&mut pool, 9, T0 + 50, T0 + 2_000, 30, 12);
    assert_eq!(pool, after_first);
}

#[test]
fn error_messages_are_fixed() {
    assert_eq!(
        StakingError::StakingPeriodInactive.message(),
        "The staking period is not active."
    );
    assert_eq!(
        StakingError::ActiveStakeAlreadyExists.message(),
        "User already has an active stake."
    );
    assert_eq!(
        StakingError::LockDurationNotPassed.message(),
        "Lock duration period not yet passed."
    );
    assert_eq!(StakingError::InsufficientBalance.message(), "Insufficient balance.");
    assert_eq!(StakingError::NoRewards.message(), "No rewards to claim.");
}
