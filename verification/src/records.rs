//! The two persistent records of the staking ledger, and the transfer a
//! transition asks the host's token ledger to perform.
//!
//! Identities (the pool administrator, a position's owner, a ledger account)
//! are plain numeric account ids; the host maps them to whatever key
//! material it uses.

use vstd::prelude::*;

verus! {

/// The singleton pool record: global parameters and aggregate totals.
#[derive(Clone, Copy, Debug, PartialEq, Eq, Structural)]
pub struct StakingAccount {
    /// Identity allowed to create the pool and overwrite its parameters.
    pub admin: u64,
    /// First instant (Unix seconds) at which `stake_tokens` is allowed.
    pub staking_start_time: i64,
    /// Last instant (Unix seconds) at which `stake_tokens` is allowed.
    pub staking_end_time: i64,
    /// Seconds, counted from `staking_start_time`, before `unstake_tokens`
    /// is allowed.  The lock is shared by all participants relative to the
    /// pool's window start, not measured from each deposit.
    pub lock_duration: i64,
    /// Integer annual percentage rate (20% is stored as 20).
    pub apy: u64,
    /// Sum of `amount` over all positions of this pool.
    pub total_staked: u64,
    /// Cumulative rewards disbursed across all claims.
    pub total_rewards: u64,
}

/// One participant's stake: their currently deposited value and its history.
#[derive(Clone, Copy, Debug, PartialEq, Eq, Structural)]
pub struct UserStake {
    /// Identity of the participant who owns this position.
    pub user_id: u64,
    /// Currently staked value; `0` means the position is inactive.
    pub amount: u64,
    /// Time (Unix seconds) of the most recent successful stake.
    pub staked_at: i64,
    /// Cumulative rewards this position has received.
    pub claimed_rewards: u64,
}

impl UserStake {
    /// The position is active exactly while it holds value.
    pub open spec fn is_active(self) -> bool {
        self.amount > 0
    }

    /// The record a successful stake writes: the full amount, deposited at
    /// `staked_at`, with no rewards claimed yet.
    pub open spec fn staked(user_id: u64, amount: u64, staked_at: i64) -> UserStake {
        UserStake { user_id, amount, staked_at, claimed_rewards: 0 }
    }

    /// An inactive position owned by `user_id`.
    pub fn empty(user_id: u64) -> (position: UserStake)
        ensures
            position == (UserStake { user_id, amount: 0, staked_at: 0, claimed_rewards: 0 }),
    {
        UserStake { user_id, amount: 0, staked_at: 0, claimed_rewards: 0 }
    }
}

/// One side of a value transfer on the host's token ledger.
#[derive(Clone, Copy, Debug, PartialEq, Eq, Structural)]
pub enum TransferParty {
    /// A participant's own ledger account, controlled by that participant.
    Participant(u64),
    /// The account holding all staked value and reward funds, controlled by
    /// the staking system itself.
    PoolVault,
}

/// The transfer a successful transition asks the host to perform, authorized
/// by whoever controls `from`.  If the host's ledger refuses it, the host
/// must discard the records the transition returned and keep the old ones:
/// an operation either moves the value and mutates the records, or does
/// neither.
#[derive(Clone, Copy, Debug, PartialEq, Eq, Structural)]
pub struct TokenTransfer {
    /// Account the value leaves.
    pub from: TransferParty,
    /// Account the value reaches.
    pub to: TransferParty,
    /// How much value moves.
    pub amount: u64,
}

impl TokenTransfer {
    /// The transfer a stake asks for: the deposit moves into the vault.
    pub open spec fn deposit(owner: u64, amount: u64) -> TokenTransfer {
        TokenTransfer { from: TransferParty::Participant(owner), to: TransferParty::PoolVault, amount }
    }

    /// The transfer an unstake or a claim asks for: value leaves the vault
    /// for its owner.
    pub open spec fn payout(owner: u64, amount: u64) -> TokenTransfer {
        TokenTransfer { from: TransferParty::PoolVault, to: TransferParty::Participant(owner), amount }
    }
}

} // verus!
