//! The validation errors a staking transition can fail with.

use vstd::prelude::*;

verus! {

/// Why a staking transition was rejected.  Every error aborts the whole
/// operation: a transition that fails leaves both records unchanged.
#[derive(Clone, Copy, Debug, PartialEq, Eq, Structural)]
pub enum StakingError {
    /// The current time lies outside the pool's staking window.
    StakingPeriodInactive,
    /// The position already holds an active stake.
    ActiveStakeAlreadyExists,
    /// The pool's lock period has not elapsed yet.
    LockDurationNotPassed,
    /// The position holds less than the amount asked for.
    InsufficientBalance,
    /// The accrued reward is not positive.
    NoRewards,
}

impl StakingError {
    /// The fixed user-facing message of each error.
    pub fn message(&self) -> (m: &'static str)
        ensures
            *self == StakingError::StakingPeriodInactive ==> m@ == "The staking period is not active."@,
            *self == StakingError::ActiveStakeAlreadyExists ==> m@ == "User already has an active stake."@,
            *self == StakingError::LockDurationNotPassed ==> m@ == "Lock duration period not yet passed."@,
            *self == StakingError::InsufficientBalance ==> m@ == "Insufficient balance."@,
            *self == StakingError::NoRewards ==> m@ == "No rewards to claim."@,
    {
        match self {
            StakingError::StakingPeriodInactive => "The staking period is not active.",
            StakingError::ActiveStakeAlreadyExists => "User already has an active stake.",
            StakingError::LockDurationNotPassed => "Lock duration period not yet passed.",
            StakingError::InsufficientBalance => "Insufficient balance.",
            StakingError::NoRewards => "No rewards to claim.",
        }
    }
}

} // verus!
