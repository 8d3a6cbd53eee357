//! A token-staking ledger.
//!
//! A pool administrator opens a staking window, sets a withdrawal lock and a
//! reward rate; participants deposit fungible value, later withdraw it and
//! claim accrued rewards.  The library holds the staking state machine: the
//! pool and position records, the five transitions (initialize, stake,
//! unstake, claim rewards, update parameters), their timing rules and their
//! reward arithmetic.  Moving the actual value between accounts, supplying
//! the current time, authenticating callers and persisting the records are
//! the host's job: every transition takes the verified current time as an
//! argument and, when value must move, returns the transfer the host has to
//! perform.

pub mod errors;
pub mod manager;
pub mod ops;
pub mod records;
