//! The reasons for which an operation is turned down.

use vstd::prelude::*;

verus! {

/// Why an operation was rejected. A rejected operation changes nothing.
#[derive(Clone, Copy, Debug, PartialEq, Eq, Structural)]
pub enum RichieError {
    /// The signer is not the administrator.
    UnAuthorized,
    /// More multipliers than the table has lock periods.
    TooManyMultipliers,
    /// Not enough tokens staked. Kept for callers that match on it; no
    /// operation returns it.
    InsufficientStake,
    /// The epoch duration has not passed yet. Kept for callers that match
    /// on it; no operation returns it.
    EpochTooSoon,
    /// A claim with nothing pending.
    NoReward,
    /// A deposit outside the epoch's deposit window.
    InvalidStakeTime,
    /// The index argument is not the current epoch index.
    InvalidEpochIndex,
    /// The stake account is not in the ledger of stakers.
    InvalidUserStake,
    /// The reward was already calculated. Kept for callers that match on
    /// it: a repeated settlement skips what is settled and succeeds.
    AlreadyCalculated,
    /// Settlement was asked for before the epoch was over.
    UnFinishedEpoch,
    /// The lock period is not one the multiplier table knows, or it is not
    /// 1 in the pre-launch window.
    InvalidLockPeriod,
    /// A withdrawal that would pay out nothing.
    NothingToWithdraw,
    /// A reward budget for the pre-launch window, or none for a later epoch.
    InvalidRewardAmount,
    /// A deposit of nothing with which nothing else is wrong.
    InvalidAmount,
    /// A sum, a product or a difference left the range of its integer type.
    ArithmeticOverflow,
    /// The staker already holds as many entries as a stake account takes.
    TooManyStakeEntries,
    /// The ledger of stakers is full.
    TooManyStakers,
    /// An epoch that would not end after it starts: the configured duration
    /// is zero or negative.
    InvalidEpochDuration,
}

} // verus!
