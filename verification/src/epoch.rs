//! Epoch turnover: the administrator closes the running epoch index and
//! opens the record of the next epoch.

use vstd::prelude::*;
use crate::curve::{fits_i64, PRE_LAUNCH_WINDOW};
use crate::error::RichieError;
use crate::pubkey::Pubkey;
use crate::state::{Config, ConfigView, Epoch};

verus! {

/// What a turnover hands to the host: the record of the epoch it opened,
/// and the reward tokens that the administrator owes to the reward vault.
#[derive(Clone, Copy, Debug, PartialEq, Eq, Structural)]
pub struct Turnover {
    /// The record to store under the epoch index.
    pub epoch: Epoch,
    /// Reward tokens owed to the reward vault; zero for the pre-launch
    /// window, which moves no tokens.
    pub funding: u64,
}

/// The duration of the epoch opened under `index`: six hours for the
/// pre-launch window, the configured duration for every other epoch.
pub open spec fn duration_of(epoch_duration: i64, index: u64) -> i64 {
    if index == 0 {
        PRE_LAUNCH_WINDOW
    } else {
        epoch_duration
    }
}

/// The record of the epoch that a turnover under `index` opens at `now`:
/// it takes over the principal staked and the curve carried forward, and
/// nothing of it is claimable yet.
pub open spec fn opened_epoch(config: ConfigView, now: i64, index: u64, reward_amount: u64) -> Epoch {
    Epoch {
        index,
        staked_start_time: now,
        stake_duration: duration_of(config.epoch_duration, index),
        staked_end_time: (now + duration_of(config.epoch_duration, index)) as i64,
        reward: reward_amount,
        total_curve: config.total_curve,
        total_staked_amount: config.total_staked,
        claimable: false,
    }
}

/// The reason for which a turnover is turned down, if any. The checks
/// stand in the order in which they are made.
pub open spec fn toggle_rejection(
    config: ConfigView,
    signer: Pubkey,
    now: i64,
    index: u64,
    reward_amount: u64,
) -> Option<RichieError> {
    if signer != config.admin {
        Some(RichieError::UnAuthorized)
    } else if index != config.index {
        Some(RichieError::InvalidEpochIndex)
    } else if config.index + 1 > u64::MAX {
        Some(RichieError::ArithmeticOverflow)
    } else if (index == 0) != (reward_amount == 0) {
        Some(RichieError::InvalidRewardAmount)
    } else if duration_of(config.epoch_duration, index) <= 0 {
        Some(RichieError::InvalidEpochDuration)
    } else if !fits_i64(now + duration_of(config.epoch_duration, index)) {
        Some(RichieError::ArithmeticOverflow)
    } else {
        None
    }
}

/// Opens the epoch `index` at `now` and moves the current epoch index on
/// by one.
///
/// Only the administrator may do so, and only for the current index. The
/// pre-launch window, index 0, takes no reward budget; every later epoch
/// needs one, and a configured duration above zero, so that every epoch
/// ends after it starts. The new record freezes the curve carried forward
/// as its denominator, and the carry-forward starts again at zero. The
/// error, if any, is [`toggle_rejection`].
pub fn toggle(config: &mut Config, signer: Pubkey, now: i64, index: u64, reward_amount: u64) -> (r:
    Result<Turnover, RichieError>)
    ensures
        match r {
            Ok(turnover) => {
                &&& toggle_rejection(old(config)@, signer, now, index, reward_amount) is None
                &&& turnover.epoch == opened_epoch(old(config)@, now, index, reward_amount)
                &&& turnover.epoch.wf()
                &&& turnover.funding == reward_amount
                &&& final(config)@ == (ConfigView {
                    index: (old(config).index + 1) as u64,
                    total_curve: 0,
                    ..old(config)@
                })
                &&& old(config).wf() ==> final(config).wf()
            },
            Err(e) => {
                &&& toggle_rejection(old(config)@, signer, now, index, reward_amount) == Some(e)
                &&& final(config)@ == old(config)@
            },
        },
{
    if signer != config.admin {
        return Err(RichieError::UnAuthorized);
    }
    if index != config.index {
        return Err(RichieError::InvalidEpochIndex);
    }
    let next_index = match config.index.checked_add(1) {
        Some(next) => next,
        None => {
            return Err(RichieError::ArithmeticOverflow);
        },
    };
    let duration: i64;
    if index == 0 {
        duration = PRE_LAUNCH_WINDOW;
        if reward_amount != 0 {
            return Err(RichieError::InvalidRewardAmount);
        }
    } else {
        duration = config.epoch_duration;
        if reward_amount == 0 {
            return Err(RichieError::InvalidRewardAmount);
        }
    }
    if duration <= 0 {
        return Err(RichieError::InvalidEpochDuration);
    }
    let end = match now.checked_add(duration) {
        Some(end) => end,
        None => {
            return Err(RichieError::ArithmeticOverflow);
        },
    };
    let epoch = Epoch {
        index,
        staked_start_time: now,
        stake_duration: duration,
        staked_end_time: end,
        reward: reward_amount,
        total_curve: config.total_curve,
        total_staked_amount: config.total_staked,
        claimable: false,
    };
    config.index = next_index;
    config.total_curve = 0;
    Ok(Turnover { epoch, funding: reward_amount })
}

} // verus!
