//! Setting up and managing the configuration. Everything here but the
//! first set-up is for the administrator alone.

use vstd::prelude::*;
use crate::error::RichieError;
use crate::pubkey::Pubkey;
use crate::state::{Config, ConfigView, Stakes};

verus! {

/// The multipliers in percent that a new configuration starts with, for
/// the lock periods 1, 2, 4, 8 and 16.
pub open spec fn default_multipliers() -> Seq<u64> {
    seq![100u64, 120u64, 150u64, 200u64, 300u64]
}

/// The configuration of a new instance: `admin` administers it, nothing is
/// staked or carried forward, the epoch index is 0, the reward mint and
/// vault are not set yet, and the multipliers are [`default_multipliers`].
pub fn initialize_stake_vault(
    admin: Pubkey,
    stake_token_mint: Pubkey,
    stake_vault: Pubkey,
    now: i64,
    apr_bps: u64,
    epoch_duration: i64,
) -> (config: Config)
    ensures
        config@.admin == admin,
        config@.apr_bps == apr_bps,
        config@.epoch_duration == epoch_duration,
        config@.last_epoch_time == now,
        config@.stake_token_mint == stake_token_mint,
        config@.stake_vault == stake_vault,
        config@.reward_token_mint.is_unset(),
        config@.reward_vault.is_unset(),
        config@.total_staked == 0,
        config@.total_curve == 0,
        config@.index == 0,
        config@.multiplier == default_multipliers(),
        config.wf(),
{
    let multiplier: Vec<u64> = vec![100, 120, 150, 200, 300];
    assert(multiplier@ =~= default_multipliers());
    Config {
        admin,
        apr_bps,
        epoch_duration,
        last_epoch_time: now,
        stake_token_mint,
        stake_vault,
        reward_token_mint: Pubkey::default(),
        reward_vault: Pubkey::default(),
        total_staked: 0,
        total_curve: 0,
        index: 0,
        multiplier,
    }
}

/// Records the reward mint and the reward vault, and hands out the empty
/// ledger of stakers. Fails with `UnAuthorized`, exactly where `signer` is
/// not the administrator.
pub fn initialize_reward_vault(
    config: &mut Config,
    signer: Pubkey,
    reward_token_mint: Pubkey,
    reward_vault: Pubkey,
) -> (r: Result<Stakes, RichieError>)
    ensures
        match r {
            Ok(stakes) => {
                &&& signer == old(config).admin
                &&& stakes@ == Seq::<Pubkey>::empty()
                &&& stakes.wf()
                &&& final(config)@ == (ConfigView {
                    reward_token_mint,
                    reward_vault,
                    ..old(config)@
                })
            },
            Err(e) => {
                &&& signer != old(config).admin
                &&& e == RichieError::UnAuthorized
                &&& final(config)@ == old(config)@
            },
        },
{
    if signer != config.admin {
        return Err(RichieError::UnAuthorized);
    }
    config.reward_token_mint = reward_token_mint;
    config.reward_vault = reward_vault;
    Ok(Stakes::new())
}

/// Sets the duration of the epochs that are opened from now on. Fails with
/// `UnAuthorized`, exactly where `signer` is not the administrator.
pub fn update_epoch_duration(config: &mut Config, signer: Pubkey, duration: i64) -> (r: Result<
    (),
    RichieError,
>)
    ensures
        match r {
            Ok(_) => {
                &&& signer == old(config).admin
                &&& final(config)@ == (ConfigView { epoch_duration: duration, ..old(config)@ })
            },
            Err(e) => {
                &&& signer != old(config).admin
                &&& e == RichieError::UnAuthorized
                &&& final(config)@ == old(config)@
            },
        },
{
    if signer != config.admin {
        return Err(RichieError::UnAuthorized);
    }
    config.epoch_duration = duration;
    Ok(())
}

/// The reason for which a new multiplier table is turned down, if any.
pub open spec fn multiplier_rejection(config: ConfigView, signer: Pubkey, table: Seq<u64>) -> Option<
    RichieError,
> {
    if signer != config.admin {
        Some(RichieError::UnAuthorized)
    } else if table.len() > Config::MAX_MULTIPLIERS {
        Some(RichieError::TooManyMultipliers)
    } else {
        None
    }
}

/// Replaces the multiplier table. Entries that exist keep the multiplier
/// they were created with. The error, if any, is [`multiplier_rejection`].
pub fn update_multiplier(config: &mut Config, signer: Pubkey, new_multiplier: Vec<u64>) -> (r:
    Result<(), RichieError>)
    ensures
        match r {
            Ok(_) => {
                &&& multiplier_rejection(old(config)@, signer, new_multiplier@) is None
                &&& final(config)@ == (ConfigView { multiplier: new_multiplier@, ..old(config)@ })
                &&& final(config).wf()
            },
            Err(e) => {
                &&& multiplier_rejection(old(config)@, signer, new_multiplier@) == Some(e)
                &&& final(config)@ == old(config)@
            },
        },
{
    if signer != config.admin {
        return Err(RichieError::UnAuthorized);
    }
    if new_multiplier.len() > Config::MAX_MULTIPLIERS {
        return Err(RichieError::TooManyMultipliers);
    }
    config.multiplier = new_multiplier;
    Ok(())
}

} // verus!
