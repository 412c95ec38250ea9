//! Settlement of an epoch that is over.

use richie::{
    manage_staker_reward, Config, Epoch, Pubkey, RichieError, StakeEntry, Stakes, UserStake,
};

fn key(n: u8) -> Pubkey {
    Pubkey { bytes: [n; 32] }
}

fn config(index: u64) -> Config {
    Config {
        admin: key(1),
        apr_bps: 0,
        epoch_duration: 3_600,
        last_epoch_time: 0,
        stake_token_mint: key(2),
        stake_vault: key(3),
        reward_token_mint: key(4),
        reward_vault: key(5),
        total_staked: 10_000,
        total_curve: 0,
        index,
        multiplier: vec![100, 120, 150, 200, 300],
    }
}

/// An epoch that ran from 30000 to 33600.
fn epoch(index: u64, reward: u64, total_curve: u64) -> Epoch {
    Epoch {
        index,
        staked_start_time: 30_000,
        stake_duration: 3_600,
        staked_end_time: 33_600,
        reward,
        total_curve,
        total_staked_amount: 10_000,
        claimable: false,
    }
}

fn entry(amount: u64, staked_under: u64, lock_period: u8, multiplier: u64) -> StakeEntry {
    StakeEntry {
        amount,
        last_staked_epoch_index: staked_under,
        lock_period,
        multiplier,
        base_curve: amount * 3_600,
        boosted_curve: amount * 3_600 * multiplier / 100,
        calculated_index: staked_under,
    }
}

fn account(entries: Vec<StakeEntry>) -> UserStake {
    UserStake { owner: key(10), stake_entries: entries, pending_reward: 0 }
}

fn ledger() -> Stakes {
    Stakes { list: vec![key(21), key(11), key(31)] }
}

fn settle(
    config: &mut Config,
    epoch: &mut Epoch,
    account: &mut UserStake,
    now: i64,
    index: u64,
) -> Result<(), RichieError> {
    manage_staker_reward(config, epoch, account, &ledger(), key(1), key(11), now, index)
}

#[test]
fn locked_entry_earns_with_its_boosted_curve() {
    let mut config = config(5);
    let mut epoch = epoch(4, 1_000, 14_400_000);
    let mut account = account(vec![entry(1_000, 3, 4, 200)]);
    assert_eq!(settle(&mut config, &mut epoch, &mut account, 33_601, 5), Ok(()));
    // 7_200_000 of 14_400_000
    assert_eq!(account.pending_reward, 500);
    assert_eq!(
        account.stake_entries,
        vec![StakeEntry {
            amount: 1_000,
            last_staked_epoch_index: 3,
            lock_period: 4,
            multiplier: 200,
            base_curve: 3_600_000,
            boosted_curve: 7_200_000,
            calculated_index: 5,
        }]
    );
    assert_eq!(config.total_curve, 7_200_000);
    assert!(epoch.claimable);
}

#[test]
fn lock_holds_through_its_last_index() {
    // Created under 3 for 4 epochs: locked under 3, 4, 5, 6; free under 7.
    for (index, locked) in [(4u64, true), (5, true), (6, true), (7, false), (8, false)] {
        let mut config = config(index);
        let mut epoch = epoch(index - 1, 1_000, 14_400_000);
        let mut account = account(vec![entry(1_000, 3, 4, 200)]);
        assert_eq!(settle(&mut config, &mut epoch, &mut account, 33_601, index), Ok(()));
        let settled = account.stake_entries[0];
        if locked {
            assert_eq!(account.pending_reward, 500);
            assert_eq!(settled.boosted_curve, 7_200_000);
            assert_eq!(config.total_curve, 7_200_000);
        } else {
            assert_eq!(account.pending_reward, 250);
            assert_eq!(settled.boosted_curve, 3_600_000);
            assert_eq!(config.total_curve, 3_600_000);
        }
        assert_eq!(settled.base_curve, 3_600_000);
        assert_eq!(settled.calculated_index, index);
    }
}

#[test]
fn curves_are_renewed_with_the_configured_duration() {
    let mut config = config(5);
    config.epoch_duration = 7_200;
    let mut epoch = epoch(4, 1_000, 14_400_000);
    let mut account = account(vec![entry(1_000, 3, 4, 150), entry(10, 1, 1, 100)]);
    assert_eq!(settle(&mut config, &mut epoch, &mut account, 33_601, 5), Ok(()));
    assert_eq!(account.stake_entries[0].base_curve, 7_200_000);
    assert_eq!(account.stake_entries[0].boosted_curve, 10_800_000);
    assert_eq!(account.stake_entries[1].base_curve, 72_000);
    assert_eq!(account.stake_entries[1].boosted_curve, 72_000);
    assert_eq!(config.total_curve, 10_872_000);
    // 5_400_000 and 36_000 of 14_400_000, of a budget of 1000
    assert_eq!(account.pending_reward, 375 + 2);
}

#[test]
fn shares_are_rounded_down_entry_by_entry() {
    let mut config = config(5);
    let mut epoch = epoch(4, 100, 3 * 3_600);
    let mut account = account(vec![entry(1, 1, 1, 100), entry(1, 1, 1, 100), entry(1, 1, 1, 100)]);
    assert_eq!(settle(&mut config, &mut epoch, &mut account, 33_601, 5), Ok(()));
    assert_eq!(account.pending_reward, 99);
}

#[test]
fn no_curve_means_no_reward() {
    let mut config = config(5);
    let mut epoch = epoch(4, 1_000, 0);
    let mut account = account(vec![entry(1_000, 3, 4, 200)]);
    assert_eq!(settle(&mut config, &mut epoch, &mut account, 33_601, 5), Ok(()));
    assert_eq!(account.pending_reward, 0);
    assert_eq!(account.stake_entries[0].calculated_index, 5);
    assert_eq!(config.total_curve, 7_200_000);
    assert!(epoch.claimable);
}

#[test]
fn settled_entries_are_skipped() {
    let mut config = config(5);
    config.total_curve = 11;
    let mut epoch = epoch(4, 1_000, 14_400_000);
    let mut done = entry(1_000, 3, 4, 200);
    done.calculated_index = 5;
    done.base_curve = 1;
    done.boosted_curve = 2;
    let mut account = account(vec![done, entry(2_000, 4, 1, 100)]);
    assert_eq!(settle(&mut config, &mut epoch, &mut account, 33_601, 5), Ok(()));
    assert_eq!(account.stake_entries[0], done);
    assert_eq!(account.stake_entries[1].calculated_index, 5);
    // The second entry is locked under 4 only: 7_200_000 of 14_400_000.
    assert_eq!(account.pending_reward, 500);
    assert_eq!(config.total_curve, 11 + 7_200_000);
}

#[test]
fn account_without_entries_settles() {
    let mut config = config(5);
    config.total_curve = 11;
    let mut epoch = epoch(4, 1_000, 14_400_000);
    let mut account = account(vec![]);
    account.pending_reward = 7;
    assert_eq!(settle(&mut config, &mut epoch, &mut account, 33_601, 5), Ok(()));
    assert_eq!(account.pending_reward, 7);
    assert_eq!(config.total_curve, 11);
    assert!(epoch.claimable);
}

#[test]
fn rewards_add_to_what_is_pending() {
    let mut config = config(5);
    let mut epoch = epoch(4, 1_000, 14_400_000);
    let mut account = account(vec![entry(1_000, 3, 4, 200)]);
    account.pending_reward = 41;
    assert_eq!(settle(&mut config, &mut epoch, &mut account, 33_601, 5), Ok(()));
    assert_eq!(account.pending_reward, 541);
}

#[test]
fn pending_reward_stops_at_the_largest_value() {
    let mut config = config(5);
    let mut epoch = epoch(4, 1_000, 14_400_000);
    let mut account = account(vec![entry(1_000, 3, 4, 200)]);
    account.pending_reward = u64::MAX - 499;
    assert_eq!(settle(&mut config, &mut epoch, &mut account, 33_601, 5), Ok(()));
    assert_eq!(account.pending_reward, u64::MAX);
    assert_eq!(account.stake_entries[0].calculated_index, 5);
}

#[test]
fn pre_launch_window_sets_the_baseline() {
    let mut config = config(1);
    config.total_staked = 4_000;
    config.total_curve = 9;
    let mut epoch = epoch(0, 0, 0);
    let pre_launch = StakeEntry {
        amount: 1_000,
        last_staked_epoch_index: 0,
        lock_period: 1,
        multiplier: 0,
        base_curve: 0,
        boosted_curve: 0,
        calculated_index: 0,
    };
    let mut account = account(vec![pre_launch]);
    account.pending_reward = 3;
    assert_eq!(settle(&mut config, &mut epoch, &mut account, 33_601, 1), Ok(()));
    assert_eq!(account.pending_reward, 3);
    assert!(!epoch.claimable);
    assert_eq!(config.total_curve, 4_000 * 3_600);
    assert_eq!(
        account.stake_entries,
        vec![StakeEntry {
            base_curve: 3_600_000,
            boosted_curve: 3_600_000,
            calculated_index: 1,
            ..pre_launch
        }]
    );
}

#[test]
fn pre_launch_window_pays_nothing_even_with_a_budget() {
    let mut config = config(1);
    let mut epoch = epoch(0, 1_000, 3_600_000);
    let mut account = account(vec![entry(1_000, 0, 1, 100)]);
    assert_eq!(settle(&mut config, &mut epoch, &mut account, 33_601, 1), Ok(()));
    assert_eq!(account.pending_reward, 0);
    assert!(!epoch.claimable);
    assert_eq!(config.total_curve, 10_000 * 3_600);
}

#[test]
fn settlement_waits_for_the_end_of_the_epoch() {
    let mut config = config(5);
    let mut epoch = epoch(4, 1_000, 14_400_000);
    let mut account = account(vec![entry(1_000, 3, 4, 200)]);
    let before = (config.clone(), epoch, account.clone());
    for now in [0i64, 30_000, 33_599, 33_600] {
        assert_eq!(
            settle(&mut config, &mut epoch, &mut account, now, 5),
            Err(RichieError::UnFinishedEpoch)
        );
    }
    assert_eq!((config.clone(), epoch, account.clone()), before);
    assert_eq!(settle(&mut config, &mut epoch, &mut account, 33_601, 5), Ok(()));
}

#[test]
fn settlement_reads_start_and_duration() {
    // The stored end time is not what decides.
    let mut config = config(5);
    let mut epoch = epoch(4, 1_000, 14_400_000);
    epoch.staked_end_time = 0;
    let mut account = account(vec![entry(1_000, 3, 4, 200)]);
    assert_eq!(
        settle(&mut config, &mut epoch, &mut account, 33_600, 5),
        Err(RichieError::UnFinishedEpoch)
    );
}

#[test]
fn settlement_is_for_accounts_of_the_ledger() {
    let mut config = config(5);
    let mut epoch = epoch(4, 1_000, 14_400_000);
    let mut account = account(vec![entry(1_000, 3, 4, 200)]);
    let before = (config.clone(), epoch, account.clone());
    let refused = manage_staker_reward(
        &mut config, &mut epoch, &mut account, &ledger(), key(1), key(12), 33_601, 5,
    );
    assert_eq!(refused, Err(RichieError::InvalidUserStake));
    let refused = manage_staker_reward(
        &mut config, &mut epoch, &mut account, &Stakes::new(), key(1), key(11), 33_601, 5,
    );
    assert_eq!(refused, Err(RichieError::InvalidUserStake));
    // The ledger is checked first.
    let refused = manage_staker_reward(
        &mut config, &mut epoch, &mut account, &ledger(), key(9), key(12), 0, 7,
    );
    assert_eq!(refused, Err(RichieError::InvalidUserStake));
    assert_eq!((config, epoch, account), before);
}

#[test]
fn settlement_is_for_the_current_index() {
    let mut config = config(5);
    let mut epoch = epoch(4, 1_000, 14_400_000);
    let mut account = account(vec![entry(1_000, 3, 4, 200)]);
    let before = (config.clone(), epoch, account.clone());
    for index in [0u64, 4, 6] {
        assert_eq!(
            settle(&mut config, &mut epoch, &mut account, 33_601, index),
            Err(RichieError::InvalidEpochIndex)
        );
    }
    // The index is checked before the signer and the time.
    let refused = manage_staker_reward(
        &mut config, &mut epoch, &mut account, &ledger(), key(9), key(11), 0, 4,
    );
    assert_eq!(refused, Err(RichieError::InvalidEpochIndex));
    assert_eq!((config, epoch, account), before);
}

#[test]
fn settlement_is_for_the_administrator() {
    let mut config = config(5);
    let mut epoch = epoch(4, 1_000, 14_400_000);
    let mut account = account(vec![entry(1_000, 3, 4, 200)]);
    let before = (config.clone(), epoch, account.clone());
    let refused = manage_staker_reward(
        &mut config, &mut epoch, &mut account, &ledger(), key(10), key(11), 33_601, 5,
    );
    assert_eq!(refused, Err(RichieError::UnAuthorized));
    // The signer is checked before the time.
    let refused = manage_staker_reward(
        &mut config, &mut epoch, &mut account, &ledger(), key(10), key(11), 0, 5,
    );
    assert_eq!(refused, Err(RichieError::UnAuthorized));
    assert_eq!((config, epoch, account), before);
}

#[test]
fn renewed_curve_beyond_u64_is_an_overflow() {
    let mut config = config(5);
    let mut epoch = epoch(4, 1_000, 14_400_000);
    let mut big = entry(1_000, 3, 4, 200);
    big.amount = u64::MAX / 3_600 + 1;
    let mut account = account(vec![entry(1_000, 3, 4, 200), big]);
    let before = (config.clone(), epoch, account.clone());
    assert_eq!(
        settle(&mut config, &mut epoch, &mut account, 33_601, 5),
        Err(RichieError::ArithmeticOverflow)
    );
    assert_eq!((config.clone(), epoch, account.clone()), before);

    // The base curve fits; its product with the multiplier does not.
    account.stake_entries.remove(0);
    account.stake_entries[0].amount = u64::MAX / 3_600;
    let before = (config.clone(), epoch, account.clone());
    assert_eq!(
        settle(&mut config, &mut epoch, &mut account, 33_601, 5),
        Err(RichieError::ArithmeticOverflow)
    );
    assert_eq!((config.clone(), epoch, account.clone()), before);

    // Without the lock the base curve is all there is.
    account.stake_entries[0].lock_period = 1;
    assert_eq!(settle(&mut config, &mut epoch, &mut account, 33_601, 5), Ok(()));
    assert_eq!(account.stake_entries[0].boosted_curve, u64::MAX / 3_600 * 3_600);
    assert_eq!(config.total_curve, u64::MAX / 3_600 * 3_600);
}

#[test]
fn carry_forward_beyond_u64_is_an_overflow() {
    let mut config = config(5);
    config.total_curve = u64::MAX - 7_199_999;
    let mut epoch = epoch(4, 1_000, 14_400_000);
    let mut account = account(vec![entry(1_000, 3, 4, 200)]);
    let before = (config.clone(), epoch, account.clone());
    assert_eq!(
        settle(&mut config, &mut epoch, &mut account, 33_601, 5),
        Err(RichieError::ArithmeticOverflow)
    );
    assert_eq!((config.clone(), epoch, account.clone()), before);
    config.total_curve -= 1;
    assert_eq!(settle(&mut config, &mut epoch, &mut account, 33_601, 5), Ok(()));
    assert_eq!(config.total_curve, u64::MAX);
}

#[test]
fn share_beyond_u64_is_an_overflow() {
    let mut config = config(5);
    let mut epoch = epoch(4, u64::MAX, 1);
    let mut account = account(vec![entry(1_000, 3, 4, 200)]);
    let before = (config.clone(), epoch, account.clone());
    assert_eq!(
        settle(&mut config, &mut epoch, &mut account, 33_601, 5),
        Err(RichieError::ArithmeticOverflow)
    );
    assert_eq!((config, epoch, account), before);
}

#[test]
fn reward_sum_beyond_u64_is_an_overflow() {
    let mut config = config(5);
    let mut epoch = epoch(4, u64::MAX, 3_600);
    // Each entry earns the whole budget.
    let mut account = account(vec![entry(1, 1, 1, 100), entry(1, 1, 1, 100)]);
    let before = (config.clone(), epoch, account.clone());
    assert_eq!(
        settle(&mut config, &mut epoch, &mut account, 33_601, 5),
        Err(RichieError::ArithmeticOverflow)
    );
    assert_eq!((config.clone(), epoch, account.clone()), before);
    account.stake_entries.pop();
    assert_eq!(settle(&mut config, &mut epoch, &mut account, 33_601, 5), Ok(()));
    assert_eq!(account.pending_reward, u64::MAX);
}

#[test]
fn negative_duration_is_an_overflow_for_an_entry_with_principal() {
    let mut config = config(5);
    config.epoch_duration = -1;
    let mut epoch = epoch(4, 1_000, 14_400_000);
    let mut account = account(vec![entry(1, 3, 4, 200)]);
    let before = (config.clone(), epoch, account.clone());
    assert_eq!(
        settle(&mut config, &mut epoch, &mut account, 33_601, 5),
        Err(RichieError::ArithmeticOverflow)
    );
    assert_eq!((config.clone(), epoch, account.clone()), before);
    // Nothing times anything is nothing.
    account.stake_entries[0].amount = 0;
    assert_eq!(settle(&mut config, &mut epoch, &mut account, 33_601, 5), Ok(()));
    assert_eq!(account.stake_entries[0].base_curve, 0);
}

#[test]
fn baseline_beyond_u64_is_an_overflow() {
    let mut config = config(1);
    config.total_staked = u64::MAX / 3_600 + 1;
    let mut epoch = epoch(0, 0, 0);
    let mut account = account(vec![entry(1_000, 0, 1, 100)]);
    let before = (config.clone(), epoch, account.clone());
    assert_eq!(
        settle(&mut config, &mut epoch, &mut account, 33_601, 1),
        Err(RichieError::ArithmeticOverflow)
    );
    assert_eq!((config, epoch, account), before);
}

#[test]
fn lock_end_beyond_u64_is_an_overflow() {
    let mut config = config(5);
    let mut epoch = epoch(4, 1_000, 14_400_000);
    let mut account = account(vec![entry(1_000, 3, 4, 200)]);
    account.stake_entries[0].last_staked_epoch_index = u64::MAX - 3;
    account.stake_entries[0].calculated_index = 0;
    let before = (config.clone(), epoch, account.clone());
    assert_eq!(
        settle(&mut config, &mut epoch, &mut account, 33_601, 5),
        Err(RichieError::ArithmeticOverflow)
    );
    assert_eq!((config.clone(), epoch, account.clone()), before);
    account.stake_entries[0].last_staked_epoch_index = u64::MAX - 4;
    assert_eq!(settle(&mut config, &mut epoch, &mut account, 33_601, 5), Ok(()));

    // An entry of index 0 without a lock has no last locked index.
    let mut account = account_without_lock();
    let before = (config.clone(), epoch, account.clone());
    assert_eq!(
        settle(&mut config, &mut epoch, &mut account, 33_601, 5),
        Err(RichieError::ArithmeticOverflow)
    );
    assert_eq!((config, epoch, account), before);
}

fn account_without_lock() -> UserStake {
    let mut unlocked = entry(1_000, 0, 0, 100);
    unlocked.calculated_index = 1;
    account(vec![unlocked])
}

#[test]
fn end_of_epoch_beyond_the_clock_is_an_overflow() {
    let mut config = config(5);
    let mut epoch = epoch(4, 1_000, 14_400_000);
    epoch.staked_start_time = i64::MAX;
    epoch.stake_duration = 1;
    let mut account = account(vec![entry(1_000, 3, 4, 200)]);
    let before = (config.clone(), epoch, account.clone());
    assert_eq!(
        settle(&mut config, &mut epoch, &mut account, i64::MAX, 5),
        Err(RichieError::ArithmeticOverflow)
    );
    assert_eq!((config, epoch, account), before);
}
