//! Depositing: the multiplier table, the deposit window of an epoch, and
//! the entry that a deposit creates or tops up.

use vstd::prelude::*;
use crate::curve::{
    base_curve,
    boosted_curve,
    checked_base_curve,
    checked_boosted_curve,
    fits_i64,
    fits_u64,
};
use crate::error::RichieError;
use crate::pubkey::Pubkey;
use crate::state::{Config, ConfigView, Epoch, StakeEntry, Stakes, UserStake, UserStakeView};
use crate::tally::{lemma_sum_push, lemma_sum_update, amount_of, staked_amount};

verus! {

/// What the host moves from the staker into the stake vault after a
/// deposit.
#[derive(Clone, Copy, Debug, PartialEq, Eq, Structural)]
pub struct Deposit {
    /// Stake tokens owed to the vault.
    pub amount: u64,
}

/// The slot of the multiplier table that belongs to a lock period: 1, 2, 4,
/// 8 and 16 epochs have the slots 0 to 4, and no other lock period has one.
pub open spec fn lock_slot(lock_period: u8) -> Option<int> {
    if lock_period == 1 {
        Some(0)
    } else if lock_period == 2 {
        Some(1)
    } else if lock_period == 4 {
        Some(2)
    } else if lock_period == 8 {
        Some(3)
    } else if lock_period == 16 {
        Some(4)
    } else {
        None
    }
}

/// The multiplier that `table` holds for a lock period, if the lock period
/// has a slot and the table is long enough to fill it.
pub open spec fn multiplier_for(table: Seq<u64>, lock_period: u8) -> Option<u64> {
    match lock_slot(lock_period) {
        Some(slot) => if slot < table.len() {
            Some(table[slot])
        } else {
            None
        },
        None => None,
    }
}

/// The multiplier in percent that `config` holds for `lock_period`, or
/// `InvalidLockPeriod` where [`multiplier_for`] finds none.
pub fn get_multiplier(config: &Config, lock_period: u8) -> (r: Result<u64, RichieError>)
    ensures
        match r {
            Ok(m) => multiplier_for(config@.multiplier, lock_period) == Some(m),
            Err(e) => e == RichieError::InvalidLockPeriod && multiplier_for(
                config@.multiplier,
                lock_period,
            ) is None,
        },
{
    let slot: usize = match lock_period {
        1 => 0,
        2 => 1,
        4 => 2,
        8 => 3,
        16 => 4,
        _ => {
            return Err(RichieError::InvalidLockPeriod);
        },
    };
    if slot < config.multiplier.len() {
        Ok(config.multiplier[slot])
    } else {
        Err(RichieError::InvalidLockPeriod)
    }
}

/// The position of the first entry that was created in the pre-launch
/// window, if there is one.
pub open spec fn pre_launch_slot(entries: Seq<StakeEntry>) -> Option<int>
    decreases entries.len(),
{
    if entries.len() == 0 {
        None
    } else {
        match pre_launch_slot(entries.drop_last()) {
            Some(k) => Some(k),
            None => if entries.last().last_staked_epoch_index == 0 {
                Some(entries.len() - 1)
            } else {
                None
            },
        }
    }
}

/// [`pre_launch_slot`] is the least position of a pre-launch entry, and
/// `None` exactly where no entry is one.
pub proof fn lemma_pre_launch_slot(entries: Seq<StakeEntry>)
    ensures
        match pre_launch_slot(entries) {
            Some(k) => {
                &&& 0 <= k < entries.len()
                &&& entries[k].last_staked_epoch_index == 0
                &&& forall|j: int| 0 <= j < k ==> (#[trigger] entries[j]).last_staked_epoch_index != 0
            },
            None => forall|j: int|
                0 <= j < entries.len() ==> (#[trigger] entries[j]).last_staked_epoch_index != 0,
        },
    decreases entries.len(),
{
    if entries.len() > 0 {
        lemma_pre_launch_slot(entries.drop_last());
        assert forall|j: int| 0 <= j < entries.len() - 1 implies entries.drop_last()[j]
            == entries[j] by {}
        match pre_launch_slot(entries.drop_last()) {
            Some(k) => {
                assert(entries.drop_last()[k] == entries[k]);
                assert forall|j: int| 0 <= j < k implies (
                #[trigger] entries[j]).last_staked_epoch_index != 0 by {
                    assert(entries.drop_last()[j] == entries[j]);
                }
            },
            None => {
                assert forall|j: int| 0 <= j < entries.len() - 1 implies (
                #[trigger] entries[j]).last_staked_epoch_index != 0 by {
                    assert(entries.drop_last()[j] == entries[j]);
                }
            },
        }
    }
}

/// The seconds of the epoch's deposit window that are left at `now`.
pub open spec fn available_time(epoch: Epoch, now: i64) -> int {
    epoch.stake_duration - (now - epoch.staked_start_time)
}

/// The reason for which `now` is no time to deposit into `epoch`, if any:
/// `InvalidStakeTime` before the start and after start plus duration;
/// `ArithmeticOverflow` where, from the start on, start plus duration is no
/// value of `i64`.
pub open spec fn window_rejection(epoch: Epoch, now: i64) -> Option<RichieError> {
    if now < epoch.staked_start_time {
        Some(RichieError::InvalidStakeTime)
    } else if !fits_i64(epoch.staked_start_time + epoch.stake_duration) {
        Some(RichieError::ArithmeticOverflow)
    } else if now > epoch.staked_start_time + epoch.stake_duration {
        Some(RichieError::InvalidStakeTime)
    } else {
        None
    }
}

/// The entry that a deposit creates: without curves and multiplier in the
/// pre-launch window, and else with the curve of `amount` over the seconds
/// that are left of the epoch, boosted by `multiplier`.
pub open spec fn new_entry(
    epoch: Epoch,
    now: i64,
    index: u64,
    amount: u64,
    lock_period: u8,
    multiplier: u64,
) -> StakeEntry {
    if index == 0 {
        StakeEntry {
            amount,
            last_staked_epoch_index: 0,
            lock_period,
            multiplier: 0,
            base_curve: 0,
            boosted_curve: 0,
            calculated_index: 0,
        }
    } else {
        let base = base_curve(amount, available_time(epoch, now) as i64) as u64;
        StakeEntry {
            amount,
            last_staked_epoch_index: index,
            lock_period,
            multiplier,
            base_curve: base,
            boosted_curve: boosted_curve(base, multiplier) as u64,
            calculated_index: 0,
        }
    }
}

/// The entries after a deposit: in the pre-launch window the first
/// pre-launch entry grows by the amount, if there is one; in every other
/// case the new entry is appended.
pub open spec fn entries_after_deposit(entries: Seq<StakeEntry>, entry: StakeEntry) -> Seq<
    StakeEntry,
> {
    match pre_launch_slot(entries) {
        Some(k) if entry.last_staked_epoch_index == 0 => entries.update(
            k,
            StakeEntry { amount: (entries[k].amount + entry.amount) as u64, ..entries[k] },
        ),
        _ => entries.push(entry),
    }
}

/// The reason for which the entries cannot take `entry`, if any: a
/// pre-launch entry that would grow beyond `u64`, or an account that is
/// full.
pub open spec fn entries_rejection(entries: Seq<StakeEntry>, entry: StakeEntry) -> Option<
    RichieError,
> {
    match pre_launch_slot(entries) {
        Some(k) if entry.last_staked_epoch_index == 0 => if entries[k].amount + entry.amount
            > u64::MAX {
            Some(RichieError::ArithmeticOverflow)
        } else {
            None
        },
        _ => if entries.len() >= UserStake::MAX_ENTRIES {
            Some(RichieError::TooManyStakeEntries)
        } else {
            None
        },
    }
}

/// Whether a deposit leaves the range of `u64`: in the curves of the new
/// entry, in the pre-launch entry that it tops up, or in the totals of the
/// epoch or of the configuration.
pub open spec fn deposit_overflows(
    config: ConfigView,
    epoch: Epoch,
    entries: Seq<StakeEntry>,
    now: i64,
    index: u64,
    amount: u64,
    lock_period: u8,
    multiplier: u64,
) -> bool {
    let base = base_curve(amount, available_time(epoch, now) as i64);
    let entry = new_entry(epoch, now, index, amount, lock_period, multiplier);
    ||| index != 0 && !fits_u64(base)
    ||| index != 0 && base * multiplier > u64::MAX
    ||| entries_rejection(entries, entry) == Some(RichieError::ArithmeticOverflow)
    ||| index != 0 && epoch.total_curve + entry.boosted_curve > u64::MAX
    ||| index != 0 && epoch.total_staked_amount + amount > u64::MAX
    ||| config.total_staked + amount > u64::MAX
}

/// The reason for which a deposit is turned down, if any. The checks stand
/// in the order in which they are made: the lock period of a pre-launch
/// deposit, the epoch index, the deposit window, the multiplier, the
/// arithmetic, room in the ledger, room in the account. A deposit of
/// nothing is turned down last, where nothing else is wrong with it.
pub open spec fn stake_rejection(
    config: ConfigView,
    epoch: Epoch,
    user_stake: UserStakeView,
    stakes: Seq<Pubkey>,
    now: i64,
    index: u64,
    amount: u64,
    lock_period: u8,
) -> Option<RichieError> {
    let first = user_stake.stake_entries.len() == 0;
    let multiplier = multiplier_for(config.multiplier, lock_period);
    let entry = new_entry(epoch, now, index, amount, lock_period, multiplier.unwrap_or(0));
    if index == 0 && lock_period != 1 {
        Some(RichieError::InvalidLockPeriod)
    } else if index != 0 && index != config.index {
        Some(RichieError::InvalidEpochIndex)
    } else if index != 0 && window_rejection(epoch, now) is Some {
        window_rejection(epoch, now)
    } else if index != 0 && multiplier is None {
        Some(RichieError::InvalidLockPeriod)
    } else if deposit_overflows(
        config,
        epoch,
        user_stake.stake_entries,
        now,
        index,
        amount,
        lock_period,
        multiplier.unwrap_or(0),
    ) {
        Some(RichieError::ArithmeticOverflow)
    } else if first && stakes.len() >= Stakes::MAX_USERS {
        Some(RichieError::TooManyStakers)
    } else if entries_rejection(user_stake.stake_entries, entry) is Some {
        Some(RichieError::TooManyStakeEntries)
    } else if amount == 0 {
        Some(RichieError::InvalidAmount)
    } else {
        None
    }
}

/// The epoch after a deposit: untouched by one into the pre-launch window,
/// and else larger by the entry's boosted curve and by its amount.
pub open spec fn epoch_after_deposit(epoch: Epoch, entry: StakeEntry) -> Epoch {
    if entry.last_staked_epoch_index == 0 {
        epoch
    } else {
        Epoch {
            total_curve: (epoch.total_curve + entry.boosted_curve) as u64,
            total_staked_amount: (epoch.total_staked_amount + entry.amount) as u64,
            ..epoch
        }
    }
}

/// The position of the first pre-launch entry.
fn find_pre_launch(entries: &Vec<StakeEntry>) -> (r: Option<usize>)
    ensures
        match r {
            Some(k) => pre_launch_slot(entries@) == Some(k as int),
            None => pre_launch_slot(entries@) is None,
        },
{
    let mut i: usize = 0;
    assert(entries@.take(0) =~= Seq::<StakeEntry>::empty());
    while i < entries.len()
        invariant
            0 <= i <= entries.len(),
            pre_launch_slot(entries@.take(i as int)) is None,
        decreases entries.len() - i,
    {
        assert(entries@.take(i as int + 1).drop_last() =~= entries@.take(i as int));
        if entries[i].last_staked_epoch_index == 0 {
            proof {
                lemma_slot_stays(entries@, i as int + 1);
            }
            return Some(i);
        }
        i += 1;
    }
    assert(entries@.take(i as int) =~= entries@);
    None
}

/// A pre-launch entry found among the first `i` entries is the one found
/// among all of them.
proof fn lemma_slot_stays(entries: Seq<StakeEntry>, i: int)
    requires
        0 <= i <= entries.len(),
        pre_launch_slot(entries.take(i)) is Some,
    ensures
        pre_launch_slot(entries) == pre_launch_slot(entries.take(i)),
    decreases entries.len() - i,
{
    if i == entries.len() {
        assert(entries.take(i) =~= entries);
    } else {
        assert(entries.take(i + 1).drop_last() =~= entries.take(i));
        lemma_slot_stays(entries, i + 1);
    }
}

/// Deposits `amount` for `lock_period` epochs under the epoch index
/// `index`.
///
/// Under index 0, the pre-launch window, the lock period has to be 1 and
/// no time is checked: the deposit joins the staker's first pre-launch
/// entry, or becomes a new entry without curves. Under any other index,
/// which has to be `config.index`, `now` has to lie between the start of
/// `epoch` and its start plus duration, both included: the deposit becomes
/// a new entry whose curve counts the seconds left of the epoch, and the
/// epoch's totals grow by the entry's boosted curve and amount.
///
/// A staker without entries becomes the owner `user` of `user_stake`, and
/// `user_stake_key` joins the ledger. `config.total_staked` grows by the
/// amount. A deposit of nothing that passes every other check is turned
/// down with `InvalidAmount`. The error, if any, is [`stake_rejection`].
pub fn stake(
    config: &mut Config,
    epoch: &mut Epoch,
    user_stake: &mut UserStake,
    stakes: &mut Stakes,
    user: Pubkey,
    user_stake_key: Pubkey,
    now: i64,
    index: u64,
    amount: u64,
    lock_period: u8,
) -> (r: Result<Deposit, RichieError>)
    ensures
        match r {
            Ok(deposit) => {
                let entry = new_entry(
                    *old(epoch),
                    now,
                    index,
                    amount,
                    lock_period,
                    multiplier_for(old(config)@.multiplier, lock_period).unwrap_or(0),
                );
                let first = old(user_stake)@.stake_entries.len() == 0;
                &&& stake_rejection(
                    old(config)@,
                    *old(epoch),
                    old(user_stake)@,
                    old(stakes)@,
                    now,
                    index,
                    amount,
                    lock_period,
                ) is None
                &&& deposit.amount == amount
                &&& final(user_stake)@ == (UserStakeView {
                    owner: if first {
                        user
                    } else {
                        old(user_stake).owner
                    },
                    stake_entries: entries_after_deposit(old(user_stake)@.stake_entries, entry),
                    ..old(user_stake)@
                })
                &&& final(stakes)@ == if first {
                    old(stakes)@.push(user_stake_key)
                } else {
                    old(stakes)@
                }
                &&& *final(epoch) == epoch_after_deposit(*old(epoch), entry)
                &&& final(config)@ == (ConfigView {
                    total_staked: (old(config).total_staked + amount) as u64,
                    ..old(config)@
                })
                &&& staked_amount(final(user_stake)@.stake_entries) == staked_amount(
                    old(user_stake)@.stake_entries,
                ) + amount
                &&& old(user_stake).wf() ==> final(user_stake).wf()
                &&& old(stakes).wf() ==> final(stakes).wf()
                &&& old(epoch).wf() ==> final(epoch).wf()
                &&& old(user_stake)@.settled_up_to(old(config).index)
                    ==> final(user_stake)@.settled_up_to(old(config).index)
            },
            Err(e) => {
                &&& stake_rejection(
                    old(config)@,
                    *old(epoch),
                    old(user_stake)@,
                    old(stakes)@,
                    now,
                    index,
                    amount,
                    lock_period,
                ) == Some(e)
                &&& final(config)@ == old(config)@
                &&& *final(epoch) == *old(epoch)
                &&& final(user_stake)@ == old(user_stake)@
                &&& final(stakes)@ == old(stakes)@
            },
        },
{
    let first = user_stake.stake_entries.len() == 0;
    let entry: StakeEntry;
    if index == 0 {
        if lock_period != 1 {
            return Err(RichieError::InvalidLockPeriod);
        }
        entry = StakeEntry {
            amount,
            last_staked_epoch_index: 0,
            lock_period,
            multiplier: 0,
            base_curve: 0,
            boosted_curve: 0,
            calculated_index: 0,
        };
    } else {
        if index != config.index {
            return Err(RichieError::InvalidEpochIndex);
        }
        if now < epoch.staked_start_time {
            return Err(RichieError::InvalidStakeTime);
        }
        let end = match epoch.staked_start_time.checked_add(epoch.stake_duration) {
            Some(end) => end,
            None => {
                return Err(RichieError::ArithmeticOverflow);
            },
        };
        if now > end {
            return Err(RichieError::InvalidStakeTime);
        }
        let available: i64 = epoch.stake_duration - (now - epoch.staked_start_time);
        let multiplier = match get_multiplier(config, lock_period) {
            Ok(m) => m,
            Err(e) => {
                return Err(e);
            },
        };
        let base = match checked_base_curve(amount, available) {
            Some(base) => base,
            None => {
                return Err(RichieError::ArithmeticOverflow);
            },
        };
        let boosted = match checked_boosted_curve(base, multiplier) {
            Some(boosted) => boosted,
            None => {
                return Err(RichieError::ArithmeticOverflow);
            },
        };
        entry = StakeEntry {
            amount,
            last_staked_epoch_index: index,
            lock_period,
            multiplier,
            base_curve: base,
            boosted_curve: boosted,
            calculated_index: 0,
        };
    }
    assert(entry == new_entry(
        *epoch,
        now,
        index,
        amount,
        lock_period,
        multiplier_for(config@.multiplier, lock_period).unwrap_or(0),
    ));

    let slot = if index == 0 {
        find_pre_launch(&user_stake.stake_entries)
    } else {
        None
    };
    let ghost before = user_stake.stake_entries@;
    proof {
        lemma_pre_launch_slot(before);
    }
    let grown: Option<StakeEntry> = match slot {
        Some(k) => {
            let found = user_stake.stake_entries[k];
            match found.amount.checked_add(amount) {
                Some(sum) => Some(StakeEntry { amount: sum, ..found }),
                None => {
                    return Err(RichieError::ArithmeticOverflow);
                },
            }
        },
        None => None,
    };
    let mut total_curve = epoch.total_curve;
    let mut total_staked_amount = epoch.total_staked_amount;
    if index != 0 {
        total_curve = match total_curve.checked_add(entry.boosted_curve) {
            Some(sum) => sum,
            None => {
                return Err(RichieError::ArithmeticOverflow);
            },
        };
        total_staked_amount = match total_staked_amount.checked_add(amount) {
            Some(sum) => sum,
            None => {
                return Err(RichieError::ArithmeticOverflow);
            },
        };
    }
    let total_staked = match config.total_staked.checked_add(amount) {
        Some(sum) => sum,
        None => {
            return Err(RichieError::ArithmeticOverflow);
        },
    };
    if first && stakes.list.len() >= Stakes::MAX_USERS {
        return Err(RichieError::TooManyStakers);
    }
    if slot.is_none() && user_stake.stake_entries.len() >= UserStake::MAX_ENTRIES {
        return Err(RichieError::TooManyStakeEntries);
    }
    if amount == 0 {
        return Err(RichieError::InvalidAmount);
    }

    if first {
        user_stake.owner = user;
        stakes.list.push(user_stake_key);
    }
    match slot {
        Some(k) => {
            proof {
                lemma_sum_update(before, amount_of(), k as int, grown.unwrap());
            }
            user_stake.stake_entries.set(k, grown.unwrap());
        },
        None => {
            proof {
                lemma_sum_push(before, amount_of(), entry);
            }
            user_stake.stake_entries.push(entry);
        },
    }
    epoch.total_curve = total_curve;
    epoch.total_staked_amount = total_staked_amount;
    config.total_staked = total_staked;
    Ok(Deposit { amount })
}

} // verus!
