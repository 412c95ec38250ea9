//! Settlement: after an epoch is over, each staker's entries earn their
//! share of the epoch's reward budget and get their curves for the next
//! epoch.

use vstd::prelude::*;
use crate::curve::{
    base_curve,
    boosted_curve,
    checked_base_curve,
    checked_boosted_curve,
    checked_reward_share,
    fits_i64,
    fits_u64,
    reward_share,
};
use crate::error::RichieError;
use crate::pubkey::Pubkey;
use crate::state::{Config, ConfigView, Epoch, StakeEntry, Stakes, UserStake, UserStakeView};
use crate::tally::{
    amount_of,
    lemma_sum_empty,
    lemma_sum_prefix,
    lemma_sum_same_weights,
    lemma_sum_step,
    never_negative,
    staked_amount,
    sum_over,
};

verus! {

/// Whether the entry was already settled under `index`.
pub open spec fn is_settled(entry: StakeEntry, index: u64) -> bool {
    entry.calculated_index == index
}

/// Whether the entry's lock still holds under `index`.
pub open spec fn still_locked(entry: StakeEntry, index: u64) -> bool {
    entry.last_staked_epoch_index + entry.lock_period - 1 >= index
}

/// The curve with which the entry takes part in the settlement under
/// `index`: the boosted curve while the lock holds, the base curve after.
pub open spec fn contribution(entry: StakeEntry, index: u64) -> u64 {
    if still_locked(entry, index) {
        entry.boosted_curve
    } else {
        entry.base_curve
    }
}

/// What the entry earns from the budget of `epoch`.
pub open spec fn entry_reward(entry: StakeEntry, epoch: Epoch, index: u64) -> int {
    reward_share(contribution(entry, index), epoch.reward, epoch.total_curve)
}

/// The entry's base curve for the next epoch: its amount over a whole
/// epoch of `duration` seconds.
pub open spec fn renewed_base(entry: StakeEntry, duration: i64) -> int {
    base_curve(entry.amount, duration)
}

/// The entry's boosted curve for the next epoch: the renewed base curve,
/// scaled by the entry's multiplier while the lock holds under `index`.
pub open spec fn renewed_boosted(entry: StakeEntry, index: u64, duration: i64) -> int {
    if still_locked(entry, index) {
        boosted_curve(renewed_base(entry, duration) as u64, entry.multiplier)
    } else {
        renewed_base(entry, duration)
    }
}

/// Whether the arithmetic of settling the entry stays in `u64`.
pub open spec fn settles(entry: StakeEntry, epoch: Epoch, index: u64, duration: i64) -> bool {
    &&& 1 <= entry.last_staked_epoch_index + entry.lock_period <= u64::MAX
    &&& entry_reward(entry, epoch, index) <= u64::MAX
    &&& fits_u64(renewed_base(entry, duration))
    &&& still_locked(entry, index) ==> renewed_base(entry, duration) * entry.multiplier <= u64::MAX
}

/// The entry after the settlement under `index`: as it was where it was
/// settled already, and else with its curves renewed and marked as settled.
pub open spec fn settled_entry(entry: StakeEntry, index: u64, duration: i64) -> StakeEntry {
    if is_settled(entry, index) {
        entry
    } else {
        StakeEntry {
            base_curve: renewed_base(entry, duration) as u64,
            boosted_curve: renewed_boosted(entry, index, duration) as u64,
            calculated_index: index,
            ..entry
        }
    }
}

/// The entries after the settlement under `index`.
pub open spec fn settled_entries(entries: Seq<StakeEntry>, index: u64, duration: i64) -> Seq<
    StakeEntry,
> {
    Seq::new(entries.len(), |i: int| settled_entry(entries[i], index, duration))
}

/// What an entry earns in the settlement under `index`: nothing where it
/// was settled already.
pub open spec fn reward_of(epoch: Epoch, index: u64) -> spec_fn(StakeEntry) -> int {
    |e: StakeEntry|
        if is_settled(e, index) {
            0
        } else {
            entry_reward(e, epoch, index)
        }
}

/// What an entry adds to the curve carried forward in the settlement under
/// `index`: nothing where it was settled already.
pub open spec fn carried_curve_of(index: u64, duration: i64) -> spec_fn(StakeEntry) -> int {
    |e: StakeEntry|
        if is_settled(e, index) {
            0
        } else {
            renewed_boosted(e, index, duration)
        }
}

/// What the staker earns in the settlement under `index`.
pub open spec fn reward_sum(entries: Seq<StakeEntry>, epoch: Epoch, index: u64) -> int {
    sum_over(entries, reward_of(epoch, index))
}

/// What the staker adds to the curve carried forward in the settlement
/// under `index`.
pub open spec fn carried_curve(entries: Seq<StakeEntry>, index: u64, duration: i64) -> int {
    sum_over(entries, carried_curve_of(index, duration))
}

/// Whether a settlement leaves the range of `u64`: in one of the entries
/// it has to settle, in the sum of the rewards, in the curve carried
/// forward, or, for the pre-launch window, in the baseline of the first
/// epoch.
pub open spec fn settlement_overflows(
    config: ConfigView,
    epoch: Epoch,
    entries: Seq<StakeEntry>,
    index: u64,
) -> bool {
    ||| exists|i: int|
        0 <= i < entries.len() && !is_settled(#[trigger] entries[i], index) && !settles(
            entries[i],
            epoch,
            index,
            config.epoch_duration,
        )
    ||| reward_sum(entries, epoch, index) > u64::MAX
    ||| config.total_curve + carried_curve(entries, index, config.epoch_duration) > u64::MAX
    ||| epoch.index == 0 && !fits_u64(base_curve(config.total_staked, config.epoch_duration))
}

/// The reason for which a settlement is turned down, if any. The checks
/// stand in the order in which they are made.
pub open spec fn settlement_rejection(
    config: ConfigView,
    epoch: Epoch,
    entries: Seq<StakeEntry>,
    stakes: Seq<Pubkey>,
    signer: Pubkey,
    user_stake_key: Pubkey,
    now: i64,
    index: u64,
) -> Option<RichieError> {
    if !stakes.contains(user_stake_key) {
        Some(RichieError::InvalidUserStake)
    } else if config.index != index {
        Some(RichieError::InvalidEpochIndex)
    } else if signer != config.admin {
        Some(RichieError::UnAuthorized)
    } else if !fits_i64(epoch.staked_start_time + epoch.stake_duration) {
        Some(RichieError::ArithmeticOverflow)
    } else if epoch.staked_start_time + epoch.stake_duration >= now {
        Some(RichieError::UnFinishedEpoch)
    } else if settlement_overflows(config, epoch, entries, index) {
        Some(RichieError::ArithmeticOverflow)
    } else {
        None
    }
}

/// The pending reward after a settlement: larger by the reward sum, up to
/// the largest `u64`, for a funded epoch; as it was for the pre-launch
/// window, which pays nothing.
pub open spec fn pending_after(pending: u64, epoch: Epoch, earned: int) -> int {
    if epoch.index == 0 {
        pending as int
    } else if pending + earned > u64::MAX {
        u64::MAX as int
    } else {
        pending + earned
    }
}

/// The curve carried forward after a settlement: larger by what the
/// staker's entries carry for a funded epoch; for the pre-launch window the
/// baseline of the first epoch, all principal staked over a whole epoch at
/// the plain curve.
pub open spec fn carry_forward_after(config: ConfigView, epoch: Epoch, carried: int) -> int {
    if epoch.index == 0 {
        base_curve(config.total_staked, config.epoch_duration)
    } else {
        config.total_curve + carried
    }
}

/// Settles the entries of `user_stake` for the epoch that is over.
///
/// Only the administrator may do so, under the current epoch index, for a
/// stake account of the ledger, and after `epoch` has ended. Each entry
/// that is not yet settled under `index` earns its share of the epoch's
/// budget, gets its curves for the next epoch, adds its new boosted curve
/// to the curve carried forward, and is marked as settled. For a funded
/// epoch the rewards are added to the pending reward, which stops at the
/// largest `u64`, and the epoch becomes claimable. The error, if any, is
/// [`settlement_rejection`].
pub fn manage_staker_reward(
    config: &mut Config,
    epoch: &mut Epoch,
    user_stake: &mut UserStake,
    stakes: &Stakes,
    signer: Pubkey,
    user_stake_key: Pubkey,
    now: i64,
    index: u64,
) -> (r: Result<(), RichieError>)
    ensures
        match r {
            Ok(_) => {
                let entries = old(user_stake)@.stake_entries;
                let duration = old(config).epoch_duration;
                &&& settlement_rejection(
                    old(config)@,
                    *old(epoch),
                    entries,
                    stakes@,
                    signer,
                    user_stake_key,
                    now,
                    index,
                ) is None
                &&& final(user_stake)@ == (UserStakeView {
                    stake_entries: settled_entries(entries, index, duration),
                    pending_reward: pending_after(
                        old(user_stake).pending_reward,
                        *old(epoch),
                        reward_sum(entries, *old(epoch), index),
                    ) as u64,
                    ..old(user_stake)@
                })
                &&& *final(epoch) == (Epoch {
                    claimable: old(epoch).claimable || old(epoch).index != 0,
                    ..*old(epoch)
                })
                &&& final(config)@ == (ConfigView {
                    total_curve: carry_forward_after(
                        old(config)@,
                        *old(epoch),
                        carried_curve(entries, index, duration),
                    ) as u64,
                    ..old(config)@
                })
                &&& forall|i: int|
                    0 <= i < entries.len() ==> is_settled(
                        #[trigger] final(user_stake)@.stake_entries[i],
                        index,
                    )
                &&& staked_amount(final(user_stake)@.stake_entries) == staked_amount(entries)
                &&& old(user_stake).wf() ==> final(user_stake).wf()
                &&& old(epoch).wf() ==> final(epoch).wf()
                &&& final(user_stake)@.settled_up_to(old(config).index)
            },
            Err(e) => {
                &&& settlement_rejection(
                    old(config)@,
                    *old(epoch),
                    old(user_stake)@.stake_entries,
                    stakes@,
                    signer,
                    user_stake_key,
                    now,
                    index,
                ) == Some(e)
                &&& final(config)@ == old(config)@
                &&& *final(epoch) == *old(epoch)
                &&& final(user_stake)@ == old(user_stake)@
            },
        },
{
    if !stakes.contains(&user_stake_key) {
        return Err(RichieError::InvalidUserStake);
    }
    if config.index != index {
        return Err(RichieError::InvalidEpochIndex);
    }
    if signer != config.admin {
        return Err(RichieError::UnAuthorized);
    }
    let end = match epoch.staked_start_time.checked_add(epoch.stake_duration) {
        Some(end) => end,
        None => {
            return Err(RichieError::ArithmeticOverflow);
        },
    };
    if end >= now {
        return Err(RichieError::UnFinishedEpoch);
    }
    let duration = config.epoch_duration;
    let ghost all = user_stake.stake_entries@;
    let ghost rewards = reward_of(*epoch, index);
    let ghost carries = carried_curve_of(index, duration);

    let mut renewed: Vec<StakeEntry> = Vec::new();
    let mut earned: u64 = 0;
    let mut carry_forward: u64 = config.total_curve;
    let mut i: usize = 0;
    proof {
        assert(all.take(0) =~= Seq::<StakeEntry>::empty());
        lemma_sum_empty(rewards);
        lemma_sum_empty(carries);
    }
    while i < user_stake.stake_entries.len()
        invariant
            0 <= i <= all.len(),
            user_stake.stake_entries@ == all,
            user_stake@ == old(user_stake)@,
            config@ == old(config)@,
            *epoch == *old(epoch),
            duration == config.epoch_duration,
            rewards == reward_of(*epoch, index),
            carries == carried_curve_of(index, duration),
            stakes@.contains(user_stake_key),
            config.index == index,
            signer == config.admin,
            fits_i64(epoch.staked_start_time + epoch.stake_duration),
            epoch.staked_start_time + epoch.stake_duration < now,
            renewed@.len() == i,
            forall|j: int|
                0 <= j < i ==> #[trigger] renewed@[j] == settled_entry(all[j], index, duration),
            forall|j: int|
                0 <= j < i && !is_settled(#[trigger] all[j], index) ==> settles(
                    all[j],
                    *epoch,
                    index,
                    duration,
                ),
            earned == sum_over(all.take(i as int), rewards),
            carry_forward == config.total_curve + sum_over(all.take(i as int), carries),
        decreases all.len() - i,
    {
        let entry = user_stake.stake_entries[i];
        proof {
            lemma_sum_step(all, rewards, i as int);
            lemma_sum_step(all, carries, i as int);
        }
        if entry.calculated_index == index {
            renewed.push(entry);
        } else {
            let lock_end = match entry.last_staked_epoch_index.checked_add(entry.lock_period as u64) {
                Some(lock_end) => lock_end,
                None => {
                    assert(!settles(all[i as int], *epoch, index, duration));
                    return Err(RichieError::ArithmeticOverflow);
                },
            };
            let last_locked = match lock_end.checked_sub(1) {
                Some(last_locked) => last_locked,
                None => {
                    assert(!settles(all[i as int], *epoch, index, duration));
                    return Err(RichieError::ArithmeticOverflow);
                },
            };
            let locked = last_locked >= index;
            let curve = if locked {
                entry.boosted_curve
            } else {
                entry.base_curve
            };
            let share = match checked_reward_share(curve, epoch.reward, epoch.total_curve) {
                Some(share) => share,
                None => {
                    assert(!settles(all[i as int], *epoch, index, duration));
                    return Err(RichieError::ArithmeticOverflow);
                },
            };
            let base = match checked_base_curve(entry.amount, duration) {
                Some(base) => base,
                None => {
                    assert(!settles(all[i as int], *epoch, index, duration));
                    return Err(RichieError::ArithmeticOverflow);
                },
            };
            let boosted = if locked {
                match checked_boosted_curve(base, entry.multiplier) {
                    Some(boosted) => boosted,
                    None => {
                        assert(!settles(all[i as int], *epoch, index, duration));
                        return Err(RichieError::ArithmeticOverflow);
                    },
                }
            } else {
                base
            };
            assert(settles(all[i as int], *epoch, index, duration));
            assert(share == rewards(all[i as int]));
            assert(boosted == carries(all[i as int]));
            earned = match earned.checked_add(share) {
                Some(sum) => sum,
                None => {
                    proof {
                        lemma_sum_overflows(all, *epoch, index, duration, i as int + 1);
                    }
                    return Err(RichieError::ArithmeticOverflow);
                },
            };
            carry_forward = match carry_forward.checked_add(boosted) {
                Some(sum) => sum,
                None => {
                    proof {
                        lemma_sum_overflows(all, *epoch, index, duration, i as int + 1);
                    }
                    return Err(RichieError::ArithmeticOverflow);
                },
            };
            renewed.push(
                StakeEntry {
                    base_curve: base,
                    boosted_curve: boosted,
                    calculated_index: index,
                    ..entry
                },
            );
        }
        i += 1;
    }
    proof {
        assert(all.take(i as int) =~= all);
        assert(renewed@ =~= settled_entries(all, index, duration));
        lemma_sum_same_weights(renewed@, all, amount_of());
    }
    if epoch.index != 0 {
        user_stake.pending_reward = user_stake.pending_reward.saturating_add(earned);
        epoch.claimable = true;
        config.total_curve = carry_forward;
    } else {
        config.total_curve = match checked_base_curve(config.total_staked, config.epoch_duration) {
            Some(baseline) => baseline,
            None => {
                return Err(RichieError::ArithmeticOverflow);
            },
        };
    }
    user_stake.stake_entries = renewed;
    Ok(())
}

/// Where a sum over the first `i` entries has left `u64`, so has the
/// settlement as a whole: either one entry does not settle, or no weight
/// is negative and the sums over all entries are no smaller.
proof fn lemma_sum_overflows(
    entries: Seq<StakeEntry>,
    epoch: Epoch,
    index: u64,
    duration: i64,
    i: int,
)
    requires
        0 <= i <= entries.len(),
    ensures
        (exists|k: int|
            0 <= k < entries.len() && !is_settled(#[trigger] entries[k], index) && !settles(
                entries[k],
                epoch,
                index,
                duration,
            )) || (sum_over(entries.take(i), reward_of(epoch, index)) <= reward_sum(
            entries,
            epoch,
            index,
        ) && sum_over(entries.take(i), carried_curve_of(index, duration)) <= carried_curve(
            entries,
            index,
            duration,
        )),
{
    let rewards = reward_of(epoch, index);
    let carries = carried_curve_of(index, duration);
    if !(exists|k: int|
        0 <= k < entries.len() && !is_settled(#[trigger] entries[k], index) && !settles(
            entries[k],
            epoch,
            index,
            duration,
        )) {
        assert forall|k: int| 0 <= k < entries.len() implies rewards(#[trigger] entries[k])
            >= 0 by {
            lemma_reward_not_negative(entries[k], epoch, index);
        }
        assert forall|k: int| 0 <= k < entries.len() implies carries(#[trigger] entries[k])
            >= 0 by {
            if !is_settled(entries[k], index) {
                assert(settles(entries[k], epoch, index, duration));
                lemma_renewed_not_negative(entries[k], index, duration);
            }
        }
        assert(never_negative(entries, rewards));
        assert(never_negative(entries, carries));
        lemma_sum_prefix(entries, rewards, i);
        lemma_sum_prefix(entries, carries, i);
    }
}

/// No entry earns less than nothing.
pub proof fn lemma_reward_not_negative(entry: StakeEntry, epoch: Epoch, index: u64)
    ensures
        entry_reward(entry, epoch, index) >= 0,
{
    let c = contribution(entry, index);
    if epoch.total_curve != 0 {
        assert(c * epoch.reward / (epoch.total_curve as int) >= 0) by (nonlinear_arith)
            requires
                c >= 0,
                epoch.reward >= 0,
                epoch.total_curve > 0,
        ;
    }
}

/// A renewed base curve that is a value of `u64` gives a renewed boosted
/// curve that is not negative.
pub proof fn lemma_renewed_not_negative(entry: StakeEntry, index: u64, duration: i64)
    requires
        fits_u64(renewed_base(entry, duration)),
    ensures
        renewed_boosted(entry, index, duration) >= 0,
{
    let base = renewed_base(entry, duration) as u64;
    assert(base * entry.multiplier / 100 >= 0) by (nonlinear_arith)
        requires
            base >= 0,
            entry.multiplier >= 0,
    ;
}

} // verus!
