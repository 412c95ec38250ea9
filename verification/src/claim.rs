//! Leaving: claiming the pending reward, and withdrawing the principal of
//! the entries created under one epoch index.

use vstd::prelude::*;
use crate::curve::{checked_early_exit_penalty, early_exit_penalty, EARLY_EXIT_PENALTY_PERCENT};
use crate::error::RichieError;
use crate::state::{Config, ConfigView, Epoch, StakeEntry, UserStake, UserStakeView};
use crate::tally::{
    amount_of,
    lemma_sum_agrees,
    lemma_sum_empty,
    lemma_sum_prefix,
    lemma_sum_split,
    lemma_sum_step,
    never_negative,
    staked_amount,
    sum_over,
};

verus! {

/// What the host pays out of the reward vault after a claim.
#[derive(Clone, Copy, Debug, PartialEq, Eq, Structural)]
pub struct RewardPayment {
    /// Reward tokens owed to the claimer.
    pub amount: u64,
}

/// What the host moves out of the stake vault after a withdrawal.
#[derive(Clone, Copy, Debug, PartialEq, Eq, Structural)]
pub struct Withdrawal {
    /// Stake tokens returned to the staker.
    pub payout: u64,
    /// Stake tokens burned out of the vault.
    pub burn: u64,
}

/// The first epoch index at which the entry can leave without penalty.
pub open spec fn lock_end(entry: StakeEntry) -> int {
    entry.last_staked_epoch_index + entry.lock_period
}

/// Whether the entry leaves under `current_index` before its lock is over.
pub open spec fn leaves_early(entry: StakeEntry, current_index: u64) -> bool {
    current_index < lock_end(entry)
}

/// What the entry forfeits when it leaves under `current_index`.
pub open spec fn exit_penalty(entry: StakeEntry, current_index: u64) -> int {
    if leaves_early(entry, current_index) {
        early_exit_penalty(entry.amount)
    } else {
        0
    }
}

/// What the entry returns to its staker when it leaves under
/// `current_index`.
pub open spec fn exit_payout(entry: StakeEntry, current_index: u64) -> int {
    entry.amount - exit_penalty(entry, current_index)
}

/// The curve that leaves the current epoch with the entry: the boosted
/// curve of an early leaver, the base curve of one that stayed.
pub open spec fn unearned_curve(entry: StakeEntry, current_index: u64) -> int {
    if leaves_early(entry, current_index) {
        entry.boosted_curve as int
    } else {
        entry.base_curve as int
    }
}

/// Whether the arithmetic of the entry's exit stays in `u64`.
pub open spec fn exit_fits(entry: StakeEntry, current_index: u64) -> bool {
    &&& lock_end(entry) <= u64::MAX
    &&& leaves_early(entry, current_index) ==> entry.amount * EARLY_EXIT_PENALTY_PERCENT
        <= u64::MAX
}

/// The entries that a withdrawal for `index` leaves in place.
pub open spec fn kept(index: u64) -> spec_fn(StakeEntry) -> bool {
    |e: StakeEntry| e.last_staked_epoch_index != index
}

/// The principal of an entry that a withdrawal for `index` takes.
pub open spec fn withdrawn_amount_of(index: u64) -> spec_fn(StakeEntry) -> int {
    |e: StakeEntry|
        if e.last_staked_epoch_index == index {
            e.amount as int
        } else {
            0
        }
}

/// What an entry that a withdrawal for `index` takes returns to its staker.
pub open spec fn withdrawn_payout_of(index: u64, current_index: u64) -> spec_fn(StakeEntry) -> int {
    |e: StakeEntry|
        if e.last_staked_epoch_index == index {
            exit_payout(e, current_index)
        } else {
            0
        }
}

/// What an entry that a withdrawal for `index` takes forfeits.
pub open spec fn withdrawn_penalty_of(index: u64, current_index: u64) -> spec_fn(
    StakeEntry,
) -> int {
    |e: StakeEntry|
        if e.last_staked_epoch_index == index {
            exit_penalty(e, current_index)
        } else {
            0
        }
}

/// The curve that an entry that a withdrawal for `index` takes removes
/// from the current epoch.
pub open spec fn withdrawn_curve_of(index: u64, current_index: u64) -> spec_fn(StakeEntry) -> int {
    |e: StakeEntry|
        if e.last_staked_epoch_index == index {
            unearned_curve(e, current_index)
        } else {
            0
        }
}

/// Whether a withdrawal for `index` leaves the range of `u64`: in the exit
/// of one of its entries, or by taking more principal than is staked.
pub open spec fn withdraw_overflows(
    entries: Seq<StakeEntry>,
    total_staked: u64,
    index: u64,
    current_index: u64,
) -> bool {
    ||| exists|i: int|
        0 <= i < entries.len() && (#[trigger] entries[i]).last_staked_epoch_index == index
            && !exit_fits(entries[i], current_index)
    ||| sum_over(entries, withdrawn_amount_of(index)) > total_staked
}

/// The reason for which a withdrawal for `index` is turned down, if any.
pub open spec fn withdraw_rejection(
    entries: Seq<StakeEntry>,
    total_staked: u64,
    index: u64,
    current_index: u64,
) -> Option<RichieError> {
    if withdraw_overflows(entries, total_staked, index, current_index) {
        Some(RichieError::ArithmeticOverflow)
    } else if sum_over(entries, withdrawn_payout_of(index, current_index)) == 0 {
        Some(RichieError::NothingToWithdraw)
    } else {
        None
    }
}

/// `total` less `taken`, and zero where more is taken than there is.
pub open spec fn saturating_less(total: u64, taken: int) -> int {
    if taken >= total {
        0
    } else {
        total - taken
    }
}

/// The entries kept among the first `i + 1` are those kept among the first
/// `i`, and entry `i` where it is kept.
proof fn lemma_kept_step(entries: Seq<StakeEntry>, index: u64, i: int)
    requires
        0 <= i < entries.len(),
    ensures
        entries.take(i + 1).filter(kept(index)) == if entries[i].last_staked_epoch_index != index {
            entries.take(i).filter(kept(index)).push(entries[i])
        } else {
            entries.take(i).filter(kept(index))
        },
{
    reveal(Seq::filter);
    assert(entries.take(i + 1).drop_last() =~= entries.take(i));
}

/// What a withdrawal for `index` leaves in place: the principal that it
/// does not take, in an account that is well formed and settled no further
/// than the one it came from.
pub proof fn lemma_kept_entries(account: UserStakeView, index: u64, settled: u64)
    ensures
        staked_amount(account.stake_entries.filter(kept(index))) == staked_amount(
            account.stake_entries,
        ) - sum_over(account.stake_entries, withdrawn_amount_of(index)),
        account.wf() ==> (UserStakeView {
            stake_entries: account.stake_entries.filter(kept(index)),
            ..account
        }).wf(),
        account.settled_up_to(settled) ==> (UserStakeView {
            stake_entries: account.stake_entries.filter(kept(index)),
            ..account
        }).settled_up_to(settled),
{
    let entries = account.stake_entries;
    let left = entries.filter(kept(index));
    lemma_sum_split(entries, amount_of(), kept(index));
    lemma_sum_agrees(
        entries,
        |e: StakeEntry|
            if kept(index)(e) {
                0
            } else {
                amount_of()(e)
            },
        withdrawn_amount_of(index),
    );
    entries.lemma_filter_len(kept(index));
    assert forall|i: int| 0 <= i < left.len() implies entries.contains(#[trigger] left[i]) by {
        assert(left.contains(left[i]));
        entries.lemma_filter_contains_rev(kept(index), left[i]);
    }
    if account.wf() {
        assert forall|i: int| 0 <= i < left.len() implies (#[trigger] left[i]).wf() by {
            assert(entries.contains(left[i]));
        }
    }
    if account.settled_up_to(settled) {
        assert forall|i: int| 0 <= i < left.len() implies (#[trigger] left[i]).calculated_index
            <= settled by {
            assert(entries.contains(left[i]));
        }
    }
}

/// Hands the pending reward of `user_stake` over for payment and sets it to
/// zero. Fails with `NoReward` where nothing is pending.
pub fn claim(user_stake: &mut UserStake) -> (r: Result<RewardPayment, RichieError>)
    ensures
        match r {
            Ok(payment) => {
                &&& old(user_stake).pending_reward > 0
                &&& payment.amount == old(user_stake).pending_reward
                &&& final(user_stake)@ == (UserStakeView { pending_reward: 0, ..old(user_stake)@ })
            },
            Err(e) => {
                &&& old(user_stake).pending_reward == 0
                &&& e == RichieError::NoReward
                &&& final(user_stake)@ == old(user_stake)@
            },
        },
{
    let amount = user_stake.pending_reward;
    if amount == 0 {
        return Err(RichieError::NoReward);
    }
    user_stake.pending_reward = 0;
    Ok(RewardPayment { amount })
}

/// Surrenders every entry of `user_stake` that was created under `index`.
///
/// An entry that leaves before `config.index` has reached its lock end
/// forfeits five percent of its principal, which the host burns; the rest
/// of the principal goes back to the staker. The principal leaves
/// `config.total_staked`, and the entry's curve leaves `epoch.total_curve`,
/// which stops at zero.
///
/// Fails with `ArithmeticOverflow` where [`withdraw_overflows`], and else
/// with `NothingToWithdraw` where the payout would be zero.
pub fn withdraw(
    config: &mut Config,
    epoch: &mut Epoch,
    user_stake: &mut UserStake,
    index: u64,
) -> (r: Result<Withdrawal, RichieError>)
    ensures
        match r {
            Ok(w) => {
                &&& withdraw_rejection(
                    old(user_stake)@.stake_entries,
                    old(config).total_staked,
                    index,
                    old(config).index,
                ) is None
                &&& w.payout == sum_over(
                    old(user_stake)@.stake_entries,
                    withdrawn_payout_of(index, old(config).index),
                )
                &&& w.burn == sum_over(
                    old(user_stake)@.stake_entries,
                    withdrawn_penalty_of(index, old(config).index),
                )
                &&& w.payout + w.burn == sum_over(
                    old(user_stake)@.stake_entries,
                    withdrawn_amount_of(index),
                )
                &&& final(user_stake)@ == (UserStakeView {
                    stake_entries: old(user_stake)@.stake_entries.filter(kept(index)),
                    ..old(user_stake)@
                })
                &&& final(config)@ == (ConfigView {
                    total_staked: (old(config).total_staked - sum_over(
                        old(user_stake)@.stake_entries,
                        withdrawn_amount_of(index),
                    )) as u64,
                    ..old(config)@
                })
                &&& staked_amount(final(user_stake)@.stake_entries) == staked_amount(
                    old(user_stake)@.stake_entries,
                ) - sum_over(old(user_stake)@.stake_entries, withdrawn_amount_of(index))
                &&& old(user_stake).wf() ==> final(user_stake).wf()
                &&& old(epoch).wf() ==> final(epoch).wf()
                &&& old(user_stake)@.settled_up_to(old(config).index)
                    ==> final(user_stake)@.settled_up_to(old(config).index)
                &&& *final(epoch) == (Epoch {
                    total_curve: saturating_less(
                        old(epoch).total_curve,
                        sum_over(
                            old(user_stake)@.stake_entries,
                            withdrawn_curve_of(index, old(config).index),
                        ),
                    ) as u64,
                    ..*old(epoch)
                })
            },
            Err(e) => {
                &&& withdraw_rejection(
                    old(user_stake)@.stake_entries,
                    old(config).total_staked,
                    index,
                    old(config).index,
                ) == Some(e)
                &&& final(config)@ == old(config)@
                &&& *final(epoch) == *old(epoch)
                &&& final(user_stake)@ == old(user_stake)@
            },
        },
{
    let current_index = config.index;
    let total_staked = config.total_staked;
    let ghost all = user_stake.stake_entries@;
    let ghost amounts = withdrawn_amount_of(index);
    let ghost payouts = withdrawn_payout_of(index, current_index);
    let ghost penalties = withdrawn_penalty_of(index, current_index);
    let ghost curves = withdrawn_curve_of(index, current_index);

    let mut remaining: Vec<StakeEntry> = Vec::new();
    let mut staked_left: u64 = total_staked;
    let mut curve_left: u64 = epoch.total_curve;
    let mut payout: u64 = 0;
    let mut burn: u64 = 0;
    let mut i: usize = 0;
    proof {
        assert(all.take(0) =~= Seq::<StakeEntry>::empty());
        lemma_sum_empty(amounts);
        lemma_sum_empty(payouts);
        lemma_sum_empty(penalties);
        lemma_sum_empty(curves);
        reveal(Seq::filter);
        assert(never_negative(all, amounts));
    }
    while i < user_stake.stake_entries.len()
        invariant
            0 <= i <= all.len(),
            user_stake.stake_entries@ == all,
            all == old(user_stake)@.stake_entries,
            user_stake@ == old(user_stake)@,
            config@ == old(config)@,
            *epoch == *old(epoch),
            current_index == old(config).index,
            total_staked == old(config).total_staked,
            amounts == withdrawn_amount_of(index),
            payouts == withdrawn_payout_of(index, current_index),
            penalties == withdrawn_penalty_of(index, current_index),
            curves == withdrawn_curve_of(index, current_index),
            never_negative(all, amounts),
            remaining@ == all.take(i as int).filter(kept(index)),
            sum_over(all.take(i as int), amounts) <= total_staked,
            staked_left == total_staked - sum_over(all.take(i as int), amounts),
            curve_left == saturating_less(epoch.total_curve, sum_over(all.take(i as int), curves)),
            sum_over(all.take(i as int), curves) >= 0,
            payout == sum_over(all.take(i as int), payouts),
            burn == sum_over(all.take(i as int), penalties),
            payout + burn == sum_over(all.take(i as int), amounts),
            forall|j: int|
                0 <= j < i && (#[trigger] all[j]).last_staked_epoch_index == index ==> exit_fits(
                    all[j],
                    current_index,
                ),
        decreases all.len() - i,
    {
        let entry = user_stake.stake_entries[i];
        proof {
            lemma_sum_step(all, amounts, i as int);
            lemma_sum_step(all, payouts, i as int);
            lemma_sum_step(all, penalties, i as int);
            lemma_sum_step(all, curves, i as int);
            lemma_kept_step(all, index, i as int);
            lemma_sum_prefix(all, amounts, i as int + 1);
        }
        if entry.last_staked_epoch_index == index {
            let end_epoch = match entry.last_staked_epoch_index.checked_add(entry.lock_period as u64) {
                Some(end) => end,
                None => {
                    assert(!exit_fits(all[i as int], current_index));
                    return Err(RichieError::ArithmeticOverflow);
                },
            };
            let early = current_index < end_epoch;
            let penalty: u64 = if early {
                match checked_early_exit_penalty(entry.amount) {
                    Some(p) => p,
                    None => {
                        assert(!exit_fits(all[i as int], current_index));
                        return Err(RichieError::ArithmeticOverflow);
                    },
                }
            } else {
                0
            };
            let unearned = if early {
                entry.boosted_curve
            } else {
                entry.base_curve
            };
            staked_left = match staked_left.checked_sub(entry.amount) {
                Some(left) => left,
                None => {
                    return Err(RichieError::ArithmeticOverflow);
                },
            };
            assert(penalty <= entry.amount);
            payout = payout + (entry.amount - penalty);
            burn = burn + penalty;
            curve_left = curve_left.saturating_sub(unearned);
        } else {
            remaining.push(entry);
        }
        i += 1;
    }
    proof {
        assert(all.take(i as int) =~= all);
        lemma_kept_entries(user_stake@, index, current_index);
    }
    if payout == 0 {
        return Err(RichieError::NothingToWithdraw);
    }
    user_stake.stake_entries = remaining;
    config.total_staked = staked_left;
    epoch.total_curve = curve_left;
    Ok(Withdrawal { payout, burn })
}

} // verus!
