//! What holds of the operations taken together: statements about all stake
//! accounts of an instance, about two operations in a row, and about
//! every epoch. Each is stated over the functions that the operations'
//! contracts are stated over.

use vstd::prelude::*;
use crate::claim::{
    exit_fits,
    exit_payout,
    exit_penalty,
    kept,
    leaves_early,
    lemma_kept_entries,
    withdraw_rejection,
    withdrawn_amount_of,
    withdrawn_payout_of,
    withdrawn_penalty_of,
};
use crate::curve::early_exit_penalty;
use crate::epoch::opened_epoch;
use crate::settlement::{
    carried_curve,
    contribution,
    is_settled,
    lemma_renewed_not_negative,
    lemma_reward_not_negative,
    pending_after,
    renewed_base,
    renewed_boosted,
    reward_of,
    reward_sum,
    settled_entries,
    settled_entry,
    settlement_overflows,
    settles,
    still_locked,
};
use crate::stake::{entries_after_deposit, entries_rejection, lemma_pre_launch_slot, pre_launch_slot};
use crate::state::{ConfigView, Epoch, StakeEntry, UserStakeView};
use crate::tally::{
    amount_of,
    boosted_curve_of,
    lemma_staked_amount_of_all_update,
    lemma_sum_push,
    lemma_sum_same_weights,
    lemma_sum_update,
    staked_amount,
    staked_amount_of_all,
    sum_over,
};

verus! {

/// A deposit adds its amount to the principal of the account.
pub proof fn lemma_deposit_adds_amount(entries: Seq<StakeEntry>, entry: StakeEntry)
    requires
        entries_rejection(entries, entry) is None,
    ensures
        staked_amount(entries_after_deposit(entries, entry)) == staked_amount(entries)
            + entry.amount,
{
    lemma_pre_launch_slot(entries);
    match pre_launch_slot(entries) {
        Some(k) if entry.last_staked_epoch_index == 0 => {
            lemma_sum_update(
                entries,
                amount_of(),
                k,
                StakeEntry { amount: (entries[k].amount + entry.amount) as u64, ..entries[k] },
            );
        },
        _ => {
            lemma_sum_push(entries, amount_of(), entry);
        },
    }
}

/// The staked total stays the principal of all stake accounts through a
/// deposit: where it was that before account `k` took `entry`, it is that
/// afterwards, grown by the amount.
pub proof fn lemma_deposit_keeps_total(
    accounts: Seq<Seq<StakeEntry>>,
    k: int,
    total_staked: u64,
    entry: StakeEntry,
)
    requires
        0 <= k < accounts.len(),
        total_staked == staked_amount_of_all(accounts),
        entries_rejection(accounts[k], entry) is None,
    ensures
        total_staked + entry.amount == staked_amount_of_all(
            accounts.update(k, entries_after_deposit(accounts[k], entry)),
        ),
{
    lemma_deposit_adds_amount(accounts[k], entry);
    lemma_staked_amount_of_all_update(accounts, k, entries_after_deposit(accounts[k], entry));
}

/// The staked total stays the principal of all stake accounts through a
/// withdrawal: where it was that before account `k` surrendered its entries
/// of `index`, it is that afterwards, less the principal surrendered.
pub proof fn lemma_withdrawal_keeps_total(
    accounts: Seq<Seq<StakeEntry>>,
    k: int,
    total_staked: u64,
    index: u64,
)
    requires
        0 <= k < accounts.len(),
        total_staked == staked_amount_of_all(accounts),
    ensures
        total_staked - sum_over(accounts[k], withdrawn_amount_of(index)) == staked_amount_of_all(
            accounts.update(k, accounts[k].filter(kept(index))),
        ),
{
    let account = UserStakeView {
        owner: arbitrary(),
        stake_entries: accounts[k],
        pending_reward: 0,
    };
    lemma_kept_entries(account, index, 0);
    lemma_staked_amount_of_all_update(accounts, k, accounts[k].filter(kept(index)));
}

/// A settlement moves no principal: the principal of all stake accounts is
/// the same before and after account `k` is settled.
pub proof fn lemma_settlement_keeps_total(
    accounts: Seq<Seq<StakeEntry>>,
    k: int,
    index: u64,
    duration: i64,
)
    requires
        0 <= k < accounts.len(),
    ensures
        staked_amount_of_all(accounts.update(k, settled_entries(accounts[k], index, duration)))
            == staked_amount_of_all(accounts),
{
    lemma_sum_same_weights(settled_entries(accounts[k], index, duration), accounts[k], amount_of());
    lemma_staked_amount_of_all_update(accounts, k, settled_entries(accounts[k], index, duration));
}

/// A stake account that is new holds nothing: the principal of all stake
/// accounts is the same with it and without it.
pub proof fn lemma_new_account_keeps_total(accounts: Seq<Seq<StakeEntry>>)
    ensures
        staked_amount_of_all(accounts.push(Seq::<StakeEntry>::empty())) == staked_amount_of_all(
            accounts,
        ),
{
    assert(accounts.push(Seq::<StakeEntry>::empty()).drop_last() =~= accounts);
}

/// The curve with which an entry takes part in the settlement under
/// `index`: nothing where it was settled already.
pub open spec fn contribution_of(index: u64) -> spec_fn(StakeEntry) -> int {
    |e: StakeEntry|
        if is_settled(e, index) {
            0
        } else {
            contribution(e, index) as int
        }
}

/// What all the accounts earn together in the settlement under `index`.
pub open spec fn reward_of_all(accounts: Seq<Seq<StakeEntry>>, epoch: Epoch, index: u64) -> int
    decreases accounts.len(),
{
    if accounts.len() == 0 {
        0
    } else {
        reward_of_all(accounts.drop_last(), epoch, index) + reward_sum(
            accounts.last(),
            epoch,
            index,
        )
    }
}

/// The curve with which all the accounts together take part in the
/// settlement under `index`.
pub open spec fn contribution_of_all(accounts: Seq<Seq<StakeEntry>>, index: u64) -> int
    decreases accounts.len(),
{
    if accounts.len() == 0 {
        0
    } else {
        contribution_of_all(accounts.drop_last(), index) + sum_over(
            accounts.last(),
            contribution_of(index),
        )
    }
}

/// What one account earns, times the epoch's total curve, is at most the
/// account's contribution times the budget; and it earns no less than
/// nothing.
proof fn lemma_account_reward_bound(entries: Seq<StakeEntry>, epoch: Epoch, index: u64)
    ensures
        0 <= reward_sum(entries, epoch, index),
        reward_sum(entries, epoch, index) * epoch.total_curve <= sum_over(
            entries,
            contribution_of(index),
        ) * epoch.reward,
        0 <= sum_over(entries, contribution_of(index)),
    decreases entries.len(),
{
    if entries.len() > 0 {
        lemma_account_reward_bound(entries.drop_last(), epoch, index);
        let e = entries.last();
        let c = contribution_of(index)(e);
        let s = reward_of(epoch, index)(e);
        let total = epoch.total_curve;
        let budget = epoch.reward;
        let earlier = reward_sum(entries.drop_last(), epoch, index);
        let earlier_c = sum_over(entries.drop_last(), contribution_of(index));
        lemma_reward_not_negative(e, epoch, index);
        assert(s * total <= c * budget) by {
            if !is_settled(e, index) && total != 0 {
                assert(s == c * budget / (total as int));
                assert((c * budget / (total as int)) * total <= c * budget) by (nonlinear_arith)
                    requires
                        total > 0,
                        c >= 0,
                        budget >= 0,
                ;
            } else {
                assert(s * total == 0) by (nonlinear_arith)
                    requires
                        s == 0 || total == 0,
                ;
                assert(c * budget >= 0) by (nonlinear_arith)
                    requires
                        c >= 0,
                        budget >= 0,
                ;
            }
        }
        assert((earlier + s) * total == earlier * total + s * total) by (nonlinear_arith);
        assert((earlier_c + c) * budget == earlier_c * budget + c * budget) by (nonlinear_arith);
    } else {
        assert(0 * epoch.total_curve == 0);
        assert(0 * epoch.reward == 0);
    }
}

/// What all accounts earn, times the epoch's total curve, is at most their
/// contribution times the budget.
proof fn lemma_all_rewards_bound(accounts: Seq<Seq<StakeEntry>>, epoch: Epoch, index: u64)
    ensures
        0 <= reward_of_all(accounts, epoch, index),
        reward_of_all(accounts, epoch, index) * epoch.total_curve <= contribution_of_all(
            accounts,
            index,
        ) * epoch.reward,
    decreases accounts.len(),
{
    if accounts.len() > 0 {
        lemma_all_rewards_bound(accounts.drop_last(), epoch, index);
        lemma_account_reward_bound(accounts.last(), epoch, index);
        let a = reward_of_all(accounts.drop_last(), epoch, index);
        let b = reward_sum(accounts.last(), epoch, index);
        let ca = contribution_of_all(accounts.drop_last(), index);
        let cb = sum_over(accounts.last(), contribution_of(index));
        let total = epoch.total_curve;
        let budget = epoch.reward;
        assert((a + b) * total == a * total + b * total) by (nonlinear_arith);
        assert((ca + cb) * budget == ca * budget + cb * budget) by (nonlinear_arith);
    } else {
        assert(0 * epoch.total_curve == 0);
        assert(0 * epoch.reward == 0);
    }
}

/// Where the total is zero, nobody earns anything.
proof fn lemma_no_curve_no_reward(accounts: Seq<Seq<StakeEntry>>, epoch: Epoch, index: u64)
    requires
        epoch.total_curve == 0,
    ensures
        reward_of_all(accounts, epoch, index) == 0,
    decreases accounts.len(),
{
    if accounts.len() > 0 {
        lemma_no_curve_no_reward(accounts.drop_last(), epoch, index);
        lemma_account_earns_nothing(accounts.last(), epoch, index);
    }
}

/// Where the total is zero, an account earns nothing.
proof fn lemma_account_earns_nothing(entries: Seq<StakeEntry>, epoch: Epoch, index: u64)
    requires
        epoch.total_curve == 0,
    ensures
        reward_sum(entries, epoch, index) == 0,
    decreases entries.len(),
{
    if entries.len() > 0 {
        lemma_account_earns_nothing(entries.drop_last(), epoch, index);
    }
}

/// No over-distribution: while the curves with which the accounts take
/// part in the settlement of an epoch add up to no more than the epoch's
/// total curve, the rewards that the settlement hands out add up to no
/// more than the epoch's budget.
pub proof fn lemma_no_over_distribution(accounts: Seq<Seq<StakeEntry>>, epoch: Epoch, index: u64)
    requires
        contribution_of_all(accounts, index) <= epoch.total_curve,
    ensures
        0 <= reward_of_all(accounts, epoch, index) <= epoch.reward,
{
    if epoch.total_curve == 0 {
        lemma_no_curve_no_reward(accounts, epoch, index);
    } else {
        lemma_all_rewards_bound(accounts, epoch, index);
        let earned = reward_of_all(accounts, epoch, index);
        let part = contribution_of_all(accounts, index);
        let total = epoch.total_curve;
        let budget = epoch.reward;
        assert(earned <= budget) by (nonlinear_arith)
            requires
                earned * total <= part * budget,
                part <= total,
                total > 0,
                budget >= 0,
                earned >= 0,
        ;
    }
}

/// An account that is settled no further than one epoch index is settled
/// no further than any later one: a turnover, which moves the current
/// index on, keeps every entry's settled index at or below it.
pub proof fn lemma_settled_up_to_grows(account: UserStakeView, index: u64, later: u64)
    requires
        account.settled_up_to(index),
        index <= later,
    ensures
        account.settled_up_to(later),
{
}

/// The accounts after each of them was settled under `index`.
pub open spec fn settled_accounts(accounts: Seq<Seq<StakeEntry>>, index: u64, duration: i64) -> Seq<
    Seq<StakeEntry>,
> {
    Seq::new(accounts.len(), |k: int| settled_entries(accounts[k], index, duration))
}

/// What all the accounts together add to the curve carried forward in the
/// settlement under `index`.
pub open spec fn carried_curve_of_all(accounts: Seq<Seq<StakeEntry>>, index: u64, duration: i64) -> int
    decreases accounts.len(),
{
    if accounts.len() == 0 {
        0
    } else {
        carried_curve_of_all(accounts.drop_last(), index, duration) + carried_curve(
            accounts.last(),
            index,
            duration,
        )
    }
}

/// The boosted curves of all entries of all accounts.
pub open spec fn boosted_curve_of_all(accounts: Seq<Seq<StakeEntry>>) -> int
    decreases accounts.len(),
{
    if accounts.len() == 0 {
        0
    } else {
        boosted_curve_of_all(accounts.drop_last()) + sum_over(accounts.last(), boosted_curve_of())
    }
}

/// Whether every entry of the account is yet to be settled under `index`,
/// and settles without leaving `u64`.
pub open spec fn all_to_settle(entries: Seq<StakeEntry>, epoch: Epoch, index: u64, duration: i64) -> bool {
    forall|i: int|
        0 <= i < entries.len() ==> !is_settled(#[trigger] entries[i], index) && settles(
            entries[i],
            epoch,
            index,
            duration,
        )
}

/// What an account adds to the curve carried forward is the sum of the
/// boosted curves that its entries have after the settlement, where every
/// entry was yet to be settled.
pub proof fn lemma_carried_curve_is_boosted_sum(
    entries: Seq<StakeEntry>,
    epoch: Epoch,
    index: u64,
    duration: i64,
)
    requires
        all_to_settle(entries, epoch, index, duration),
    ensures
        carried_curve(entries, index, duration) == sum_over(
            settled_entries(entries, index, duration),
            boosted_curve_of(),
        ),
    decreases entries.len(),
{
    let after = settled_entries(entries, index, duration);
    if entries.len() > 0 {
        let rest = entries.drop_last();
        assert forall|i: int| 0 <= i < rest.len() implies !is_settled(#[trigger] rest[i], index)
            && settles(rest[i], epoch, index, duration) by {
            assert(rest[i] == entries[i]);
        }
        lemma_carried_curve_is_boosted_sum(rest, epoch, index, duration);
        assert(after.drop_last() =~= settled_entries(rest, index, duration));
        let e = entries.last();
        assert(e == entries[entries.len() - 1]);
        assert(after.last() == settled_entry(e, index, duration));
        lemma_renewed_not_negative(e, index, duration);
        assert(settles(e, epoch, index, duration));
        lemma_renewed_fits(e, index, duration);
    } else {
        assert(after =~= Seq::<StakeEntry>::empty());
    }
}

/// The renewed boosted curve of an entry whose renewal stays in `u64` is a
/// value of `u64`.
proof fn lemma_renewed_fits(entry: StakeEntry, index: u64, duration: i64)
    requires
        0 <= renewed_base(entry, duration) <= u64::MAX,
        still_locked(entry, index) ==> renewed_base(
            entry,
            duration,
        ) * entry.multiplier <= u64::MAX,
    ensures
        0 <= renewed_boosted(entry, index, duration) <= u64::MAX,
{
    let base = renewed_base(entry, duration);
    if still_locked(entry, index) {
        assert(0 <= base * entry.multiplier / 100 <= base * entry.multiplier) by (nonlinear_arith)
            requires
                base >= 0,
                entry.multiplier >= 0,
        ;
    }
}

/// The curve carried forward is the sum of the boosted curves of all
/// entries: after a turnover has set it to zero and every account was
/// settled once, each settlement having added the account's share, it is
/// what all entries of all accounts hold as boosted curve.
pub proof fn lemma_carry_forward_is_boosted_sum(
    accounts: Seq<Seq<StakeEntry>>,
    epoch: Epoch,
    index: u64,
    duration: i64,
)
    requires
        forall|k: int|
            0 <= k < accounts.len() ==> all_to_settle(#[trigger] accounts[k], epoch, index, duration),
    ensures
        carried_curve_of_all(accounts, index, duration) == boosted_curve_of_all(
            settled_accounts(accounts, index, duration),
        ),
    decreases accounts.len(),
{
    let after = settled_accounts(accounts, index, duration);
    if accounts.len() > 0 {
        let rest = accounts.drop_last();
        assert forall|k: int| 0 <= k < rest.len() implies all_to_settle(
            #[trigger] rest[k],
            epoch,
            index,
            duration,
        ) by {
            assert(rest[k] == accounts[k]);
        }
        lemma_carry_forward_is_boosted_sum(rest, epoch, index, duration);
        assert(after.drop_last() =~= settled_accounts(rest, index, duration));
        assert(accounts.last() == accounts[accounts.len() - 1]);
        lemma_carried_curve_is_boosted_sum(accounts.last(), epoch, index, duration);
    } else {
        assert(after =~= Seq::<Seq<StakeEntry>>::empty());
    }
}

/// The total curve of a newly opened epoch is the sum of the boosted curves
/// of all entries that exist when it opens, where the curve carried forward
/// is what the settlement of all accounts has added up.
pub proof fn lemma_opened_epoch_total_curve(
    config: ConfigView,
    accounts: Seq<Seq<StakeEntry>>,
    closed: Epoch,
    settled_under: u64,
    now: i64,
    index: u64,
    reward_amount: u64,
)
    requires
        forall|k: int|
            0 <= k < accounts.len() ==> all_to_settle(
                #[trigger] accounts[k],
                closed,
                settled_under,
                config.epoch_duration,
            ),
        config.total_curve == carried_curve_of_all(accounts, settled_under, config.epoch_duration),
    ensures
        opened_epoch(config, now, index, reward_amount).total_curve == boosted_curve_of_all(
            settled_accounts(accounts, settled_under, config.epoch_duration),
        ),
{
    lemma_carry_forward_is_boosted_sum(accounts, closed, settled_under, config.epoch_duration);
}

/// Settlement is idempotent: an account that was settled under `index` is
/// left as it is by another settlement under `index`, whatever the epoch
/// and the duration: its entries stay, it earns nothing and carries nothing
/// forward, so that its pending reward stays what it was.
pub proof fn lemma_settlement_is_idempotent(
    entries: Seq<StakeEntry>,
    index: u64,
    duration: i64,
    epoch: Epoch,
    later_duration: i64,
    pending: u64,
)
    ensures
        settled_entries(settled_entries(entries, index, duration), index, later_duration)
            == settled_entries(entries, index, duration),
        reward_sum(settled_entries(entries, index, duration), epoch, index) == 0,
        carried_curve(settled_entries(entries, index, duration), index, later_duration) == 0,
        pending_after(
            pending,
            epoch,
            reward_sum(settled_entries(entries, index, duration), epoch, index),
        ) == pending,
{
    let once = settled_entries(entries, index, duration);
    assert(settled_entries(once, index, later_duration) =~= once);
    lemma_settled_sums_vanish(once, index, epoch, later_duration);
}

/// An account whose entries are all settled under `index` earns nothing
/// and carries nothing forward in a settlement under `index`.
pub proof fn lemma_settled_sums_vanish(
    entries: Seq<StakeEntry>,
    index: u64,
    epoch: Epoch,
    duration: i64,
)
    requires
        forall|i: int| 0 <= i < entries.len() ==> is_settled(#[trigger] entries[i], index),
    ensures
        reward_sum(entries, epoch, index) == 0,
        carried_curve(entries, index, duration) == 0,
    decreases entries.len(),
{
    if entries.len() > 0 {
        let rest = entries.drop_last();
        assert forall|i: int| 0 <= i < rest.len() implies is_settled(#[trigger] rest[i], index) by {
            assert(rest[i] == entries[i]);
        }
        lemma_settled_sums_vanish(rest, index, epoch, duration);
        assert(entries.last() == entries[entries.len() - 1]);
    }
}

/// A second settlement of a funded epoch is not turned down for overflow:
/// with every entry settled, nothing is left to compute.
pub proof fn lemma_settled_account_settles_again(
    config: ConfigView,
    epoch: Epoch,
    entries: Seq<StakeEntry>,
    index: u64,
)
    requires
        forall|i: int| 0 <= i < entries.len() ==> is_settled(#[trigger] entries[i], index),
        epoch.index != 0,
    ensures
        !settlement_overflows(config, epoch, entries, index),
{
    lemma_settled_sums_vanish(entries, index, epoch, config.epoch_duration);
}

/// Deposit and withdrawal are inverse: an entry that joins an account
/// holding nothing of its epoch index, and leaves when its lock is over,
/// returns exactly its amount, forfeits nothing, and leaves the account's
/// entries as they were before the deposit.
pub proof fn lemma_deposit_withdraw_round_trip(
    entries: Seq<StakeEntry>,
    entry: StakeEntry,
    current_index: u64,
)
    requires
        forall|i: int|
            0 <= i < entries.len() ==> (#[trigger] entries[i]).last_staked_epoch_index
                != entry.last_staked_epoch_index,
        !leaves_early(entry, current_index),
    ensures
        entries_after_deposit(entries, entry) == entries.push(entry),
        sum_over(
            entries_after_deposit(entries, entry),
            withdrawn_payout_of(entry.last_staked_epoch_index, current_index),
        ) == entry.amount,
        sum_over(
            entries_after_deposit(entries, entry),
            withdrawn_penalty_of(entry.last_staked_epoch_index, current_index),
        ) == 0,
        entries_after_deposit(entries, entry).filter(kept(entry.last_staked_epoch_index))
            == entries,
{
    let index = entry.last_staked_epoch_index;
    lemma_pre_launch_slot(entries);
    let after = entries_after_deposit(entries, entry);
    assert(after == entries.push(entry));
    lemma_sum_push(entries, withdrawn_payout_of(index, current_index), entry);
    lemma_sum_push(entries, withdrawn_penalty_of(index, current_index), entry);
    lemma_untouched_sums_vanish(entries, index, current_index);
    lemma_kept_all(entries, index);
    reveal(Seq::filter);
    assert(after.drop_last() =~= entries);
}

/// A withdrawal for an index of which the account holds nothing pays out
/// and forfeits nothing.
proof fn lemma_untouched_sums_vanish(entries: Seq<StakeEntry>, index: u64, current_index: u64)
    requires
        forall|i: int|
            0 <= i < entries.len() ==> (#[trigger] entries[i]).last_staked_epoch_index != index,
    ensures
        sum_over(entries, withdrawn_payout_of(index, current_index)) == 0,
        sum_over(entries, withdrawn_penalty_of(index, current_index)) == 0,
        sum_over(entries, withdrawn_amount_of(index)) == 0,
    decreases entries.len(),
{
    if entries.len() > 0 {
        let rest = entries.drop_last();
        assert forall|i: int| 0 <= i < rest.len() implies (
        #[trigger] rest[i]).last_staked_epoch_index != index by {
            assert(rest[i] == entries[i]);
        }
        lemma_untouched_sums_vanish(rest, index, current_index);
        assert(entries.last() == entries[entries.len() - 1]);
    }
}

/// A withdrawal for an index of which the account holds nothing keeps
/// every entry.
proof fn lemma_kept_all(entries: Seq<StakeEntry>, index: u64)
    requires
        forall|i: int|
            0 <= i < entries.len() ==> (#[trigger] entries[i]).last_staked_epoch_index != index,
    ensures
        entries.filter(kept(index)) == entries,
    decreases entries.len(),
{
    reveal(Seq::filter);
    if entries.len() > 0 {
        let rest = entries.drop_last();
        assert forall|i: int| 0 <= i < rest.len() implies (
        #[trigger] rest[i]).last_staked_epoch_index != index by {
            assert(rest[i] == entries[i]);
        }
        lemma_kept_all(rest, index);
        assert(entries.last() == entries[entries.len() - 1]);
        assert(rest.push(entries.last()) =~= entries);
    }
}

/// A round trip is not turned down: the withdrawal of the lemma above
/// succeeds where the deposit was of more than nothing and the staked
/// total covers it.
pub proof fn lemma_round_trip_succeeds(
    entries: Seq<StakeEntry>,
    entry: StakeEntry,
    total_staked: u64,
    current_index: u64,
)
    requires
        forall|i: int|
            0 <= i < entries.len() ==> (#[trigger] entries[i]).last_staked_epoch_index
                != entry.last_staked_epoch_index,
        !leaves_early(entry, current_index),
        0 < entry.amount <= total_staked,
    ensures
        withdraw_rejection(
            entries_after_deposit(entries, entry),
            total_staked,
            entry.last_staked_epoch_index,
            current_index,
        ) is None,
{
    let index = entry.last_staked_epoch_index;
    lemma_deposit_withdraw_round_trip(entries, entry, current_index);
    lemma_untouched_sums_vanish(entries, index, current_index);
    lemma_sum_push(entries, withdrawn_amount_of(index), entry);
    let after = entries_after_deposit(entries, entry);
    assert forall|i: int| 0 <= i < after.len() && (#[trigger] after[i]).last_staked_epoch_index
        == index implies exit_fits(after[i], current_index) by {
        if i < entries.len() {
            assert(after[i] == entries[i]);
        }
    }
}

/// Burn conservation: what an early leaver gets back and what it forfeits
/// add up to its principal; it forfeits five percent of it, rounded down,
/// and exactly five percent where the principal is a multiple of twenty.
pub proof fn lemma_early_exit_conserves(entry: StakeEntry, current_index: u64)
    requires
        leaves_early(entry, current_index),
    ensures
        exit_payout(entry, current_index) + exit_penalty(entry, current_index) == entry.amount,
        exit_penalty(entry, current_index) == early_exit_penalty(entry.amount),
        0 <= exit_penalty(entry, current_index) <= entry.amount,
        entry.amount % 20 == 0 ==> exit_penalty(entry, current_index) * 100 == entry.amount * 5
            && exit_payout(entry, current_index) * 100 == entry.amount * 95,
{
}

/// An entry that stayed until its lock was over gets its whole principal
/// back and forfeits nothing.
pub proof fn lemma_on_time_exit_is_free(entry: StakeEntry, current_index: u64)
    requires
        !leaves_early(entry, current_index),
    ensures
        exit_payout(entry, current_index) == entry.amount,
        exit_penalty(entry, current_index) == 0,
{
}

} // verus!
