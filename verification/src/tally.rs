//! Sums over the entries of a stake account, and the facts about them that
//! the operations and the laws rest on.

use vstd::prelude::*;
use crate::state::StakeEntry;

verus! {

/// The sum of `weight` over `entries`.
pub open spec fn sum_over(entries: Seq<StakeEntry>, weight: spec_fn(StakeEntry) -> int) -> int
    decreases entries.len(),
{
    if entries.len() == 0 {
        0
    } else {
        sum_over(entries.drop_last(), weight) + weight(entries.last())
    }
}

/// The principal of an entry.
pub open spec fn amount_of() -> spec_fn(StakeEntry) -> int {
    |e: StakeEntry| e.amount as int
}

/// The boosted curve of an entry.
pub open spec fn boosted_curve_of() -> spec_fn(StakeEntry) -> int {
    |e: StakeEntry| e.boosted_curve as int
}

/// The principal that a stake account holds.
pub open spec fn staked_amount(entries: Seq<StakeEntry>) -> int {
    sum_over(entries, amount_of())
}

/// The principal that all the stake accounts in `accounts` hold together.
pub open spec fn staked_amount_of_all(accounts: Seq<Seq<StakeEntry>>) -> int
    decreases accounts.len(),
{
    if accounts.len() == 0 {
        0
    } else {
        staked_amount_of_all(accounts.drop_last()) + staked_amount(accounts.last())
    }
}

/// Whether `weight` is negative on no entry.
pub open spec fn never_negative(entries: Seq<StakeEntry>, weight: spec_fn(StakeEntry) -> int) -> bool {
    forall|i: int| 0 <= i < entries.len() ==> weight(#[trigger] entries[i]) >= 0
}

/// The sum over the first `i + 1` entries is the sum over the first `i`
/// plus the weight of entry `i`.
pub proof fn lemma_sum_step(entries: Seq<StakeEntry>, weight: spec_fn(StakeEntry) -> int, i: int)
    requires
        0 <= i < entries.len(),
    ensures
        sum_over(entries.take(i + 1), weight) == sum_over(entries.take(i), weight) + weight(
            entries[i],
        ),
{
    assert(entries.take(i + 1).drop_last() =~= entries.take(i));
}

/// The sum over no entries is zero.
pub proof fn lemma_sum_empty(weight: spec_fn(StakeEntry) -> int)
    ensures
        sum_over(Seq::<StakeEntry>::empty(), weight) == 0,
{
}

/// Appending an entry adds its weight.
pub proof fn lemma_sum_push(
    entries: Seq<StakeEntry>,
    weight: spec_fn(StakeEntry) -> int,
    entry: StakeEntry,
)
    ensures
        sum_over(entries.push(entry), weight) == sum_over(entries, weight) + weight(entry),
{
    assert(entries.push(entry).drop_last() =~= entries);
}

/// Replacing an entry replaces its weight.
pub proof fn lemma_sum_update(
    entries: Seq<StakeEntry>,
    weight: spec_fn(StakeEntry) -> int,
    k: int,
    entry: StakeEntry,
)
    requires
        0 <= k < entries.len(),
    ensures
        sum_over(entries.update(k, entry), weight) == sum_over(entries, weight) - weight(entries[k])
            + weight(entry),
    decreases entries.len(),
{
    let updated = entries.update(k, entry);
    if k == entries.len() - 1 {
        assert(updated.drop_last() =~= entries.drop_last());
    } else {
        lemma_sum_update(entries.drop_last(), weight, k, entry);
        assert(updated.drop_last() =~= entries.drop_last().update(k, entry));
    }
}

/// With weights that are never negative, a sum over the first entries is
/// at least zero and at most the sum over all of them.
pub proof fn lemma_sum_prefix(entries: Seq<StakeEntry>, weight: spec_fn(StakeEntry) -> int, i: int)
    requires
        0 <= i <= entries.len(),
        never_negative(entries, weight),
    ensures
        0 <= sum_over(entries.take(i), weight) <= sum_over(entries, weight),
    decreases entries.len() - i,
{
    if i == entries.len() {
        assert(entries.take(i) =~= entries);
        lemma_sum_nonnegative(entries, weight);
    } else {
        lemma_sum_prefix(entries, weight, i + 1);
        lemma_sum_step(entries, weight, i);
        assert(never_negative(entries.take(i), weight)) by {
            assert forall|j: int| 0 <= j < entries.take(i).len() implies weight(
                #[trigger] entries.take(i)[j],
            ) >= 0 by {
                assert(entries.take(i)[j] == entries[j]);
            }
        }
        lemma_sum_nonnegative(entries.take(i), weight);
    }
}

/// With weights that are never negative, the sum is not negative.
pub proof fn lemma_sum_nonnegative(entries: Seq<StakeEntry>, weight: spec_fn(StakeEntry) -> int)
    requires
        never_negative(entries, weight),
    ensures
        0 <= sum_over(entries, weight),
    decreases entries.len(),
{
    if entries.len() > 0 {
        assert(never_negative(entries.drop_last(), weight)) by {
            assert forall|j: int| 0 <= j < entries.drop_last().len() implies weight(
                #[trigger] entries.drop_last()[j],
            ) >= 0 by {
                assert(entries.drop_last()[j] == entries[j]);
            }
        }
        lemma_sum_nonnegative(entries.drop_last(), weight);
        assert(entries.last() == entries[entries.len() - 1]);
    }
}

/// Two weights that agree on every entry have the same sum.
pub proof fn lemma_sum_agrees(
    entries: Seq<StakeEntry>,
    left: spec_fn(StakeEntry) -> int,
    right: spec_fn(StakeEntry) -> int,
)
    requires
        forall|i: int| 0 <= i < entries.len() ==> left(#[trigger] entries[i]) == right(entries[i]),
    ensures
        sum_over(entries, left) == sum_over(entries, right),
    decreases entries.len(),
{
    if entries.len() > 0 {
        assert forall|j: int| 0 <= j < entries.drop_last().len() implies left(
            #[trigger] entries.drop_last()[j],
        ) == right(entries.drop_last()[j]) by {
            assert(entries.drop_last()[j] == entries[j]);
        }
        lemma_sum_agrees(entries.drop_last(), left, right);
        assert(entries.last() == entries[entries.len() - 1]);
    }
}

/// Two sequences of entries that have the same weights, position by
/// position, have the same sum.
pub proof fn lemma_sum_same_weights(
    left: Seq<StakeEntry>,
    right: Seq<StakeEntry>,
    weight: spec_fn(StakeEntry) -> int,
)
    requires
        left.len() == right.len(),
        forall|i: int| 0 <= i < left.len() ==> weight(#[trigger] left[i]) == weight(right[i]),
    ensures
        sum_over(left, weight) == sum_over(right, weight),
    decreases left.len(),
{
    if left.len() > 0 {
        assert forall|j: int| 0 <= j < left.drop_last().len() implies weight(
            #[trigger] left.drop_last()[j],
        ) == weight(right.drop_last()[j]) by {
            assert(left.drop_last()[j] == left[j]);
            assert(right.drop_last()[j] == right[j]);
        }
        lemma_sum_same_weights(left.drop_last(), right.drop_last(), weight);
        assert(left.last() == left[left.len() - 1]);
        assert(right.last() == right[right.len() - 1]);
    }
}

/// A sum splits into the part over the entries that `keep` holds of and
/// the part over the others.
pub proof fn lemma_sum_split(
    entries: Seq<StakeEntry>,
    weight: spec_fn(StakeEntry) -> int,
    keep: spec_fn(StakeEntry) -> bool,
)
    ensures
        sum_over(entries, weight) == sum_over(entries.filter(keep), weight) + sum_over(
            entries,
            |e: StakeEntry|
                if keep(e) {
                    0
                } else {
                    weight(e)
                },
        ),
    decreases entries.len(),
{
    reveal(Seq::filter);
    let rest = |e: StakeEntry|
        if keep(e) {
            0
        } else {
            weight(e)
        };
    if entries.len() > 0 {
        lemma_sum_split(entries.drop_last(), weight, keep);
        if keep(entries.last()) {
            lemma_sum_push(entries.drop_last().filter(keep), weight, entries.last());
        }
    }
}

/// Replacing one account changes the principal of all accounts by what that
/// account gained or lost.
pub proof fn lemma_staked_amount_of_all_update(
    accounts: Seq<Seq<StakeEntry>>,
    k: int,
    entries: Seq<StakeEntry>,
)
    requires
        0 <= k < accounts.len(),
    ensures
        staked_amount_of_all(accounts.update(k, entries)) == staked_amount_of_all(accounts)
            - staked_amount(accounts[k]) + staked_amount(entries),
    decreases accounts.len(),
{
    let updated = accounts.update(k, entries);
    if k == accounts.len() - 1 {
        assert(updated.drop_last() =~= accounts.drop_last());
    } else {
        lemma_staked_amount_of_all_update(accounts.drop_last(), k, entries);
        assert(updated.drop_last() =~= accounts.drop_last().update(k, entries));
    }
}

} // verus!
