//! The curve arithmetic: the score of a deposit in an epoch, its boost, the
//! share of a reward budget that a score earns, and the penalty for leaving
//! early. Each formula is a function on integers; its executable form
//! reports a result that leaves the range of `u64` instead of wrapping.

use vstd::prelude::*;

verus! {

/// Percent of the principal that an early withdrawal forfeits.
pub const EARLY_EXIT_PENALTY_PERCENT: u64 = 5;

/// Seconds for which the pre-launch window stays open.
pub const PRE_LAUNCH_WINDOW: i64 = 21600;

/// Whether `x` is a value of `u64`.
pub open spec fn fits_u64(x: int) -> bool {
    0 <= x <= u64::MAX
}

/// Whether `x` is a value of `i64`.
pub open spec fn fits_i64(x: int) -> bool {
    i64::MIN <= x <= i64::MAX
}

/// The score of `amount` staked for `seconds`.
pub open spec fn base_curve(amount: u64, seconds: i64) -> int {
    amount * seconds
}

/// A base curve scaled by a multiplier in percent, rounded down.
pub open spec fn boosted_curve(base: u64, multiplier: u64) -> int {
    base * multiplier / 100
}

/// The part of `reward` that `contribution` earns out of `total_curve`,
/// rounded down; nothing where the total is zero.
pub open spec fn reward_share(contribution: u64, reward: u64, total_curve: u64) -> int {
    if total_curve == 0 {
        0
    } else {
        contribution * reward / (total_curve as int)
    }
}

/// The part of `amount` that an early withdrawal forfeits, rounded down.
pub open spec fn early_exit_penalty(amount: u64) -> int {
    amount * EARLY_EXIT_PENALTY_PERCENT / 100
}

/// The product of two `u64` values is a value of `u128`.
pub proof fn lemma_product_fits_u128(a: u64, b: u64)
    ensures
        0 <= a * b <= u128::MAX,
{
    assert(0 <= a * b <= 0xFFFF_FFFF_FFFF_FFFF * 0xFFFF_FFFF_FFFF_FFFF) by (nonlinear_arith)
        requires
            0 <= a <= 0xFFFF_FFFF_FFFF_FFFF,
            0 <= b <= 0xFFFF_FFFF_FFFF_FFFF,
    ;
}

/// [`base_curve`], or `None` where it is not a value of `u64`.
pub fn checked_base_curve(amount: u64, seconds: i64) -> (r: Option<u64>)
    ensures
        match r {
            Some(c) => c == base_curve(amount, seconds),
            None => !fits_u64(base_curve(amount, seconds)),
        },
{
    if seconds < 0 {
        if amount == 0 {
            assert(base_curve(amount, seconds) == 0);
            Some(0)
        } else {
            assert(amount * seconds < 0) by (nonlinear_arith)
                requires
                    amount >= 1,
                    seconds <= -1,
            ;
            None
        }
    } else {
        amount.checked_mul(seconds as u64)
    }
}

/// [`boosted_curve`], or `None` where the product of base and multiplier
/// is not a value of `u64`.
pub fn checked_boosted_curve(base: u64, multiplier: u64) -> (r: Option<u64>)
    ensures
        match r {
            Some(c) => base * multiplier <= u64::MAX && c == boosted_curve(base, multiplier),
            None => base * multiplier > u64::MAX,
        },
{
    match base.checked_mul(multiplier) {
        Some(scaled) => Some(scaled / 100),
        None => None,
    }
}

/// [`reward_share`], computed in `u128`, or `None` where it is not a value
/// of `u64`.
pub fn checked_reward_share(contribution: u64, reward: u64, total_curve: u64) -> (r: Option<u64>)
    ensures
        match r {
            Some(s) => s == reward_share(contribution, reward, total_curve),
            None => reward_share(contribution, reward, total_curve) > u64::MAX,
        },
{
    if total_curve == 0 {
        return Some(0);
    }
    proof {
        lemma_product_fits_u128(contribution, reward);
    }
    let product: u128 = (contribution as u128) * (reward as u128);
    let share: u128 = product / (total_curve as u128);
    if share > u64::MAX as u128 {
        None
    } else {
        Some(share as u64)
    }
}

/// [`early_exit_penalty`], or `None` where five times the amount is not a
/// value of `u64`.
pub fn checked_early_exit_penalty(amount: u64) -> (r: Option<u64>)
    ensures
        match r {
            Some(p) => amount * EARLY_EXIT_PENALTY_PERCENT <= u64::MAX && p == early_exit_penalty(
                amount,
            ),
            None => amount * EARLY_EXIT_PENALTY_PERCENT > u64::MAX,
        },
{
    match amount.checked_mul(EARLY_EXIT_PENALTY_PERCENT) {
        Some(scaled) => Some(scaled / 100),
        None => None,
    }
}

/// A share never exceeds the budget while the contribution stays within
/// the total.
pub proof fn lemma_share_within_budget(contribution: u64, reward: u64, total_curve: u64)
    requires
        contribution <= total_curve,
    ensures
        0 <= reward_share(contribution, reward, total_curve) <= reward,
{
    if total_curve != 0 {
        assert(0 <= contribution * reward / (total_curve as int) <= reward) by (nonlinear_arith)
            requires
                0 <= contribution <= total_curve,
                total_curve > 0,
                reward >= 0,
        ;
    }
}

} // verus!
