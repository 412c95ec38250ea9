//! The records that the operations read and change, and the mathematical
//! values that the contracts speak of.

use vstd::prelude::*;
use crate::pubkey::Pubkey;

verus! {

/// One deposit of a staker.
#[derive(Clone, Copy, Debug, PartialEq, Eq, Structural)]
pub struct StakeEntry {
    /// Principal held by this entry.
    pub amount: u64,
    /// Epoch index under which the entry was created.
    pub last_staked_epoch_index: u64,
    /// Number of epochs the entry has to stay to keep its boost.
    pub lock_period: u8,
    /// Multiplier in percent, as it stood when the entry was created.
    pub multiplier: u64,
    /// Amount times the seconds the entry counts for in its current epoch.
    pub base_curve: u64,
    /// The base curve scaled by the multiplier while the lock holds, the
    /// base curve afterwards.
    pub boosted_curve: u64,
    /// The last epoch index this entry was settled for.
    pub calculated_index: u64,
}

/// Whether a number of epochs is one of the lock periods: 1, 2, 4, 8 or 16.
pub open spec fn is_lock_period(epochs: u8) -> bool {
    epochs == 1 || epochs == 2 || epochs == 4 || epochs == 8 || epochs == 16
}

impl StakeEntry {
    /// The lock period is one of the five, and a pre-launch entry is locked
    /// for exactly one epoch.
    pub open spec fn wf(&self) -> bool {
        &&& is_lock_period(self.lock_period)
        &&& self.last_staked_epoch_index == 0 ==> self.lock_period == 1
    }
}

/// The snapshot of one epoch.
#[derive(Clone, Copy, Debug, PartialEq, Eq, Structural)]
pub struct Epoch {
    pub index: u64,
    pub staked_start_time: i64,
    pub stake_duration: i64,
    pub staked_end_time: i64,
    /// Reward budget of the epoch.
    pub reward: u64,
    /// Sum of the curves that share the budget.
    pub total_curve: u64,
    /// Principal staked when the epoch opened, plus what was deposited in it.
    pub total_staked_amount: u64,
    /// Set by the first settlement of a funded epoch.
    pub claimable: bool,
}

impl Epoch {
    /// The end time is the start time plus the duration, and lies after the
    /// start time.
    pub open spec fn wf(&self) -> bool {
        &&& self.staked_end_time == self.staked_start_time + self.stake_duration
        &&& self.staked_end_time > self.staked_start_time
    }
}

/// The global parameters and running totals.
#[derive(Clone, Debug, PartialEq, Eq)]
pub struct Config {
    pub admin: Pubkey,
    /// Annual rate in basis points. Stored and never read: rewards come
    /// from the per-epoch budgets alone.
    pub apr_bps: u64,
    pub epoch_duration: i64,
    pub last_epoch_time: i64,
    pub stake_token_mint: Pubkey,
    pub stake_vault: Pubkey,
    pub reward_token_mint: Pubkey,
    pub reward_vault: Pubkey,
    /// Principal currently in the stake vault.
    pub total_staked: u64,
    /// Curve carried forward into the next epoch's denominator.
    pub total_curve: u64,
    /// Current epoch index.
    pub index: u64,
    /// Multipliers in percent, one per lock period 1, 2, 4, 8, 16.
    pub multiplier: Vec<u64>,
}

/// What a [`Config`] holds, as a mathematical value.
pub struct ConfigView {
    pub admin: Pubkey,
    pub apr_bps: u64,
    pub epoch_duration: i64,
    pub last_epoch_time: i64,
    pub stake_token_mint: Pubkey,
    pub stake_vault: Pubkey,
    pub reward_token_mint: Pubkey,
    pub reward_vault: Pubkey,
    pub total_staked: u64,
    pub total_curve: u64,
    pub index: u64,
    pub multiplier: Seq<u64>,
}

impl View for Config {
    type V = ConfigView;

    open spec fn view(&self) -> ConfigView {
        ConfigView {
            admin: self.admin,
            apr_bps: self.apr_bps,
            epoch_duration: self.epoch_duration,
            last_epoch_time: self.last_epoch_time,
            stake_token_mint: self.stake_token_mint,
            stake_vault: self.stake_vault,
            reward_token_mint: self.reward_token_mint,
            reward_vault: self.reward_vault,
            total_staked: self.total_staked,
            total_curve: self.total_curve,
            index: self.index,
            multiplier: self.multiplier@,
        }
    }
}

impl ConfigView {
    /// The multiplier table has at most one slot per lock period.
    pub open spec fn wf(&self) -> bool {
        self.multiplier.len() <= Config::MAX_MULTIPLIERS
    }
}

impl Config {
    /// Number of lock periods, and so of multipliers at most.
    pub const MAX_MULTIPLIERS: usize = 5;

    pub open spec fn wf(&self) -> bool {
        self@.wf()
    }
}

/// The ledger of stakers: the identities of the stake accounts that hold,
/// or have held, a deposit.
#[derive(Clone, Debug, PartialEq, Eq)]
pub struct Stakes {
    pub list: Vec<Pubkey>,
}

impl View for Stakes {
    type V = Seq<Pubkey>;

    open spec fn view(&self) -> Seq<Pubkey> {
        self.list@
    }
}

impl Stakes {
    /// Number of stake accounts the ledger takes.
    pub const MAX_USERS: usize = 300;

    pub open spec fn wf(&self) -> bool {
        self@.len() <= Self::MAX_USERS
    }

    /// An empty ledger.
    pub fn new() -> (r: Self)
        ensures
            r@ == Seq::<Pubkey>::empty(),
            r.wf(),
    {
        Stakes { list: Vec::new() }
    }

    /// Whether `key` is in the ledger.
    pub fn contains(&self, key: &Pubkey) -> (r: bool)
        ensures
            r == self@.contains(*key),
    {
        let mut i: usize = 0;
        while i < self.list.len()
            invariant
                0 <= i <= self.list.len(),
                forall|j: int| 0 <= j < i ==> self.list@[j] != *key,
            decreases self.list.len() - i,
        {
            if self.list[i] == *key {
                return true;
            }
            i += 1;
        }
        false
    }
}

/// The stake account of one staker.
#[derive(Clone, Debug, PartialEq, Eq)]
pub struct UserStake {
    pub owner: Pubkey,
    pub stake_entries: Vec<StakeEntry>,
    /// Reward owed and not yet claimed.
    pub pending_reward: u64,
}

/// What a [`UserStake`] holds, as a mathematical value.
pub struct UserStakeView {
    pub owner: Pubkey,
    pub stake_entries: Seq<StakeEntry>,
    pub pending_reward: u64,
}

impl View for UserStake {
    type V = UserStakeView;

    open spec fn view(&self) -> UserStakeView {
        UserStakeView {
            owner: self.owner,
            stake_entries: self.stake_entries@,
            pending_reward: self.pending_reward,
        }
    }
}

impl UserStakeView {
    /// At most [`UserStake::MAX_ENTRIES`] entries, each of them well formed.
    pub open spec fn wf(&self) -> bool {
        &&& self.stake_entries.len() <= UserStake::MAX_ENTRIES
        &&& forall|i: int| 0 <= i < self.stake_entries.len() ==> (#[trigger] self.stake_entries[i]).wf()
    }

    /// No entry is settled for an epoch index beyond `index`.
    pub open spec fn settled_up_to(&self, index: u64) -> bool {
        forall|i: int|
            0 <= i < self.stake_entries.len() ==> (#[trigger] self.stake_entries[i]).calculated_index
                <= index
    }
}

impl UserStake {
    /// Number of entries a stake account takes.
    pub const MAX_ENTRIES: usize = 20;

    pub open spec fn wf(&self) -> bool {
        self@.wf()
    }

    /// A stake account without deposits, as the host hands it out before
    /// the first deposit.
    pub fn new() -> (r: Self)
        ensures
            r@.owner.is_unset(),
            r@.stake_entries == Seq::<StakeEntry>::empty(),
            r@.pending_reward == 0,
            r.wf(),
    {
        UserStake { owner: Pubkey::default(), stake_entries: Vec::new(), pending_reward: 0 }
    }
}

} // verus!
