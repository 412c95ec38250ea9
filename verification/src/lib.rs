//! Epoch-based staking and reward distribution for a single token.
//!
//! Holders deposit into a vault; at every epoch turnover the administrator
//! funds a reward budget; the budget is split between deposits in
//! proportion to their time-weighted, lock-boosted curve; depositors claim
//! rewards and withdraw principal, paying a flat penalty that is burned
//! when they leave before their lock has run out.
//!
//! Every operation is a function from the records it touches and its
//! arguments to the changed records and the token movement that the host
//! has to carry out. An operation that fails leaves every record as it was.

pub mod claim;
pub mod curve;
pub mod epoch;
pub mod error;
pub mod initialize;
pub mod laws;
pub mod pubkey;
pub mod settlement;
pub mod stake;
pub mod state;
pub mod tally;

pub use claim::{claim, withdraw, RewardPayment, Withdrawal};
pub use epoch::{toggle, Turnover};
pub use error::RichieError;
pub use initialize::{
    initialize_reward_vault, initialize_stake_vault, update_epoch_duration, update_multiplier,
};
pub use pubkey::Pubkey;
pub use settlement::manage_staker_reward;
pub use stake::{get_multiplier, stake, Deposit};
pub use state::{Config, ConfigView, Epoch, StakeEntry, Stakes, UserStake, UserStakeView};
