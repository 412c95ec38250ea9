//! Set-up and management of the configuration.

use richie::{
    get_multiplier, initialize_reward_vault, initialize_stake_vault, update_epoch_duration,
    update_multiplier, Config, Pubkey, RichieError, Stakes, UserStake,
};

fn key(n: u8) -> Pubkey {
    Pubkey { bytes: [n; 32] }
}

fn fresh() -> Config {
    initialize_stake_vault(key(1), key(2), key(3), 77, 1_200, 3_600)
}

#[test]
fn identities_compare_by_their_bytes() {
    let mut other = [7u8; 32];
    assert_eq!(key(7), Pubkey { bytes: other });
    other[31] = 8;
    assert_ne!(key(7), Pubkey { bytes: other });
    let mut first = [7u8; 32];
    first[0] = 0;
    assert_ne!(key(7), Pubkey { bytes: first });
    assert_eq!(Pubkey::default(), Pubkey { bytes: [0; 32] });
}

#[test]
fn new_configuration_has_its_defaults() {
    let config = fresh();
    assert_eq!(config.admin, key(1));
    assert_eq!(config.stake_token_mint, key(2));
    assert_eq!(config.stake_vault, key(3));
    assert_eq!(config.last_epoch_time, 77);
    assert_eq!(config.apr_bps, 1_200);
    assert_eq!(config.epoch_duration, 3_600);
    assert_eq!(config.reward_token_mint, Pubkey::default());
    assert_eq!(config.reward_vault, Pubkey::default());
    assert_eq!(config.total_staked, 0);
    assert_eq!(config.total_curve, 0);
    assert_eq!(config.index, 0);
    assert_eq!(config.multiplier, vec![100, 120, 150, 200, 300]);
}

#[test]
fn limits_have_their_values() {
    assert_eq!(Config::MAX_MULTIPLIERS, 5);
    assert_eq!(UserStake::MAX_ENTRIES, 20);
    assert_eq!(Stakes::MAX_USERS, 300);
}

#[test]
fn new_records_are_empty() {
    let account = UserStake::new();
    assert_eq!(account.owner, Pubkey::default());
    assert!(account.stake_entries.is_empty());
    assert_eq!(account.pending_reward, 0);
    assert!(Stakes::new().list.is_empty());
}

#[test]
fn ledger_finds_what_it_holds() {
    let stakes = Stakes { list: vec![key(4), key(5), key(6)] };
    assert!(stakes.contains(&key(4)));
    assert!(stakes.contains(&key(6)));
    assert!(!stakes.contains(&key(7)));
    assert!(!Stakes::new().contains(&key(4)));
}

#[test]
fn reward_vault_is_recorded_by_the_administrator() {
    let mut config = fresh();
    let stakes = initialize_reward_vault(&mut config, key(1), key(8), key(9)).unwrap();
    assert!(stakes.list.is_empty());
    assert_eq!(config.reward_token_mint, key(8));
    assert_eq!(config.reward_vault, key(9));
    let mut expected = fresh();
    expected.reward_token_mint = key(8);
    expected.reward_vault = key(9);
    assert_eq!(config, expected);
}

#[test]
fn reward_vault_is_refused_to_others() {
    let mut config = fresh();
    let refused = initialize_reward_vault(&mut config, key(5), key(8), key(9));
    assert_eq!(refused, Err(RichieError::UnAuthorized));
    assert_eq!(config, fresh());
}

#[test]
fn epoch_duration_is_set_by_the_administrator() {
    let mut config = fresh();
    assert_eq!(update_epoch_duration(&mut config, key(1), 86_400), Ok(()));
    assert_eq!(config.epoch_duration, 86_400);
    assert_eq!(update_epoch_duration(&mut config, key(1), -5), Ok(()));
    assert_eq!(config.epoch_duration, -5);
}

#[test]
fn epoch_duration_is_refused_to_others() {
    let mut config = fresh();
    assert_eq!(update_epoch_duration(&mut config, key(2), 86_400), Err(RichieError::UnAuthorized));
    assert_eq!(config, fresh());
}

#[test]
fn multipliers_are_replaced_by_the_administrator() {
    let mut config = fresh();
    assert_eq!(update_multiplier(&mut config, key(1), vec![100, 110, 125, 150, 175]), Ok(()));
    assert_eq!(config.multiplier, vec![100, 110, 125, 150, 175]);
    assert_eq!(update_multiplier(&mut config, key(1), vec![100, 200]), Ok(()));
    assert_eq!(config.multiplier, vec![100, 200]);
    assert_eq!(update_multiplier(&mut config, key(1), vec![]), Ok(()));
    assert!(config.multiplier.is_empty());
}

#[test]
fn six_multipliers_are_too_many() {
    let mut config = fresh();
    let refused = update_multiplier(&mut config, key(1), vec![100, 110, 120, 130, 140, 150]);
    assert_eq!(refused, Err(RichieError::TooManyMultipliers));
    assert_eq!(config, fresh());
}

#[test]
fn multipliers_are_refused_to_others() {
    let mut config = fresh();
    assert_eq!(
        update_multiplier(&mut config, key(9), vec![100, 110]),
        Err(RichieError::UnAuthorized)
    );
    // Who asks is checked before what is asked.
    assert_eq!(
        update_multiplier(&mut config, key(9), vec![1, 2, 3, 4, 5, 6]),
        Err(RichieError::UnAuthorized)
    );
    assert_eq!(config, fresh());
}

#[test]
fn each_lock_period_has_its_multiplier() {
    let config = fresh();
    assert_eq!(get_multiplier(&config, 1), Ok(100));
    assert_eq!(get_multiplier(&config, 2), Ok(120));
    assert_eq!(get_multiplier(&config, 4), Ok(150));
    assert_eq!(get_multiplier(&config, 8), Ok(200));
    assert_eq!(get_multiplier(&config, 16), Ok(300));
}

#[test]
fn other_lock_periods_have_no_multiplier() {
    let config = fresh();
    for lock_period in [0u8, 3, 5, 6, 7, 9, 15, 17, 32, 255] {
        assert_eq!(get_multiplier(&config, lock_period), Err(RichieError::InvalidLockPeriod));
    }
}

#[test]
fn short_table_has_no_multiplier_for_long_locks() {
    let mut config = fresh();
    update_multiplier(&mut config, key(1), vec![100, 120]).unwrap();
    assert_eq!(get_multiplier(&config, 1), Ok(100));
    assert_eq!(get_multiplier(&config, 2), Ok(120));
    assert_eq!(get_multiplier(&config, 4), Err(RichieError::InvalidLockPeriod));
    assert_eq!(get_multiplier(&config, 16), Err(RichieError::InvalidLockPeriod));
}
