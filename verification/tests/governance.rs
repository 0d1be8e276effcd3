use homa_lite::fixed::{Permill, Ratio, FIXED_DIV};
use homa_lite::pallet::{Config, Pallet, Relaychain};
use homa_lite::types::{AccountId, Error, Event};

fn config() -> Config {
    Config {
        minimum_mint_threshold: 50,
        default_exchange_rate: Ratio::from_inner(FIXED_DIV / 10),
        max_reward_per_era: Permill::from_parts(10_000),
        mint_fee: 20,
        base_withdraw_fee: Permill::from_parts(10_000),
        parachain_account: AccountId([9u8; 32]),
        maximum_redeem_request_matches_for_mint: 2,
        relaychain_unbounding_slashing_spans: 5,
        on_idle_weight: 1_000,
        relaychain: Relaychain::Kusama,
    }
}

#[test]
fn a_new_engine_is_empty() {
    let pallet = Pallet::new(config());
    assert_eq!(pallet.total_staking_currency(), 0);
    assert_eq!(pallet.staking_currency_mint_cap(), 0);
    assert_eq!(pallet.xcm_dest_weight(), 0);
    assert_eq!(pallet.available_staking_balance(), 0);
    assert_eq!(pallet.scheduled_unbound(), vec![]);
    assert_eq!(pallet.redeem_requests(&AccountId([1u8; 32])), None);
    assert_eq!(pallet.config().mint_fee, 20);
}

#[test]
fn the_staked_total_is_set_but_not_to_zero() {
    let mut pallet = Pallet::new(config());
    assert_eq!(pallet.set_total_staking_currency(1_000), Ok(Event::TotalStakingCurrencySet(1_000)));
    assert_eq!(pallet.total_staking_currency(), 1_000);
    assert_eq!(pallet.set_total_staking_currency(0), Err(Error::InvalidTotalStakingCurrency));
    assert_eq!(pallet.total_staking_currency(), 1_000);
    assert_eq!(pallet.set_total_staking_currency(u128::MAX), Ok(Event::TotalStakingCurrencySet(u128::MAX)));
    assert_eq!(pallet.total_staking_currency(), u128::MAX);
}

#[test]
fn the_cap_is_set() {
    let mut pallet = Pallet::new(config());
    assert_eq!(pallet.set_minting_cap(5_000), Ok(Event::StakingCurrencyMintCapUpdated(5_000)));
    assert_eq!(pallet.staking_currency_mint_cap(), 5_000);
    assert_eq!(pallet.set_minting_cap(0), Ok(Event::StakingCurrencyMintCapUpdated(0)));
    assert_eq!(pallet.staking_currency_mint_cap(), 0);
    assert_eq!(pallet.total_staking_currency(), 0);
}

#[test]
fn the_destination_weight_is_set() {
    let mut pallet = Pallet::new(config());
    assert_eq!(pallet.set_xcm_dest_weight(1_000_000), Ok(Event::XcmDestWeightSet(1_000_000)));
    assert_eq!(pallet.xcm_dest_weight(), 1_000_000);
    assert_eq!(pallet.staking_currency_mint_cap(), 0);
}
