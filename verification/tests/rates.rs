use homa_lite::fixed::{Permill, Ratio, FIXED_DIV, PERMILL_MAX};
use homa_lite::pallet::{Config, Pallet, Relaychain};
use homa_lite::types::{AccountId, Error};

fn config() -> Config {
    Config {
        minimum_mint_threshold: 50,
        default_exchange_rate: Ratio::from_inner(FIXED_DIV / 10),
        max_reward_per_era: Permill::from_parts(10_000),
        mint_fee: 20,
        base_withdraw_fee: Permill::from_parts(10_000),
        parachain_account: AccountId([9u8; 32]),
        maximum_redeem_request_matches_for_mint: 2,
        relaychain_unbounding_slashing_spans: 5,
        on_idle_weight: 1_000,
        relaychain: Relaychain::Kusama,
    }
}

fn staked(total: u128) -> Pallet {
    let mut pallet = Pallet::new(config());
    if total != 0 {
        pallet.set_total_staking_currency(total).unwrap();
    }
    pallet
}

#[test]
fn a_ratio_is_rounded_down_to_eighteen_decimals() {
    assert_eq!(Ratio::checked_from_rational(1, 3), Some(Ratio::from_inner(333_333_333_333_333_333)));
    assert_eq!(Ratio::checked_from_rational(2, 3), Some(Ratio::from_inner(666_666_666_666_666_666)));
    assert_eq!(Ratio::checked_from_rational(5, 1), Some(Ratio::from_inner(5 * FIXED_DIV)));
    assert_eq!(Ratio::checked_from_rational(0, 7), Some(Ratio::from_inner(0)));
}

#[test]
fn a_ratio_cannot_be_formed_over_zero_or_out_of_range() {
    assert_eq!(Ratio::checked_from_rational(1, 0), None);
    assert_eq!(Ratio::checked_from_rational(0, 0), None);
    assert_eq!(Ratio::checked_from_rational(u128::MAX, 1), None);
    // The largest whole number that a ratio holds.
    assert_eq!(
        Ratio::checked_from_rational(u128::MAX / FIXED_DIV, 1),
        Some(Ratio::from_inner(u128::MAX / FIXED_DIV * FIXED_DIV))
    );
    assert_eq!(Ratio::checked_from_rational(u128::MAX / FIXED_DIV + 1, 1), None);
}

#[test]
fn a_reciprocal_is_rounded_down() {
    assert_eq!(Ratio::from_inner(2 * FIXED_DIV).reciprocal(), Some(Ratio::from_inner(FIXED_DIV / 2)));
    assert_eq!(Ratio::from_inner(3 * FIXED_DIV).reciprocal(), Some(Ratio::from_inner(333_333_333_333_333_333)));
    assert_eq!(Ratio::from_inner(FIXED_DIV / 10).reciprocal(), Some(Ratio::from_inner(10 * FIXED_DIV)));
    assert_eq!(Ratio::from_inner(1).reciprocal(), Some(Ratio::from_inner(FIXED_DIV * FIXED_DIV)));
    assert_eq!(Ratio::from_inner(u128::MAX).reciprocal(), Some(Ratio::from_inner(0)));
    assert_eq!(Ratio::from_inner(0).reciprocal(), None);
}

#[test]
fn a_ratio_of_an_amount_is_rounded_down() {
    let third = Ratio::from_inner(333_333_333_333_333_333);
    assert_eq!(third.checked_mul_int(3), Some(0));
    assert_eq!(third.checked_mul_int(4), Some(1));
    assert_eq!(third.checked_mul_int(3_000_000), Some(999_999));
    assert_eq!(Ratio::from_inner(FIXED_DIV).checked_mul_int(u128::MAX), Some(u128::MAX));
    assert_eq!(Ratio::from_inner(FIXED_DIV + 1).checked_mul_int(u128::MAX), None);
    assert_eq!(Ratio::from_inner(2 * FIXED_DIV).checked_mul_int(u128::MAX / 2 + 1), None);
    assert_eq!(Ratio::from_inner(0).checked_mul_int(u128::MAX), Some(0));
}

#[test]
fn a_permill_is_capped_at_the_whole() {
    assert_eq!(Permill::from_parts(0).deconstruct(), 0);
    assert_eq!(Permill::from_parts(999_999).deconstruct(), 999_999);
    assert_eq!(Permill::from_parts(1_000_000).deconstruct(), PERMILL_MAX);
    assert_eq!(Permill::from_parts(1_000_001).deconstruct(), PERMILL_MAX);
    assert_eq!(Permill::from_parts(u32::MAX).deconstruct(), PERMILL_MAX);
    assert_eq!(Permill::one().deconstruct(), PERMILL_MAX);
    assert_eq!(Permill::zero().deconstruct(), 0);
}

#[test]
fn a_permill_difference_stops_at_nothing() {
    let whole = Permill::one();
    let tenth = Permill::from_parts(100_000);
    assert_eq!(whole.saturating_sub(tenth).deconstruct(), 900_000);
    assert_eq!(tenth.saturating_sub(whole).deconstruct(), 0);
    assert_eq!(tenth.saturating_sub(tenth).deconstruct(), 0);
}

#[test]
fn a_share_is_rounded_to_the_nearest_with_ties_down() {
    let half = Permill::from_parts(500_000);
    assert_eq!(half.mul_int(3), 1);
    assert_eq!(half.mul_int(5), 2);
    assert_eq!(half.mul_int(4), 2);
    assert_eq!(Permill::from_parts(333_333).mul_int(3), 1);
    assert_eq!(Permill::from_parts(499_999).mul_int(1), 0);
    assert_eq!(Permill::from_parts(500_001).mul_int(1), 1);
    assert_eq!(Permill::from_parts(990_000).mul_int(5_000), 4_950);
    assert_eq!(Permill::from_parts(990_000).mul_int(4_950), 4_900);
    assert_eq!(Permill::from_parts(990_000).mul_int(4_951), 4_901);
    assert_eq!(Permill::one().mul_int(u128::MAX), u128::MAX);
    assert_eq!(Permill::zero().mul_int(u128::MAX), 0);
    assert_eq!(half.mul_int(u128::MAX), u128::MAX / 2);
}

#[test]
fn the_rate_is_issuance_over_backing() {
    let pallet = staked(1_000_000);
    assert_eq!(pallet.get_exchange_rate(1_000_000), Ratio::from_inner(FIXED_DIV));
    assert_eq!(pallet.get_exchange_rate(5_000_000), Ratio::from_inner(5 * FIXED_DIV));
    assert_eq!(pallet.get_exchange_rate(250_000), Ratio::from_inner(FIXED_DIV / 4));
    assert_eq!(pallet.get_exchange_rate(0), Ratio::from_inner(0));
}

#[test]
fn the_rate_falls_back_to_the_default() {
    // Nothing is staked.
    let pallet = staked(0);
    assert_eq!(pallet.get_exchange_rate(1_000_000), Ratio::from_inner(FIXED_DIV / 10));
    assert_eq!(pallet.get_exchange_rate(0), Ratio::from_inner(FIXED_DIV / 10));
    // The quotient does not fit.
    let pallet = staked(1);
    assert_eq!(
        pallet.get_exchange_rate(1_000_000_000_000_000_000_000_000_000_000),
        Ratio::from_inner(FIXED_DIV / 10)
    );
}

#[test]
fn amounts_convert_at_the_rate_and_back() {
    let pallet = staked(1_000_000);
    assert_eq!(pallet.convert_staking_to_liquid(5_000_000, 1_000), Ok(5_000));
    assert_eq!(pallet.convert_liquid_to_staking(5_000_000, 5_000), Ok(1_000));
    assert_eq!(pallet.convert_staking_to_liquid(3_000_000, 7), Ok(21));
    // One third cannot be written exactly, and is rounded down twice.
    assert_eq!(pallet.convert_liquid_to_staking(3_000_000, 21), Ok(6));
    assert_eq!(pallet.convert_liquid_to_staking(3_000_000, 3_000_000), Ok(999_999));
}

#[test]
fn amounts_convert_at_the_default_where_nothing_is_staked() {
    let pallet = staked(0);
    assert_eq!(pallet.convert_staking_to_liquid(123, 1_000), Ok(100));
    assert_eq!(pallet.convert_liquid_to_staking(123, 1_000), Ok(10_000));
}

#[test]
fn a_rate_of_zero_converts_back_at_the_default() {
    let pallet = staked(1_000_000);
    assert_eq!(pallet.convert_staking_to_liquid(0, 1_000), Ok(0));
    // Zero has no inverse: the default rate itself takes its place.
    assert_eq!(pallet.convert_liquid_to_staking(0, 1_000), Ok(100));
}

#[test]
fn a_conversion_out_of_range_overflows() {
    let pallet = staked(1);
    // The rate is a hundred.
    assert_eq!(pallet.get_exchange_rate(100), Ratio::from_inner(100 * FIXED_DIV));
    assert_eq!(pallet.convert_staking_to_liquid(100, u128::MAX / 100), Ok(u128::MAX / 100 * 100));
    assert_eq!(pallet.convert_staking_to_liquid(100, u128::MAX / 100 + 1), Err(Error::Overflow));
    let pallet = staked(100);
    // The rate is a hundredth, so its inverse is a hundred.
    assert_eq!(pallet.convert_liquid_to_staking(1, u128::MAX / 100 + 1), Err(Error::Overflow));
    assert_eq!(pallet.convert_liquid_to_staking(1, u128::MAX / 100), Ok(u128::MAX / 100 * 100));
}

#[test]
fn large_amounts_are_exact() {
    let max = u128::MAX;
    // Shares of amounts that do not fit twice.
    assert_eq!(Permill::from_parts(333_333).mul_int(max), 113427342212857180841637048019053593229);
    assert_eq!(Permill::from_parts(999_999).mul_int(max - 5), 340282026638571542524911144057160779682);
    assert_eq!(Permill::from_parts(1).mul_int(max), 340282366920938463463374607431768);
    assert_eq!(
        Permill::from_parts(123_456).mul_int(98765432109876543210987654321),
        12193185186556918518655691852
    );
    // Ratios of numbers whose product with the scale does not fit.
    assert_eq!(Ratio::checked_from_rational(max / 3, 7), None);
    assert_eq!(Ratio::checked_from_rational(max, FIXED_DIV), Some(Ratio::from_inner(max)));
    assert_eq!(
        Ratio::checked_from_rational(max, 1_000_000_000_000_000_000_001),
        Some(Ratio::from_inner(340282366920938463463034325064847272))
    );
    assert_eq!(
        Ratio::checked_from_rational(12345678901234567890, 98765432109876543210),
        Some(Ratio::from_inner(124999998860937500))
    );
    assert_eq!(Ratio::checked_from_rational(max, max), Some(Ratio::from_inner(FIXED_DIV)));
    // Products that do not fit before they are scaled down.
    assert_eq!(
        Ratio::from_inner(123456789012345678901234567890).checked_mul_int(98765432109876543210),
        Some(12193263113702179522496570642237)
    );
    assert_eq!(Ratio::from_inner(max).checked_mul_int(FIXED_DIV), Some(max));
    assert_eq!(Ratio::from_inner(max).checked_mul_int(FIXED_DIV + 1), None);
    assert_eq!(Ratio::from_inner(max / 7).checked_mul_int(7 * FIXED_DIV), Some(max - 3));
    assert_eq!(
        Ratio::from_inner(30_000_000_000_000_000_000_000_000_000_000_000_000).checked_mul_int(700_000),
        Some(21_000_000_000_000_000_000_000_000)
    );
    assert_eq!(Ratio::from_inner(max).checked_mul_int(1), Some(340282366920938463463));
    // Inverses.
    assert_eq!(Ratio::from_inner(7).reciprocal(), Some(Ratio::from_inner(142857142857142857142857142857142857)));
    assert_eq!(Ratio::from_inner(1_000_000_000_000_000_000_000_000_000_000_000_000).reciprocal(), Some(Ratio::from_inner(1)));
    assert_eq!(Ratio::from_inner(1_000_000_000_000_000_000_000_000_000_000_000_001).reciprocal(), Some(Ratio::from_inner(0)));
    assert_eq!(Ratio::from_inner(999_999_999_999_999_999).reciprocal(), Some(Ratio::from_inner(1_000_000_000_000_000_001)));
}
