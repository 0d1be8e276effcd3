use homa_lite::fixed::{Permill, Ratio, FIXED_DIV};
use homa_lite::pallet::{Config, Pallet, Relaychain};
use homa_lite::plan::Plan;
use homa_lite::types::{AccountId, Command, Currency, Error, Event, Outcome, Reply};

const ALICE: AccountId = AccountId([1u8; 32]);
const BOB: AccountId = AccountId([2u8; 32]);
const ISSUANCE: u128 = 1_000_000;

fn config() -> Config {
    Config {
        minimum_mint_threshold: 50,
        default_exchange_rate: Ratio::from_inner(FIXED_DIV / 10),
        max_reward_per_era: Permill::from_parts(10_000),
        mint_fee: 20,
        base_withdraw_fee: Permill::from_parts(10_000),
        parachain_account: AccountId([9u8; 32]),
        maximum_redeem_request_matches_for_mint: 2,
        relaychain_unbounding_slashing_spans: 5,
        on_idle_weight: 1_000,
        relaychain: Relaychain::Kusama,
    }
}

/// An engine at a rate of one, with `available` staking currency unbonded.
fn engine(available: u128) -> Pallet {
    let mut pallet = Pallet::new(config());
    pallet.set_total_staking_currency(1_000_000).unwrap();
    pallet.set_minting_cap(2_000_000).unwrap();
    if available != 0 {
        pallet.schedule_unbound(available, 0).unwrap();
        assert_eq!(pallet.on_idle(0, 2_000, Outcome::Complete), 1_000);
    }
    pallet
}

fn carried_out(plan: Plan) -> (Pallet, Vec<Event>) {
    let replies: Vec<Reply> = plan.commands.iter().map(|_| Reply::Completed(0)).collect();
    let done = plan.settle(&replies).unwrap();
    (done.state, done.events)
}

#[test]
fn a_request_is_put_in_escrow_and_booked() {
    let pallet = engine(5_000);
    let fee = Permill::from_parts(20_000);
    let plan = pallet.request_redeem(ISSUANCE, &ALICE, 3_000, fee);
    assert_eq!(plan.commands, vec![Command::Reserve { currency: Currency::Liquid, who: ALICE, amount: 3_000 }]);
    let (next, events) = carried_out(plan);
    assert_eq!(events, vec![Event::RedeemRequested(ALICE, 3_000)]);
    assert_eq!(next.redeem_requests(&ALICE), Some((3_000, fee)));
    assert_eq!(next.redeem_requests(&BOB), None);
    // The engine itself is as it was.
    assert_eq!(pallet.redeem_requests(&ALICE), None);
    assert_eq!(next.available_staking_balance(), 5_000);
    assert_eq!(next.total_staking_currency(), 1_000_000);
}

#[test]
fn a_request_is_capped_at_what_is_available() {
    // A hundred is asked for where forty can be had.
    let pallet = engine(40);
    let plan = pallet.request_redeem(ISSUANCE, &ALICE, 100, Permill::zero());
    assert_eq!(plan.commands, vec![Command::Reserve { currency: Currency::Liquid, who: ALICE, amount: 40 }]);
    let (next, events) = carried_out(plan);
    assert_eq!(events, vec![Event::RedeemRequested(ALICE, 40)]);
    assert_eq!(next.redeem_requests(&ALICE), Some((40, Permill::zero())));
}

#[test]
fn the_cap_follows_the_rate() {
    let pallet = engine(40);
    // Two and a half liquid to one staking: forty staking are worth a hundred liquid.
    let plan = pallet.request_redeem(2_500_000, &ALICE, 1_000, Permill::zero());
    let (next, _) = carried_out(plan);
    assert_eq!(next.redeem_requests(&ALICE), Some((100, Permill::zero())));
    let plan = pallet.request_redeem(2_500_000, &ALICE, 99, Permill::zero());
    let (next, _) = carried_out(plan);
    assert_eq!(next.redeem_requests(&ALICE), Some((99, Permill::zero())));
}

#[test]
fn a_request_for_nothing_available_does_nothing() {
    let pallet = engine(0);
    let plan = pallet.request_redeem(ISSUANCE, &ALICE, 100, Permill::zero());
    assert!(plan.commands.is_empty());
    let (next, events) = carried_out(plan);
    assert!(events.is_empty());
    assert_eq!(next.redeem_requests(&ALICE), None);
}

#[test]
fn a_second_request_takes_the_place_of_the_first() {
    let pallet = engine(5_000);
    let (pallet, _) = carried_out(pallet.request_redeem(ISSUANCE, &ALICE, 3_000, Permill::zero()));
    let (pallet, _) = carried_out(pallet.request_redeem(ISSUANCE, &BOB, 700, Permill::zero()));
    let fee = Permill::from_parts(5_000);
    let plan = pallet.request_redeem(ISSUANCE, &ALICE, 1_000, fee);
    // The new amount is reserved; it is not added to the old one.
    assert_eq!(plan.commands, vec![Command::Reserve { currency: Currency::Liquid, who: ALICE, amount: 1_000 }]);
    let (next, events) = carried_out(plan);
    assert_eq!(events, vec![Event::RedeemRequested(ALICE, 1_000)]);
    assert_eq!(next.redeem_requests(&ALICE), Some((1_000, fee)));
    assert_eq!(next.redeem_requests(&BOB), Some((700, Permill::zero())));
}

#[test]
fn a_request_of_zero_cancels() {
    let pallet = engine(5_000);
    let (pallet, _) = carried_out(pallet.request_redeem(ISSUANCE, &ALICE, 3_000, Permill::zero()));
    let (pallet, _) = carried_out(pallet.request_redeem(ISSUANCE, &BOB, 700, Permill::zero()));
    let plan = pallet.request_redeem(ISSUANCE, &ALICE, 0, Permill::from_parts(1));
    assert_eq!(plan.commands, vec![Command::Unreserve { currency: Currency::Liquid, who: ALICE, amount: 3_000 }]);
    let (next, events) = carried_out(plan);
    assert_eq!(events, vec![Event::RedeemRequestCancelled(ALICE, 3_000)]);
    assert_eq!(next.redeem_requests(&ALICE), None);
    assert_eq!(next.redeem_requests(&BOB), Some((700, Permill::zero())));
}

#[test]
fn cancelling_without_a_request_does_nothing() {
    let pallet = engine(5_000);
    let (pallet, _) = carried_out(pallet.request_redeem(ISSUANCE, &BOB, 700, Permill::zero()));
    let plan = pallet.request_redeem(ISSUANCE, &ALICE, 0, Permill::zero());
    assert!(plan.commands.is_empty());
    let (next, events) = carried_out(plan);
    assert!(events.is_empty());
    assert_eq!(next.redeem_requests(&ALICE), None);
    assert_eq!(next.redeem_requests(&BOB), Some((700, Permill::zero())));
    assert_eq!(next.available_staking_balance(), 5_000);
    // And so it is the second time.
    let (pallet, _) = carried_out(pallet.request_redeem(ISSUANCE, &BOB, 0, Permill::zero()));
    let plan = pallet.request_redeem(ISSUANCE, &BOB, 0, Permill::zero());
    assert!(plan.commands.is_empty());
    let (next, events) = carried_out(plan);
    assert!(events.is_empty());
    assert_eq!(next.redeem_requests(&BOB), None);
}

#[test]
fn cancelling_needs_no_rate() {
    let mut pallet = engine(u128::MAX / 2);
    pallet.set_total_staking_currency(1).unwrap();
    // At a rate of a hundred what is available cannot be converted.
    let plan = pallet.request_redeem(100, &ALICE, 1, Permill::zero());
    assert!(plan.commands.is_empty());
    assert_eq!(plan.verdict.unwrap_err(), Error::Overflow);
    let plan = pallet.request_redeem(100, &ALICE, 0, Permill::zero());
    assert!(plan.verdict.is_ok());
}

#[test]
fn a_request_that_the_ledger_refuses_leaves_no_state() {
    let pallet = engine(5_000);
    let plan = pallet.request_redeem(ISSUANCE, &ALICE, 3_000, Permill::zero());
    assert_eq!(plan.settle(&vec![Reply::Failed(7)]).unwrap_err(), Error::Ledger(7));
    assert_eq!(pallet.redeem_requests(&ALICE), None);
}
