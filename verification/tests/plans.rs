use homa_lite::fixed::{Permill, Ratio, FIXED_DIV};
use homa_lite::pallet::{Config, Pallet, Relaychain};
use homa_lite::plan::{reply_fault, Plan};
use homa_lite::types::{AccountId, Command, Currency, Error, Outcome, Reply};

const ALICE: AccountId = AccountId([1u8; 32]);
const BOB: AccountId = AccountId([2u8; 32]);
const ISSUANCE: u128 = 1_000_000;

fn config() -> Config {
    Config {
        minimum_mint_threshold: 50,
        default_exchange_rate: Ratio::from_inner(FIXED_DIV / 10),
        max_reward_per_era: Permill::from_parts(10_000),
        mint_fee: 20,
        base_withdraw_fee: Permill::from_parts(10_000),
        parachain_account: AccountId([9u8; 32]),
        maximum_redeem_request_matches_for_mint: 2,
        relaychain_unbounding_slashing_spans: 5,
        on_idle_weight: 1_000,
        relaychain: Relaychain::Kusama,
    }
}

/// A mint of 5000 against a request of 3000: five commands, the ledger's
/// check, the two of the match, and the two that go to the relay chain.
fn plan() -> Plan {
    let mut pallet = Pallet::new(config());
    pallet.set_total_staking_currency(1_000_000).unwrap();
    pallet.set_minting_cap(2_000_000).unwrap();
    pallet.schedule_unbound(5_000, 0).unwrap();
    pallet.on_idle(0, 2_000, Outcome::Complete);
    let booked = pallet.request_redeem(ISSUANCE, &BOB, 3_000, Permill::zero());
    let pallet = booked.settle(&vec![Reply::Completed(0)]).unwrap().state;
    let plan = pallet.mint(ISSUANCE, &ALICE, 5_000);
    assert_eq!(plan.commands.len(), 5);
    plan
}

fn done() -> Reply {
    Reply::Completed(0)
}

#[test]
fn a_plan_goes_through_where_every_command_did() {
    let settled = plan().settle(&vec![done(); 5]).unwrap();
    assert_eq!(settled.state.total_staking_currency(), 1_002_000);
    assert_eq!(settled.events.len(), 2);
    // Replies beyond the commands are not looked at.
    let mut replies = vec![done(); 5];
    replies.push(Reply::Failed(1));
    assert!(plan().settle(&replies).is_ok());
}

#[test]
fn a_refusal_of_the_ledger_is_passed_on() {
    assert_eq!(plan().settle(&vec![Reply::Failed(3)]).unwrap_err(), Error::Ledger(3));
    assert_eq!(plan().settle(&vec![done(), Reply::Failed(4)]).unwrap_err(), Error::Ledger(4));
    assert_eq!(plan().settle(&vec![done(), done(), Reply::Failed(5)]).unwrap_err(), Error::Ledger(5));
    let replies = vec![done(), done(), done(), done(), Reply::Failed(u32::MAX)];
    assert_eq!(plan().settle(&replies).unwrap_err(), Error::Ledger(u32::MAX));
}

#[test]
fn a_refusal_of_the_transport_is_a_failed_remote_execution() {
    let replies = vec![done(), done(), done(), Reply::Failed(6)];
    assert_eq!(plan().settle(&replies).unwrap_err(), Error::RemoteExecutionFailed);
}

#[test]
fn an_escrow_that_falls_short_is_a_fault() {
    let replies = vec![done(), Reply::Completed(1), done(), done(), done()];
    assert_eq!(plan().settle(&replies).unwrap_err(), Error::InsufficientReservedBalances);
    // What another command could not move is of no account.
    let replies = vec![Reply::Completed(9), done(), Reply::Completed(9), Reply::Completed(9), Reply::Completed(9)];
    assert!(plan().settle(&replies).is_ok());
}

#[test]
fn the_first_fault_decides() {
    let replies = vec![done(), Reply::Completed(1), Reply::Failed(2), Reply::Failed(3)];
    assert_eq!(plan().settle(&replies).unwrap_err(), Error::InsufficientReservedBalances);
    let replies = vec![done(), Reply::Failed(2), Reply::Completed(1)];
    assert_eq!(plan().settle(&replies).unwrap_err(), Error::Ledger(2));
}

#[test]
fn a_command_without_a_reply_is_unanswered() {
    assert_eq!(plan().settle(&vec![]).unwrap_err(), Error::Unanswered);
    assert_eq!(plan().settle(&vec![done(); 4]).unwrap_err(), Error::Unanswered);
}

#[test]
fn a_fault_of_the_ledger_comes_before_the_verdict_of_the_engine() {
    let mut pallet = Pallet::new(config());
    pallet.set_total_staking_currency(1_000_000).unwrap();
    // The cap is zero, so the engine rejects the mint; the ledger is asked first.
    let rejected = pallet.mint(ISSUANCE, &ALICE, 5_000);
    assert_eq!(rejected.commands.len(), 1);
    assert_eq!(rejected.settle(&vec![Reply::Failed(8)]).unwrap_err(), Error::Ledger(8));
    let rejected = pallet.mint(ISSUANCE, &ALICE, 5_000);
    assert_eq!(rejected.settle(&vec![done()]).unwrap_err(), Error::ExceededStakingCurrencyMintCap);
}

#[test]
fn a_plan_without_commands_needs_no_reply() {
    let pallet = Pallet::new(config());
    let plan = pallet.mint(ISSUANCE, &ALICE, 1);
    assert_eq!(plan.settle(&vec![]).unwrap_err(), Error::MintAmountBelowMinimumThreshold);
    let plan = pallet.request_redeem(ISSUANCE, &ALICE, 0, Permill::zero());
    assert!(plan.settle(&vec![]).is_ok());
}

#[test]
fn each_reply_is_judged_by_its_command() {
    let transfer = Command::Transfer { currency: Currency::Staking, from: ALICE, to: BOB, amount: 1 };
    let repatriate =
        Command::RepatriateReserved { currency: Currency::Liquid, from: BOB, to: ALICE, amount: 1 };
    let cross = Command::CrossChainTransfer { who: ALICE, amount: 1, dest_weight: 0 };
    let unreserve = Command::Unreserve { currency: Currency::Liquid, who: ALICE, amount: 1 };
    assert_eq!(reply_fault(&transfer, &Reply::Completed(0)), None);
    assert_eq!(reply_fault(&transfer, &Reply::Completed(1)), None);
    assert_eq!(reply_fault(&transfer, &Reply::Failed(1)), Some(Error::Ledger(1)));
    assert_eq!(reply_fault(&repatriate, &Reply::Completed(0)), None);
    assert_eq!(reply_fault(&repatriate, &Reply::Completed(1)), Some(Error::InsufficientReservedBalances));
    assert_eq!(reply_fault(&repatriate, &Reply::Failed(2)), Some(Error::Ledger(2)));
    assert_eq!(reply_fault(&cross, &Reply::Failed(3)), Some(Error::RemoteExecutionFailed));
    assert_eq!(reply_fault(&cross, &Reply::Completed(3)), None);
    assert_eq!(reply_fault(&unreserve, &Reply::Completed(1)), None);
}
