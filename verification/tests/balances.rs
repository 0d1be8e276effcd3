use homa_lite::fixed::{Permill, Ratio, FIXED_DIV};
use homa_lite::pallet::{Config, Pallet, Relaychain};
use homa_lite::plan::{reply_fault, Plan};
use homa_lite::types::{AccountId, Command, Currency, Error, Outcome, Reply};
use std::collections::HashMap;

const ALICE: AccountId = AccountId([1u8; 32]);
const BOB: AccountId = AccountId([2u8; 32]);
const CAROL: AccountId = AccountId([3u8; 32]);

fn config() -> Config {
    Config {
        minimum_mint_threshold: 50,
        default_exchange_rate: Ratio::from_inner(FIXED_DIV / 10),
        max_reward_per_era: Permill::from_parts(10_000),
        mint_fee: 20,
        base_withdraw_fee: Permill::from_parts(10_000),
        parachain_account: AccountId([9u8; 32]),
        maximum_redeem_request_matches_for_mint: 2,
        relaychain_unbounding_slashing_spans: 5,
        on_idle_weight: 1_000,
        relaychain: Relaychain::Kusama,
    }
}

/// A ledger in memory, for the engine's commands to be carried out on.
#[derive(Clone, Debug, Default, PartialEq)]
struct Balances {
    free: HashMap<(bool, [u8; 32]), u128>,
    reserved: HashMap<(bool, [u8; 32]), u128>,
    issued: HashMap<bool, i128>,
}

fn key(currency: Currency, who: AccountId) -> (bool, [u8; 32]) {
    (currency == Currency::Liquid, who.0)
}

impl Balances {
    fn free(&self, currency: Currency, who: AccountId) -> u128 {
        *self.free.get(&key(currency, who)).unwrap_or(&0)
    }

    fn reserved(&self, currency: Currency, who: AccountId) -> u128 {
        *self.reserved.get(&key(currency, who)).unwrap_or(&0)
    }

    fn issued(&self, currency: Currency) -> i128 {
        *self.issued.get(&(currency == Currency::Liquid)).unwrap_or(&0)
    }

    fn held(&self, currency: Currency) -> i128 {
        let liquid = currency == Currency::Liquid;
        let free: u128 = self.free.iter().filter(|(k, _)| k.0 == liquid).map(|(_, v)| *v).sum();
        let reserved: u128 = self.reserved.iter().filter(|(k, _)| k.0 == liquid).map(|(_, v)| *v).sum();
        (free + reserved) as i128
    }

    fn give(&mut self, currency: Currency, who: AccountId, amount: u128) {
        *self.free.entry(key(currency, who)).or_insert(0) += amount;
        *self.issued.entry(currency == Currency::Liquid).or_insert(0) += amount as i128;
    }

    fn take(&mut self, currency: Currency, who: AccountId, amount: u128) -> bool {
        let balance = self.free.entry(key(currency, who)).or_insert(0);
        if *balance < amount {
            return false;
        }
        *balance -= amount;
        true
    }

    fn carry_out(&mut self, command: &Command) -> Reply {
        match *command {
            Command::EnsureCanWithdraw { currency, who, amount } => {
                if self.free(currency, who) >= amount { Reply::Completed(0) } else { Reply::Failed(1) }
            }
            Command::RepatriateReserved { currency, from, to, amount } => {
                let held = self.reserved(currency, from);
                let moved = held.min(amount);
                self.reserved.insert(key(currency, from), held - moved);
                *self.free.entry(key(currency, to)).or_insert(0) += moved;
                Reply::Completed(amount - moved)
            }
            Command::Transfer { currency, from, to, amount } => {
                if !self.take(currency, from, amount) {
                    return Reply::Failed(2);
                }
                *self.free.entry(key(currency, to)).or_insert(0) += amount;
                Reply::Completed(0)
            }
            Command::Reserve { currency, who, amount } => {
                if !self.take(currency, who, amount) {
                    return Reply::Failed(3);
                }
                *self.reserved.entry(key(currency, who)).or_insert(0) += amount;
                Reply::Completed(0)
            }
            Command::Unreserve { currency, who, amount } => {
                let held = self.reserved(currency, who);
                let moved = held.min(amount);
                self.reserved.insert(key(currency, who), held - moved);
                *self.free.entry(key(currency, who)).or_insert(0) += moved;
                Reply::Completed(amount - moved)
            }
            Command::Deposit { currency, who, amount } => {
                self.give(currency, who, amount);
                Reply::Completed(0)
            }
            Command::CrossChainTransfer { who, amount, .. } => {
                if !self.take(Currency::Staking, who, amount) {
                    return Reply::Failed(4);
                }
                *self.issued.entry(false).or_insert(0) -= amount as i128;
                Reply::Completed(0)
            }
        }
    }
}

struct World {
    pallet: Pallet,
    balances: Balances,
}

impl World {
    /// A rate of one, five thousand unbonded, and funds for everyone.
    fn new() -> World {
        let mut pallet = Pallet::new(config());
        pallet.set_total_staking_currency(100_000).unwrap();
        pallet.set_minting_cap(200_000).unwrap();
        pallet.schedule_unbound(5_000, 0).unwrap();
        pallet.on_idle(0, 2_000, Outcome::Complete);
        let mut balances = Balances::default();
        balances.give(Currency::Liquid, ALICE, 50_000);
        balances.give(Currency::Liquid, BOB, 30_000);
        balances.give(Currency::Liquid, CAROL, 20_000);
        balances.give(Currency::Staking, ALICE, 10_000);
        balances.give(Currency::Staking, BOB, 10_000);
        World { pallet, balances }
    }

    fn carry_out(&mut self, plan: Plan) -> Result<(), Error> {
        let before = self.balances.clone();
        let mut replies = Vec::new();
        for command in plan.commands.iter() {
            let reply = self.balances.carry_out(command);
            let fault = reply_fault(command, &reply);
            replies.push(reply);
            if fault.is_some() {
                break;
            }
        }
        match plan.settle(&replies) {
            Ok(done) => {
                self.pallet = done.state;
                Ok(())
            }
            Err(e) => {
                self.balances = before;
                Err(e)
            }
        }
    }

    fn mint(&mut self, who: AccountId, amount: u128, requests: Vec<AccountId>) -> Result<(), Error> {
        let issuance = self.balances.issued(Currency::Liquid) as u128;
        let plan = self.pallet.mint_for_requests(issuance, &who, amount, requests);
        self.carry_out(plan)
    }

    fn redeem(&mut self, who: AccountId, amount: u128) -> Result<(), Error> {
        let issuance = self.balances.issued(Currency::Liquid) as u128;
        let plan = self.pallet.request_redeem(issuance, &who, amount, Permill::zero());
        self.carry_out(plan)
    }

    fn holds(&self) {
        // What is held is what is in issue.
        assert_eq!(self.balances.held(Currency::Liquid), self.balances.issued(Currency::Liquid));
        assert_eq!(self.balances.held(Currency::Staking), self.balances.issued(Currency::Staking));
        // Each request is covered by its escrow.
        let book = self.pallet.book();
        for i in 0..book.len() {
            let request = book.entry(i);
            assert!(self.balances.reserved(Currency::Liquid, request.who) >= request.amount);
            assert!(request.amount > 0);
        }
    }
}

#[test]
fn currency_is_conserved_and_requests_stay_covered() {
    let mut world = World::new();
    world.holds();
    assert_eq!(world.redeem(BOB, 3_000), Ok(()));
    world.holds();
    assert_eq!(world.redeem(CAROL, 1_000), Ok(()));
    world.holds();
    assert_eq!(world.mint(ALICE, 2_000, vec![CAROL]), Ok(()));
    world.holds();
    assert_eq!(world.pallet.redeem_requests(&CAROL), None);
    assert_eq!(world.pallet.redeem_requests(&BOB), Some((2_000, Permill::zero())));
    assert_eq!(world.balances.reserved(Currency::Liquid, BOB), 2_000);
    assert_eq!(world.balances.free(Currency::Liquid, ALICE), 52_000);
    assert_eq!(world.balances.free(Currency::Staking, ALICE), 10_000 - 1_980);
    assert_eq!(world.balances.free(Currency::Staking, CAROL), 990);
    assert_eq!(world.balances.free(Currency::Staking, BOB), 10_990);
    // The rest of the book is matched, and the rest of the mint crosses to the relay chain.
    assert_eq!(world.mint(ALICE, 5_000, vec![]), Ok(()));
    world.holds();
    assert_eq!(world.pallet.redeem_requests(&BOB), None);
    assert_eq!(world.pallet.total_staking_currency(), 103_000);
    assert_eq!(world.balances.issued(Currency::Staking), 20_000 - 3_000);
    // 3000 less the fee is 2980, less one percent 2950.2.
    assert_eq!(world.balances.issued(Currency::Liquid), 100_000 + 2_950);
    assert_eq!(world.redeem(ALICE, 0), Ok(()));
    world.holds();
}

#[test]
fn a_request_over_another_keeps_both_escrows() {
    let mut world = World::new();
    assert_eq!(world.redeem(BOB, 3_000), Ok(()));
    assert_eq!(world.redeem(BOB, 1_000), Ok(()));
    world.holds();
    assert_eq!(world.balances.reserved(Currency::Liquid, BOB), 4_000);
    assert_eq!(world.pallet.redeem_requests(&BOB), Some((1_000, Permill::zero())));
    // A cancellation releases what the request held.
    assert_eq!(world.redeem(BOB, 0), Ok(()));
    world.holds();
    assert_eq!(world.balances.reserved(Currency::Liquid, BOB), 3_000);
    assert_eq!(world.pallet.redeem_requests(&BOB), None);
}

#[test]
fn an_operation_that_fails_leaves_everything_as_it_was() {
    let mut world = World::new();
    assert_eq!(world.redeem(BOB, 3_000), Ok(()));
    let balances = world.balances.clone();
    // Carol has no staking currency to mint with.
    assert_eq!(world.mint(CAROL, 2_000, vec![]), Err(Error::Ledger(1)));
    // Nobody has this much liquid currency to put in escrow.
    let plan = world.pallet.request_redeem(100_000, &CAROL, 4_000, Permill::zero());
    assert_eq!(world.carry_out(plan), Ok(()));
    let mut poor = World::new();
    let plan = poor.pallet.request_redeem(100_000, &AccountId([8u8; 32]), 4_000, Permill::zero());
    assert_eq!(poor.carry_out(plan), Err(Error::Ledger(3)));
    assert_eq!(poor.pallet.redeem_requests(&AccountId([8u8; 32])), None);
    assert_eq!(poor.balances, World::new().balances);
    assert_eq!(world.pallet.redeem_requests(&BOB), Some((3_000, Permill::zero())));
    assert_eq!(world.balances.reserved(Currency::Liquid, BOB), balances.reserved(Currency::Liquid, BOB));
    world.holds();
}

#[test]
fn an_account_named_again_after_a_match_in_full_can_outrun_its_escrow() {
    let mut world = World::new();
    // An earlier request left more in reserve than the book says.
    assert_eq!(world.redeem(BOB, 600), Ok(()));
    assert_eq!(world.redeem(BOB, 1_000), Ok(()));
    assert_eq!(world.balances.reserved(Currency::Liquid, BOB), 1_600);
    world.holds();
    assert_eq!(world.mint(ALICE, 1_600, vec![BOB, BOB]), Ok(()));
    // Matched in full, then in part against the request as the book still showed it.
    assert_eq!(world.pallet.redeem_requests(&BOB), Some((400, Permill::zero())));
    assert_eq!(world.balances.reserved(Currency::Liquid, BOB), 0);
    // With no more in reserve than the book says, the second match is a fault.
    let mut world = World::new();
    assert_eq!(world.redeem(BOB, 1_000), Ok(()));
    assert_eq!(world.mint(ALICE, 1_600, vec![BOB, BOB]), Err(Error::InsufficientReservedBalances));
    world.holds();
    assert_eq!(world.pallet.redeem_requests(&BOB), Some((1_000, Permill::zero())));
    // Named again after a match in part, the account is not matched again.
    assert_eq!(world.mint(ALICE, 600, vec![BOB, BOB]), Ok(()));
    world.holds();
    assert_eq!(world.pallet.redeem_requests(&BOB), Some((400, Permill::zero())));
}

#[test]
fn the_book_keeps_the_order_of_arrival() {
    let mut world = World::new();
    assert_eq!(world.redeem(CAROL, 100), Ok(()));
    assert_eq!(world.redeem(ALICE, 200), Ok(()));
    assert_eq!(world.redeem(BOB, 300), Ok(()));
    // A request that is replaced keeps its place; one that is cancelled and made again loses it.
    assert_eq!(world.redeem(CAROL, 150), Ok(()));
    assert_eq!(world.redeem(ALICE, 0), Ok(()));
    assert_eq!(world.redeem(ALICE, 250), Ok(()));
    let book = world.pallet.book();
    let order: Vec<(AccountId, u128)> = (0..book.len()).map(|i| (book.entry(i).who, book.entry(i).amount)).collect();
    assert_eq!(order, vec![(CAROL, 150), (BOB, 300), (ALICE, 250)]);
    assert_eq!(book.get(&BOB).unwrap().amount, 300);
    assert_eq!(book.get(&AccountId([7u8; 32])), None);
    world.holds();
}
