//! The engine's state, its parameters, and the operations reserved to governance.

use crate::book::{request_of, well_formed, RedemptionBook};
use crate::fixed::{Balance, ExchangeRate, Permill, Ratio};
use crate::rate::{exchange_rate, liquid_for, staking_for};
use crate::types::{AccountId, BlockNumber, Error, Event, RedeemRequest, Weight};
use vstd::prelude::*;

verus! {

/// The relay chain whose call format the engine speaks.
#[derive(Clone, Copy, Debug, PartialEq, Eq, Structural)]
pub enum Relaychain {
    Kusama,
    Polkadot,
}

/// The parameters the engine is set up with.
#[derive(Clone, Copy, Debug)]
pub struct Config {
    /// The smallest staking amount worth locking.
    pub minimum_mint_threshold: Balance,
    /// The exchange rate used where none can be computed.
    pub default_exchange_rate: ExchangeRate,
    /// The largest reward the relay chain pays in one era.
    pub max_reward_per_era: Permill,
    /// The fixed cost of a cross-chain transfer.
    pub mint_fee: Balance,
    /// The fee a redeemer always pays for being matched.
    pub base_withdraw_fee: Permill,
    /// The account the relay chain releases unbonded funds to.
    pub parachain_account: AccountId,
    /// The most redeem requests one mint is matched against beyond those it names.
    pub maximum_redeem_request_matches_for_mint: u32,
    /// The number of slashing spans passed along when withdrawing unbonded funds.
    pub relaychain_unbounding_slashing_spans: u32,
    /// The execution budget that settling one unbonding takes.
    pub on_idle_weight: Weight,
    /// The relay chain the engine is attached to.
    pub relaychain: Relaychain,
}

/// The engine's state as a value of mathematics.
pub struct State {
    pub config: Config,
    /// The staking currency held on the relay chain, which backs the liquid currency.
    pub total_staking_currency: Balance,
    /// The most that `total_staking_currency` may grow to by minting.
    pub staking_currency_mint_cap: Balance,
    /// The budget granted to a cross-chain transfer at its destination.
    pub xcm_dest_weight: Weight,
    /// The redemption book, in its own order.
    pub redeem_requests: Seq<RedeemRequest>,
    /// The staking currency that has unbonded and can back redemptions.
    pub available_staking_balance: Balance,
    /// The unbondings under way, oldest first: amount and maturity block.
    pub scheduled_unbound: Seq<(Balance, BlockNumber)>,
}

/// The liquid-staking engine.
#[derive(Debug)]
pub struct Pallet {
    pub(crate) config: Config,
    pub(crate) total_staking_currency: Balance,
    pub(crate) staking_currency_mint_cap: Balance,
    pub(crate) xcm_dest_weight: Weight,
    pub(crate) redeem_requests: RedemptionBook,
    pub(crate) available_staking_balance: Balance,
    pub(crate) scheduled_unbound: Vec<(Balance, BlockNumber)>,
}

impl View for Pallet {
    type V = State;

    closed spec fn view(&self) -> State {
        State {
            config: self.config,
            total_staking_currency: self.total_staking_currency,
            staking_currency_mint_cap: self.staking_currency_mint_cap,
            xcm_dest_weight: self.xcm_dest_weight,
            redeem_requests: self.redeem_requests@,
            available_staking_balance: self.available_staking_balance,
            scheduled_unbound: self.scheduled_unbound@,
        }
    }
}

impl State {
    /// The exchange rate in this state, given how much liquid currency is in issue.
    pub open spec fn rate(self, liquid_issuance: Balance) -> Ratio {
        exchange_rate(liquid_issuance, self.total_staking_currency, self.config.default_exchange_rate)
    }
}

/// The state of an engine that has done nothing yet.
pub open spec fn initial(config: Config) -> State {
    State {
        config,
        total_staking_currency: 0,
        staking_currency_mint_cap: 0,
        xcm_dest_weight: 0,
        redeem_requests: Seq::empty(),
        available_staking_balance: 0,
        scheduled_unbound: Seq::empty(),
    }
}

impl Pallet {
    /// The view is made of the fields, each by its own view.
    pub(crate) proof fn lemma_view(&self)
        ensures
            self@ == (State {
                config: self.config,
                total_staking_currency: self.total_staking_currency,
                staking_currency_mint_cap: self.staking_currency_mint_cap,
                xcm_dest_weight: self.xcm_dest_weight,
                redeem_requests: self.redeem_requests@,
                available_staking_balance: self.available_staking_balance,
                scheduled_unbound: self.scheduled_unbound@,
            }),
    {
    }

    /// An engine with nothing staked, no cap, an empty book and an empty schedule.
    pub fn new(config: Config) -> (r: Pallet)
        ensures
            r@ == initial(config),
    {
        Pallet {
            config,
            total_staking_currency: 0,
            staking_currency_mint_cap: 0,
            xcm_dest_weight: 0,
            redeem_requests: RedemptionBook::new(),
            available_staking_balance: 0,
            scheduled_unbound: Vec::new(),
        }
    }

    /// An engine in the state that the parts make up, where the requests make
    /// up a book: no account has two of them, and none of them is empty.
    pub fn restore(
        config: Config,
        total_staking_currency: Balance,
        staking_currency_mint_cap: Balance,
        xcm_dest_weight: Weight,
        redeem_requests: Vec<RedeemRequest>,
        available_staking_balance: Balance,
        scheduled_unbound: Vec<(Balance, BlockNumber)>,
    ) -> (r: Option<Pallet>)
        ensures
            well_formed(redeem_requests@) <==> r is Some,
            r matches Some(pallet) ==> pallet@ == (State {
                config,
                total_staking_currency,
                staking_currency_mint_cap,
                xcm_dest_weight,
                redeem_requests: redeem_requests@,
                available_staking_balance,
                scheduled_unbound: scheduled_unbound@,
            }),
    {
        match RedemptionBook::from_requests(redeem_requests) {
            Some(book) => Some(
                Pallet {
                    config,
                    total_staking_currency,
                    staking_currency_mint_cap,
                    xcm_dest_weight,
                    redeem_requests: book,
                    available_staking_balance,
                    scheduled_unbound,
                },
            ),
            None => None,
        }
    }

    /// The engine as it stands, with `book` for its redemption book and
    /// `total_staking_currency` for its staked total.
    pub(crate) fn succeeded_by(&self, book: RedemptionBook, total_staking_currency: Balance) -> (r:
        Pallet)
        ensures
            r@ == (State { total_staking_currency, redeem_requests: book@, ..self@ }),
    {
        let next = Pallet {
            config: self.config,
            total_staking_currency,
            staking_currency_mint_cap: self.staking_currency_mint_cap,
            xcm_dest_weight: self.xcm_dest_weight,
            redeem_requests: book,
            available_staking_balance: self.available_staking_balance,
            scheduled_unbound: self.scheduled_unbound(),
        };
        next
    }

    /// The parameters the engine was set up with.
    pub fn config(&self) -> (r: Config)
        ensures
            r == self@.config,
    {
        self.config
    }

    /// The staking currency on the relay chain that backs the liquid currency.
    pub fn total_staking_currency(&self) -> (r: Balance)
        ensures
            r == self@.total_staking_currency,
    {
        self.total_staking_currency
    }

    /// The cap on the staking currency that minting may lock.
    pub fn staking_currency_mint_cap(&self) -> (r: Balance)
        ensures
            r == self@.staking_currency_mint_cap,
    {
        self.staking_currency_mint_cap
    }

    /// The budget granted to cross-chain transfers at their destination.
    pub fn xcm_dest_weight(&self) -> (r: Weight)
        ensures
            r == self@.xcm_dest_weight,
    {
        self.xcm_dest_weight
    }

    /// The redeem request of `who`, if it has one: the liquid amount in
    /// escrow and the extra fee offered.
    pub fn redeem_requests(&self, who: &AccountId) -> (r: Option<(Balance, Permill)>)
        ensures
            r == match request_of(self@.redeem_requests, *who) {
                Some(request) => Some((request.amount, request.extra_fee)),
                None => None,
            },
    {
        match self.redeem_requests.get(who) {
            Some(request) => Some((request.amount, request.extra_fee)),
            None => None,
        }
    }

    /// The redemption book.
    pub fn book(&self) -> (r: &RedemptionBook)
        ensures
            r@ == self@.redeem_requests,
    {
        &self.redeem_requests
    }

    /// The staking currency that has unbonded and can back redemptions.
    pub fn available_staking_balance(&self) -> (r: Balance)
        ensures
            r == self@.available_staking_balance,
    {
        self.available_staking_balance
    }

    /// A copy of the schedule of unbondings.
    pub fn scheduled_unbound(&self) -> (r: Vec<(Balance, BlockNumber)>)
        ensures
            r@ == self@.scheduled_unbound,
    {
        let n = self.scheduled_unbound.len();
        let mut copy: Vec<(Balance, BlockNumber)> = Vec::new();
        let mut k: usize = 0;
        while k < n
            invariant
                n == self.scheduled_unbound@.len(),
                k <= n,
                copy@ == self.scheduled_unbound@.take(k as int),
            decreases n - k,
        {
            copy.push(self.scheduled_unbound[k]);
            k = k + 1;
        }
        copy
    }

    /// Sets the total amount of staking currency that is on the relay chain.
    /// The total backs the exchange rate, so zero is refused.
    pub fn set_total_staking_currency(&mut self, staking_total: Balance) -> (r: Result<Event, Error>)
        ensures
            staking_total == 0 ==> r == Err::<Event, Error>(Error::InvalidTotalStakingCurrency)
                && final(self)@ == old(self)@,
            staking_total != 0 ==> r == Ok::<Event, Error>(Event::TotalStakingCurrencySet(staking_total))
                && final(self)@ == (State { total_staking_currency: staking_total, ..old(self)@ }),
    {
        if staking_total == 0 {
            return Err(Error::InvalidTotalStakingCurrency);
        }
        self.total_staking_currency = staking_total;
        Ok(Event::TotalStakingCurrencySet(staking_total))
    }

    /// Sets the cap on the staking currency that minting may lock.
    pub fn set_minting_cap(&mut self, new_cap: Balance) -> (r: Result<Event, Error>)
        ensures
            r == Ok::<Event, Error>(Event::StakingCurrencyMintCapUpdated(new_cap)),
            final(self)@ == (State { staking_currency_mint_cap: new_cap, ..old(self)@ }),
    {
        self.staking_currency_mint_cap = new_cap;
        Ok(Event::StakingCurrencyMintCapUpdated(new_cap))
    }

    /// Sets the budget granted to cross-chain transfers at their destination.
    pub fn set_xcm_dest_weight(&mut self, xcm_dest_weight: Weight) -> (r: Result<Event, Error>)
        ensures
            r == Ok::<Event, Error>(Event::XcmDestWeightSet(xcm_dest_weight)),
            final(self)@ == (State { xcm_dest_weight, ..old(self)@ }),
    {
        self.xcm_dest_weight = xcm_dest_weight;
        Ok(Event::XcmDestWeightSet(xcm_dest_weight))
    }

    /// The liquid amount issued per unit of staking currency, given how much
    /// liquid currency is in issue: the issuance over the staked total, or the
    /// default rate where nothing is staked or the quotient is out of range.
    pub fn get_exchange_rate(&self, liquid_issuance: Balance) -> (r: Ratio)
        ensures
            r == self@.rate(liquid_issuance),
    {
        match Ratio::checked_from_rational(liquid_issuance, self.total_staking_currency) {
            Some(rate) => rate,
            None => self.config.default_exchange_rate,
        }
    }

    /// The staking amount that `liquid_amount` converts to at the exchange
    /// rate, rounded down. A rate of zero has no inverse; the default rate then
    /// stands in for it.
    pub fn convert_liquid_to_staking(&self, liquid_issuance: Balance, liquid_amount: Balance) -> (r:
        Result<Balance, Error>)
        ensures
            r == match staking_for(self@.rate(liquid_issuance), self@.config.default_exchange_rate, liquid_amount) {
                Some(staking) => Ok::<Balance, Error>(staking),
                None => Err::<Balance, Error>(Error::Overflow),
            },
    {
        let back = match self.get_exchange_rate(liquid_issuance).reciprocal() {
            Some(inverse) => inverse,
            None => self.config.default_exchange_rate,
        };
        match back.checked_mul_int(liquid_amount) {
            Some(staking) => Ok(staking),
            None => Err(Error::Overflow),
        }
    }

    /// The liquid amount that `staking_amount` converts to at the exchange
    /// rate, rounded down.
    pub fn convert_staking_to_liquid(&self, liquid_issuance: Balance, staking_amount: Balance) -> (r:
        Result<Balance, Error>)
        ensures
            r == match liquid_for(self@.rate(liquid_issuance), staking_amount) {
                Some(liquid) => Ok::<Balance, Error>(liquid),
                None => Err::<Balance, Error>(Error::Overflow),
            },
    {
        match self.get_exchange_rate(liquid_issuance).checked_mul_int(staking_amount) {
            Some(liquid) => Ok(liquid),
            None => Err(Error::Overflow),
        }
    }
}

} // verus!
