//! The mint orchestrator: a mint is matched against the redemption book, and
//! what is left of it is staked on the relay chain.

use crate::book::{applied, request_of};
use crate::fixed::{permill_of, Balance, Permill, Ratio, PERMILL_MAX};
use crate::matching::{matched, Matching, Progress};
use crate::pallet::{Pallet, State};
use crate::plan::{Committed, Outline, Plan};
use crate::rate::{
    lemma_liquid_round_trip, lemma_permill_of_bounds, lemma_staking_round_trip, liquid_for, staking_for,
};
use crate::types::{AccountId, Command, Currency, Error, Event, RedeemRequest};
use vstd::prelude::*;

verus! {

/// The sum of two amounts, or the largest amount where the sum exceeds it.
pub open spec fn capped_sum(a: Balance, b: Balance) -> Balance {
    if a + b > u128::MAX {
        u128::MAX
    } else {
        (a + b) as Balance
    }
}

/// Matching after the requests of the accounts in `requests` were matched, in
/// the order of the list and as the book stood before the pass. An account
/// without a request is passed over. The pass ends where nothing is left to
/// find or a match fails.
pub open spec fn priority_pass(
    s: State,
    rate: Ratio,
    minter: AccountId,
    requests: Seq<AccountId>,
    p: Progress,
) -> Progress
    decreases requests.len(),
{
    if requests.len() == 0 || p.failure is Some || p.remaining == 0 {
        p
    } else {
        let next = match request_of(s.redeem_requests, requests.first()) {
            Some(request) => matched(s.config, rate, minter, request, p),
            None => p,
        };
        priority_pass(s, rate, minter, requests.drop_first(), next)
    }
}

/// Matching after the requests in `entries` were matched, in their order, at
/// most `limit` of them. The pass ends where nothing is left to find or a
/// match fails.
pub open spec fn sweep_pass(
    s: State,
    rate: Ratio,
    minter: AccountId,
    entries: Seq<RedeemRequest>,
    limit: nat,
    p: Progress,
) -> Progress
    decreases entries.len(),
{
    if entries.len() == 0 || p.failure is Some || p.remaining == 0 || limit == 0 {
        p
    } else {
        sweep_pass(
            s,
            rate,
            minter,
            entries.drop_first(),
            (limit - 1) as nat,
            matched(s.config, rate, minter, entries.first(), p),
        )
    }
}

/// Matching at the start of a mint: the ledger was asked whether the minter
/// can part with the amount, and all of its liquid value is to be found.
pub open spec fn opened(minter: AccountId, amount: Balance, total_liquid: Balance) -> Progress {
    Progress {
        remaining: total_liquid,
        commands: seq![
            Command::EnsureCanWithdraw { currency: Currency::Staking, who: minter, amount },
        ],
        updates: Seq::empty(),
        events: Seq::empty(),
        failure: None,
    }
}

/// Matching after the first pass of a mint, over the accounts that it names.
pub open spec fn named_pass(
    s: State,
    liquid_issuance: Balance,
    minter: AccountId,
    amount: Balance,
    requests: Seq<AccountId>,
) -> Progress {
    let rate = s.rate(liquid_issuance);
    priority_pass(s, rate, minter, requests, opened(minter, amount, liquid_for(rate, amount).unwrap()))
}

/// A plan that issued `commands` and was then rejected.
pub open spec fn rejected(commands: Seq<Command>, e: Error) -> Outline {
    Outline { commands, verdict: Err(e) }
}

/// The end of a mint: what matching has left of it is staked on the relay
/// chain, where it is worth the while.
///
/// The liquid remainder is turned back into staking currency. Where that
/// exceeds the minimum and the mint fee together, the fee is taken off, then
/// the era's largest reward, and the rest is issued as liquid currency at the
/// exchange rate; the staked total grows by the whole remainder and may not
/// pass the cap. A smaller remainder stays with the minter. The mint reports
/// the staking amount consumed and the liquid amount received.
pub open spec fn routed(
    s: State,
    rate: Ratio,
    minter: AccountId,
    amount: Balance,
    total_liquid: Balance,
    book: Seq<RedeemRequest>,
    p: Progress,
) -> Outline {
    let c = s.config;
    match staking_for(rate, c.default_exchange_rate, p.remaining) {
        None => rejected(p.commands, Error::Overflow),
        Some(staking_remaining) => if staking_remaining > capped_sum(
            c.minimum_mint_threshold,
            c.mint_fee,
        ) {
            let net = permill_of(
                PERMILL_MAX - c.max_reward_per_era@,
                staking_remaining - c.mint_fee,
            ) as Balance;
            match liquid_for(rate, net) {
                None => rejected(p.commands, Error::Overflow),
                Some(liquid_to_mint) => if s.total_staking_currency + staking_remaining
                    > u128::MAX {
                    rejected(p.commands, Error::Overflow)
                } else if s.total_staking_currency + staking_remaining
                    > s.staking_currency_mint_cap {
                    rejected(p.commands, Error::ExceededStakingCurrencyMintCap)
                } else {
                    Outline {
                        commands: p.commands.push(
                            Command::CrossChainTransfer {
                                who: minter,
                                amount: staking_remaining,
                                dest_weight: s.xcm_dest_weight,
                            },
                        ).push(
                            Command::Deposit {
                                currency: Currency::Liquid,
                                who: minter,
                                amount: liquid_to_mint,
                            },
                        ),
                        verdict: Ok(
                            (
                                State {
                                    total_staking_currency: (s.total_staking_currency
                                        + staking_remaining) as Balance,
                                    redeem_requests: book,
                                    ..s
                                },
                                p.events.push(
                                    Event::Minted(
                                        minter,
                                        amount,
                                        (total_liquid - (p.remaining - liquid_to_mint)) as Balance,
                                    ),
                                ),
                            ),
                        ),
                    }
                },
            }
        } else {
            Outline {
                commands: p.commands,
                verdict: Ok(
                    (
                        State { redeem_requests: book, ..s },
                        p.events.push(
                            Event::Minted(
                                minter,
                                (amount - staking_remaining) as Balance,
                                (total_liquid - p.remaining) as Balance,
                            ),
                        ),
                    ),
                ),
            }
        },
    }
}

/// The plan of a mint of `amount` staking currency by `minter`, with the
/// accounts in `requests` matched first.
///
/// An amount that does not exceed the minimum and the mint fee together is
/// rejected before anything is asked. Else the ledger is asked whether the
/// minter can part with the amount, and the amount is turned into the liquid
/// amount to find. The named requests are matched, the book is written, the
/// rest of the book is matched up to the limit, the book is written again, and
/// what is left is routed to the relay chain.
pub open spec fn minted(
    s: State,
    liquid_issuance: Balance,
    minter: AccountId,
    amount: Balance,
    requests: Seq<AccountId>,
) -> Outline {
    let c = s.config;
    let rate = s.rate(liquid_issuance);
    let check = Command::EnsureCanWithdraw { currency: Currency::Staking, who: minter, amount };
    if amount <= capped_sum(c.minimum_mint_threshold, c.mint_fee) {
        rejected(Seq::empty(), Error::MintAmountBelowMinimumThreshold)
    } else {
        match liquid_for(rate, amount) {
            None => rejected(seq![check], Error::Overflow),
            Some(total_liquid) => {
                let first = named_pass(s, liquid_issuance, minter, amount, requests);
                let book = applied(s.redeem_requests, first.updates);
                let second = sweep_pass(
                    s,
                    rate,
                    minter,
                    book,
                    c.maximum_redeem_request_matches_for_mint as nat,
                    Progress { updates: Seq::empty(), ..first },
                );
                if first.failure is Some {
                    rejected(first.commands, first.failure.unwrap())
                } else if second.failure is Some {
                    rejected(second.commands, second.failure.unwrap())
                } else {
                    routed(
                        s,
                        rate,
                        minter,
                        amount,
                        total_liquid,
                        applied(book, second.updates),
                        second,
                    )
                }
            },
        }
    }
}

impl Pallet {
    /// Plans a mint: `amount` of the minter's staking currency is exchanged
    /// for liquid currency at the exchange rate that `liquid_issuance` gives.
    /// The redeem requests of the accounts in `requests` are matched first,
    /// then the other requests in the order of the book, and what is left is
    /// staked on the relay chain.
    ///
    /// The engine is not changed: the plan holds the state to take its place
    /// once the commands have been carried out.
    pub fn do_mint_with_requests(
        &self,
        liquid_issuance: Balance,
        minter: &AccountId,
        amount: Balance,
        requests: Vec<AccountId>,
    ) -> (plan: Plan)
        ensures
            plan@ == minted(self@, liquid_issuance, *minter, amount, requests@),
    {
        proof {
            self.lemma_view();
        }
        let ghost rate = self@.rate(liquid_issuance);
        // The amount must exceed the minimum after the mint fee is deducted.
        if amount <= self.config.minimum_mint_threshold.saturating_add(self.config.mint_fee) {
            return Plan {
                commands: Vec::new(),
                verdict: Err(Error::MintAmountBelowMinimumThreshold),
            };
        }
        // The minter must have the funds.
        let mut commands: Vec<Command> = Vec::new();
        commands.push(
            Command::EnsureCanWithdraw { currency: Currency::Staking, who: *minter, amount },
        );

        let total_liquid_to_mint = match self.convert_staking_to_liquid(liquid_issuance, amount) {
            Ok(liquid) => liquid,
            Err(e) => {
                return Plan { commands, verdict: Err(e) };
            },
        };
        let mut matching = Matching {
            liquid_remaining: total_liquid_to_mint,
            commands,
            new_balances: Vec::new(),
            events: Vec::new(),
            failure: None,
        };
        let ghost start = matching@;

        // The requests that the minter named come first.
        let n = requests.len();
        let mut i: usize = 0;
        proof {
            assert(requests@.skip(0) =~= requests@);
        }
        while i < n && matching.liquid_remaining != 0
            invariant
                n == requests@.len(),
                i <= n,
                rate == self@.rate(liquid_issuance),
                amount > capped_sum(self@.config.minimum_mint_threshold, self@.config.mint_fee),
                liquid_for(rate, amount) == Some(total_liquid_to_mint),
                start == opened(*minter, amount, total_liquid_to_mint),
                matching@.failure is None,
                matching@.remaining <= total_liquid_to_mint,
                priority_pass(self@, rate, *minter, requests@, start) == priority_pass(
                    self@,
                    rate,
                    *minter,
                    requests@.skip(i as int),
                    matching@,
                ),
            decreases n - i,
        {
            proof {
                self.lemma_view();
                let rest = requests@.skip(i as int);
                assert(rest.drop_first() =~= requests@.skip(i + 1));
            }
            let redeemer = requests[i];
            match self.redeem_requests.get(&redeemer) {
                Some(request) => {
                    proof {
                        assert(request.who == redeemer) by {
                            crate::book::lemma_index_of(self@.redeem_requests, redeemer);
                        }
                    }
                    match self.match_mint_with_redeem_request(
                        liquid_issuance,
                        minter,
                        &redeemer,
                        request.amount,
                        request.extra_fee,
                        &mut matching,
                    ) {
                        Ok(()) => {},
                        Err(e) => {
                            proof {
                                assert(priority_pass(
                                    self@,
                                    rate,
                                    *minter,
                                    requests@.skip(i + 1),
                                    matching@,
                                ) == matching@);
                            }
                            return Plan { commands: matching.commands, verdict: Err(e) };
                        },
                    }
                },
                None => {},
            }
            i = i + 1;
        }
        let ghost first = matching@;

        // The book is written before the rest of it is matched.
        let book = self.redeem_requests.duplicate().apply(&matching.new_balances);
        matching.new_balances = Vec::new();
        let ghost resumed = matching@;

        // All the other requests follow, as many as the limit allows.
        let m = book.len();
        let mut k: usize = 0;
        let mut redeem_requests_limit_remaining = self.config.maximum_redeem_request_matches_for_mint;
        proof {
            assert(book@.skip(0) =~= book@);
        }
        while k < m && matching.liquid_remaining != 0 && redeem_requests_limit_remaining != 0
            invariant
                m == book@.len(),
                k <= m,
                rate == self@.rate(liquid_issuance),
                amount > capped_sum(self@.config.minimum_mint_threshold, self@.config.mint_fee),
                liquid_for(rate, amount) == Some(total_liquid_to_mint),
                start == opened(*minter, amount, total_liquid_to_mint),
                first == priority_pass(self@, rate, *minter, requests@, start),
                first.failure is None,
                book@ == applied(self@.redeem_requests, first.updates),
                resumed == (Progress { updates: Seq::empty(), ..first }),
                matching@.failure is None,
                matching@.remaining <= total_liquid_to_mint,
                sweep_pass(
                    self@,
                    rate,
                    *minter,
                    book@,
                    self@.config.maximum_redeem_request_matches_for_mint as nat,
                    resumed,
                ) == sweep_pass(
                    self@,
                    rate,
                    *minter,
                    book@.skip(k as int),
                    redeem_requests_limit_remaining as nat,
                    matching@,
                ),
            decreases m - k,
        {
            proof {
                let rest = book@.skip(k as int);
                assert(rest.drop_first() =~= book@.skip(k + 1));
            }
            let request = book.entry(k);
            match self.match_mint_with_redeem_request(
                liquid_issuance,
                minter,
                &request.who,
                request.amount,
                request.extra_fee,
                &mut matching,
            ) {
                Ok(()) => {},
                Err(e) => {
                    proof {
                        assert(sweep_pass(
                            self@,
                            rate,
                            *minter,
                            book@.skip(k + 1),
                            (redeem_requests_limit_remaining - 1) as nat,
                            matching@,
                        ) == matching@);
                    }
                    return Plan { commands: matching.commands, verdict: Err(e) };
                },
            }
            redeem_requests_limit_remaining = redeem_requests_limit_remaining - 1;
            k = k + 1;
        }
        let book = book.apply(&matching.new_balances);

        // Where enough is left over, it is minted by staking on the relay chain.
        proof {
            lemma_staking_round_trip(
                rate,
                self@.config.default_exchange_rate,
                amount,
                matching.liquid_remaining,
            );
        }
        let mut liquid_remaining = matching.liquid_remaining;
        let mut staking_remaining = match self.convert_liquid_to_staking(
            liquid_issuance,
            liquid_remaining,
        ) {
            Ok(staking) => staking,
            Err(e) => {
                return Plan { commands: matching.commands, verdict: Err(e) };
            },
        };
        let mut commands = matching.commands;
        let mut events = matching.events;
        let mut total_staking_currency = self.total_staking_currency;
        if staking_remaining > self.config.minimum_mint_threshold.saturating_add(
            self.config.mint_fee,
        ) {
            // liquid_to_mint = convert_to_liquid( (staked_amount - MintFee) * (1 - MaxRewardPerEra) )
            let after_fee = staking_remaining - self.config.mint_fee;
            let share = Permill::one().saturating_sub(self.config.max_reward_per_era);
            proof {
                self.config.max_reward_per_era.lemma_bounded();
                lemma_permill_of_bounds(share@ as int, after_fee as int);
            }
            let net = share.mul_int(after_fee);
            proof {
                lemma_liquid_round_trip(
                    rate,
                    self@.config.default_exchange_rate,
                    liquid_remaining,
                    net,
                );
            }
            let liquid_to_mint = match self.convert_staking_to_liquid(liquid_issuance, net) {
                Ok(liquid) => liquid,
                Err(e) => {
                    return Plan { commands, verdict: Err(e) };
                },
            };

            // The total amount staked may not exceed the cap.
            let new_total_staking_currency = match self.total_staking_currency.checked_add(
                staking_remaining,
            ) {
                Some(total) => total,
                None => {
                    return Plan { commands, verdict: Err(Error::Overflow) };
                },
            };
            if new_total_staking_currency > self.staking_currency_mint_cap {
                return Plan { commands, verdict: Err(Error::ExceededStakingCurrencyMintCap) };
            }
            total_staking_currency = new_total_staking_currency;

            // All checks pass: the remainder crosses to the relay chain, and
            // the liquid currency is issued to the minter.
            commands.push(
                Command::CrossChainTransfer {
                    who: *minter,
                    amount: staking_remaining,
                    dest_weight: self.xcm_dest_weight,
                },
            );
            commands.push(
                Command::Deposit { currency: Currency::Liquid, who: *minter, amount: liquid_to_mint },
            );

            staking_remaining = 0;
            liquid_remaining = liquid_remaining - liquid_to_mint;
        }
        let actual_staked = amount - staking_remaining;
        let actual_liquid = total_liquid_to_mint - liquid_remaining;
        events.push(Event::Minted(*minter, actual_staked, actual_liquid));

        let state = self.succeeded_by(book, total_staking_currency);
        Plan { commands, verdict: Ok(Committed { state, events }) }
    }

    /// Plans a mint of liquid currency for `amount` of the minter's staking
    /// currency. Redeem requests are matched where there are any; the rest is
    /// staked on the relay chain, at the cost of the mint fee and of the era's
    /// largest reward.
    pub fn mint(&self, liquid_issuance: Balance, minter: &AccountId, amount: Balance) -> (plan: Plan)
        ensures
            plan@ == minted(self@, liquid_issuance, *minter, amount, Seq::empty()),
    {
        self.do_mint_with_requests(liquid_issuance, minter, amount, Vec::new())
    }

    /// Plans a mint as `mint` does, with the redeem requests of the accounts
    /// in `requests` matched before all others.
    pub fn mint_for_requests(
        &self,
        liquid_issuance: Balance,
        minter: &AccountId,
        amount: Balance,
        requests: Vec<AccountId>,
    ) -> (plan: Plan)
        ensures
            plan@ == minted(self@, liquid_issuance, *minter, amount, requests@),
    {
        self.do_mint_with_requests(liquid_issuance, minter, amount, requests)
    }
}

} // verus!
