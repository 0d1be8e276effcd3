//! Redeem requests: how an account enters the redemption book and leaves it.

use crate::book::{recorded, request_of, without};
use crate::fixed::{Balance, Permill};
use crate::matching::least;
use crate::pallet::{Pallet, State};
use crate::plan::{Committed, Outline, Plan};
use crate::rate::liquid_for;
use crate::types::{AccountId, Command, Currency, Error, Event, RedeemRequest};
use vstd::prelude::*;

verus! {

/// A plan that asks nothing and changes nothing.
pub open spec fn idle(s: State) -> Outline {
    Outline { commands: Seq::empty(), verdict: Ok((s, Seq::empty())) }
}

/// The plan of a request by `who` to redeem `liquid_amount`.
///
/// An amount of zero cancels: the escrow of the account's request is released
/// and the request leaves the book; without a request nothing happens. Another
/// amount is capped at the liquid value of the staking currency that is
/// available, put in escrow, and written over any earlier request of the
/// account; where the cap is zero nothing happens.
pub open spec fn redeem_requested(
    s: State,
    liquid_issuance: Balance,
    who: AccountId,
    liquid_amount: Balance,
    additional_fee: Permill,
) -> Outline {
    if liquid_amount == 0 {
        match request_of(s.redeem_requests, who) {
            Some(request) => Outline {
                commands: seq![
                    Command::Unreserve { currency: Currency::Liquid, who, amount: request.amount },
                ],
                verdict: Ok(
                    (
                        State { redeem_requests: without(s.redeem_requests, who), ..s },
                        seq![Event::RedeemRequestCancelled(who, request.amount)],
                    ),
                ),
            },
            None => idle(s),
        }
    } else {
        match liquid_for(s.rate(liquid_issuance), s.available_staking_balance) {
            None => Outline { commands: Seq::empty(), verdict: Err(Error::Overflow) },
            Some(redeemable) => {
                let actual = least(liquid_amount, redeemable);
                if actual == 0 {
                    idle(s)
                } else {
                    Outline {
                        commands: seq![
                            Command::Reserve { currency: Currency::Liquid, who, amount: actual },
                        ],
                        verdict: Ok(
                            (
                                State {
                                    redeem_requests: recorded(
                                        s.redeem_requests,
                                        RedeemRequest { who, amount: actual, extra_fee: additional_fee },
                                    ),
                                    ..s
                                },
                                seq![Event::RedeemRequested(who, actual)],
                            ),
                        ),
                    }
                }
            },
        }
    }
}

impl Pallet {
    /// Plans a request to redeem liquid currency for staking currency, or,
    /// with an amount of zero, the cancellation of the account's request.
    ///
    /// The engine is not changed: the plan holds the state to take its place
    /// once the commands have been carried out.
    pub fn request_redeem(
        &self,
        liquid_issuance: Balance,
        who: &AccountId,
        liquid_amount: Balance,
        additional_fee: Permill,
    ) -> (plan: Plan)
        ensures
            plan@ == redeem_requested(self@, liquid_issuance, *who, liquid_amount, additional_fee),
    {
        proof {
            self.lemma_view();
        }
        let mut commands: Vec<Command> = Vec::new();
        let mut events: Vec<Event> = Vec::new();
        let mut book = self.redeem_requests.duplicate();
        if liquid_amount == 0 {
            // An amount of zero cancels the earlier request.
            match book.get(who) {
                Some(request) => {
                    commands.push(
                        Command::Unreserve {
                            currency: Currency::Liquid,
                            who: *who,
                            amount: request.amount,
                        },
                    );
                    events.push(Event::RedeemRequestCancelled(*who, request.amount));
                    book = book.record(
                        RedeemRequest { who: *who, amount: 0, extra_fee: additional_fee },
                    );
                },
                None => {},
            }
        } else {
            // The request replaces the one in the book, if there is one.
            let redeemable = match self.convert_staking_to_liquid(
                liquid_issuance,
                self.available_staking_balance,
            ) {
                Ok(liquid) => liquid,
                Err(e) => {
                    return Plan { commands, verdict: Err(e) };
                },
            };
            let actual_redeem_amount = if liquid_amount <= redeemable {
                liquid_amount
            } else {
                redeemable
            };
            if actual_redeem_amount != 0 {
                commands.push(
                    Command::Reserve {
                        currency: Currency::Liquid,
                        who: *who,
                        amount: actual_redeem_amount,
                    },
                );
                events.push(Event::RedeemRequested(*who, actual_redeem_amount));
                book = book.record(
                    RedeemRequest {
                        who: *who,
                        amount: actual_redeem_amount,
                        extra_fee: additional_fee,
                    },
                );
            }
        }
        let state = self.succeeded_by(book, self.total_staking_currency);
        Plan { commands, verdict: Ok(Committed { state, events }) }
    }
}

} // verus!
