//! The match engine: one mint against one redeem request.

use crate::fixed::{permill_of, Balance, Permill, Ratio, PERMILL_MAX};
use crate::pallet::{Config, Pallet};
use crate::rate::staking_for;
use crate::types::{AccountId, Command, Currency, Error, Event, RedeemRequest};
use vstd::prelude::*;

verus! {

/// How far the matching of one mint has come.
pub struct Progress {
    /// The liquid amount that the mint has yet to find.
    pub remaining: Balance,
    /// The commands issued so far.
    pub commands: Seq<Command>,
    /// The new balances of the requests matched since the book was last written.
    pub updates: Seq<RedeemRequest>,
    /// The events recorded so far.
    pub events: Seq<Event>,
    /// Why matching stopped, if it did.
    pub failure: Option<Error>,
}

/// How far the matching of one mint has come.
#[derive(Debug)]
pub struct Matching {
    /// The liquid amount that the mint has yet to find.
    pub liquid_remaining: Balance,
    /// The commands issued so far.
    pub commands: Vec<Command>,
    /// The new balances of the requests matched since the book was last written.
    pub new_balances: Vec<RedeemRequest>,
    /// The events recorded so far.
    pub events: Vec<Event>,
    /// Why matching stopped, if it did.
    pub failure: Option<Error>,
}

impl View for Matching {
    type V = Progress;

    open spec fn view(&self) -> Progress {
        Progress {
            remaining: self.liquid_remaining,
            commands: self.commands@,
            updates: self.new_balances@,
            events: self.events@,
            failure: self.failure,
        }
    }
}

/// The smaller of two amounts.
pub open spec fn least(a: Balance, b: Balance) -> Balance {
    if a <= b {
        a
    } else {
        b
    }
}

/// The millionths of the converted amount that a matched redeemer is paid:
/// the whole, less the base fee, less the fee it offered, and never less than
/// nothing.
pub open spec fn payout_share(base_fee: Permill, extra_fee: Permill) -> int {
    let after_base = PERMILL_MAX - base_fee@;
    if after_base >= extra_fee@ {
        after_base - extra_fee@
    } else {
        0
    }
}

/// Matching after `request` was matched against what the mint has yet to find.
///
/// The fill is the smaller of the request and the remainder. The fill leaves
/// the redeemer's escrow for the minter in full. The minter pays the redeemer
/// the staking value of the fill, less the fees. The request's new balance is
/// noted for the book. Where the staking value leaves the numeric range,
/// matching fails after the escrow was called upon.
pub open spec fn matched(
    config: Config,
    rate: Ratio,
    minter: AccountId,
    request: RedeemRequest,
    p: Progress,
) -> Progress {
    let fill = least(request.amount, p.remaining);
    let repatriate = Command::RepatriateReserved {
        currency: Currency::Liquid,
        from: request.who,
        to: minter,
        amount: fill,
    };
    match staking_for(rate, config.default_exchange_rate, fill) {
        None => Progress {
            remaining: (p.remaining - fill) as Balance,
            commands: p.commands.push(repatriate),
            failure: Some(Error::Overflow),
            ..p
        },
        Some(staking) => {
            let paid = permill_of(
                payout_share(config.base_withdraw_fee, request.extra_fee),
                staking as int,
            ) as Balance;
            Progress {
                remaining: (p.remaining - fill) as Balance,
                commands: p.commands.push(repatriate).push(
                    Command::Transfer {
                        currency: Currency::Staking,
                        from: minter,
                        to: request.who,
                        amount: paid,
                    },
                ),
                updates: p.updates.push(
                    RedeemRequest {
                        who: request.who,
                        amount: (request.amount - fill) as Balance,
                        extra_fee: request.extra_fee,
                    },
                ),
                events: p.events.push(Event::Redeemed(request.who, paid, fill)),
                failure: None,
            }
        },
    }
}

impl Pallet {
    /// Matches a redeem request with a mint request, redeeming as much as
    /// possible: the redeemer gives the liquid amount in full from its escrow,
    /// and the minter pays its staking value, less the fees.
    ///
    /// The book is not written: the request's new balance is noted in
    /// `matching`, to be written once the pass is over.
    pub fn match_mint_with_redeem_request(
        &self,
        liquid_issuance: Balance,
        minter: &AccountId,
        redeemer: &AccountId,
        request_amount: Balance,
        request_extra_fee: Permill,
        matching: &mut Matching,
    ) -> (r: Result<(), Error>)
        ensures
            final(matching)@ == matched(
                self@.config,
                self@.rate(liquid_issuance),
                *minter,
                RedeemRequest { who: *redeemer, amount: request_amount, extra_fee: request_extra_fee },
                old(matching)@,
            ),
            r == match final(matching).failure {
                Some(e) => Err::<(), Error>(e),
                None => Ok::<(), Error>(()),
            },
    {
        let liquid_amount_can_be_redeemed = if request_amount <= matching.liquid_remaining {
            request_amount
        } else {
            matching.liquid_remaining
        };
        let new_amount = request_amount - liquid_amount_can_be_redeemed;
        matching.liquid_remaining = matching.liquid_remaining - liquid_amount_can_be_redeemed;

        // The liquid amount goes to the minter in full.
        matching.commands.push(
            Command::RepatriateReserved {
                currency: Currency::Liquid,
                from: *redeemer,
                to: *minter,
                amount: liquid_amount_can_be_redeemed,
            },
        );

        // The fees are taken from the staking amount that is paid in return.
        let staking_amount = match self.convert_liquid_to_staking(
            liquid_issuance,
            liquid_amount_can_be_redeemed,
        ) {
            Ok(staking) => staking,
            Err(e) => {
                matching.failure = Some(e);
                return Err(e);
            },
        };
        let fee_deducted_percentage = Permill::one().saturating_sub(
            self.config.base_withdraw_fee,
        ).saturating_sub(request_extra_fee);
        proof {
            self.lemma_view();
        }
        let staking_amount = fee_deducted_percentage.mul_int(staking_amount);

        matching.commands.push(
            Command::Transfer {
                currency: Currency::Staking,
                from: *minter,
                to: *redeemer,
                amount: staking_amount,
            },
        );
        matching.new_balances.push(
            RedeemRequest { who: *redeemer, amount: new_amount, extra_fee: request_extra_fee },
        );
        matching.events.push(
            Event::Redeemed(*redeemer, staking_amount, liquid_amount_can_be_redeemed),
        );
        matching.failure = None;
        Ok(())
    }
}

} // verus!
