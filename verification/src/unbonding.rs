//! The schedule of unbondings, and how it is settled when the chain is idle.

use crate::fixed::Balance;
use crate::pallet::{Pallet, Relaychain, State};
use crate::relaychain::{
    balances_index, compact_bytes, le_bytes, staking_index, utility_index, OriginKind,
    RelaychainCallBuilder, Transact,
};
use crate::types::{AccountId, BlockNumber, Error, Event, Outcome, Weight};
use vstd::prelude::*;

verus! {

/// The encoded call that releases the unbonded funds and transfers `amount`
/// of them to `account`, both or neither: a batch of two calls.
pub open spec fn unreserve_call(chain: Relaychain, spans: u32, account: AccountId, amount: Balance) -> Seq<
    u8,
> {
    seq![utility_index(chain), 2u8] + compact_bytes(2) + (seq![staking_index(chain), 3u8] + le_bytes(
        spans as nat,
        4,
    )) + (seq![balances_index(chain), 3u8, 0u8] + account.0@ + compact_bytes(amount as nat))
}

/// Whether the oldest unbonding is to be settled now: the budget exceeds what
/// settling takes, the schedule is not empty, and its oldest entry has matured.
pub open spec fn unbonding_due(s: State, relay_block: BlockNumber, remaining_weight: Weight) -> bool {
    &&& remaining_weight > s.config.on_idle_weight
    &&& s.scheduled_unbound.len() > 0
    &&& relay_block >= s.scheduled_unbound[0].1
}

/// The state after the oldest unbonding was settled: it has left the schedule,
/// and its amount is available.
pub open spec fn unbonded(s: State) -> State {
    State {
        scheduled_unbound: s.scheduled_unbound.drop_first(),
        available_staking_balance: (s.available_staking_balance + s.scheduled_unbound[0].0) as Balance,
        ..s
    }
}

/// The state after an idle slot: the oldest unbonding is settled where that is
/// due and the relay chain carried the instruction out in full, and nothing
/// has changed otherwise.
pub open spec fn idled(s: State, relay_block: BlockNumber, remaining_weight: Weight, outcome: Outcome) -> State {
    if unbonding_due(s, relay_block, remaining_weight) && outcome == Outcome::Complete {
        unbonded(s)
    } else {
        s
    }
}

/// The state after the schedule grew by an unbonding, which is its newest.
pub open spec fn scheduled(s: State, staking_amount: Balance, unbound_block: BlockNumber) -> State {
    State { scheduled_unbound: s.scheduled_unbound.push((staking_amount, unbound_block)), ..s }
}

impl Pallet {
    /// Adds an unbonding to the schedule, behind those that are there.
    pub fn schedule_unbound(&mut self, staking_amount: Balance, unbound_block: BlockNumber) -> (r:
        Result<Event, Error>)
        ensures
            r == Ok::<Event, Error>(Event::ScheduledUnboundAdded(staking_amount, unbound_block)),
            final(self)@ == scheduled(old(self)@, staking_amount, unbound_block),
    {
        proof {
            self.lemma_view();
        }
        self.scheduled_unbound.push((staking_amount, unbound_block));
        proof {
            self.lemma_view();
        }
        Ok(Event::ScheduledUnboundAdded(staking_amount, unbound_block))
    }

    /// Replaces the schedule as a whole, to mend a mistaken entry or to
    /// follow what happened on the relay chain.
    pub fn replace_schedule_unbound(&mut self, new_unbounds: Vec<(Balance, BlockNumber)>) -> (r:
        Result<Event, Error>)
        ensures
            r == Ok::<Event, Error>(Event::ScheduledUnboundReplaced),
            final(self)@ == (State { scheduled_unbound: new_unbounds@, ..old(self)@ }),
    {
        proof {
            self.lemma_view();
        }
        self.scheduled_unbound = new_unbounds;
        proof {
            self.lemma_view();
        }
        Ok(Event::ScheduledUnboundReplaced)
    }

    /// The instruction that has the relay chain release the unbonded funds
    /// and transfer `amount` of them to `parachain_account`, from the
    /// sovereign account and within `weight_limit`.
    pub fn construct_xcm_unreserve_message(
        &self,
        parachain_account: AccountId,
        amount: Balance,
        weight_limit: Weight,
    ) -> (r: Transact)
        ensures
            r.origin_type == OriginKind::SovereignAccount,
            r.require_weight_at_most == weight_limit,
            r.call@ == unreserve_call(
                self@.config.relaychain,
                self@.config.relaychain_unbounding_slashing_spans,
                parachain_account,
                amount,
            ),
    {
        proof {
            self.lemma_view();
        }
        let mut calls = Vec::new();
        calls.push(
            RelaychainCallBuilder::staking_withdraw_unbonded(
                self.config.relaychain_unbounding_slashing_spans,
            ),
        );
        calls.push(RelaychainCallBuilder::balances_transfer_keep_alive(parachain_account, amount));
        let ghost items = calls@;
        let xcm_message = RelaychainCallBuilder::utility_batch_call(calls);
        proof {
            let chain = self@.config.relaychain;
            crate::relaychain::lemma_pair(chain, items);
        }
        Transact {
            origin_type: OriginKind::SovereignAccount,
            require_weight_at_most: weight_limit,
            call: xcm_message.encode(self.config.relaychain),
        }
    }

    /// The instruction to send to the relay chain now, if the oldest
    /// unbonding is to be settled: it asks for exactly that entry's amount.
    pub fn due_unbound(&self, relay_block: BlockNumber, remaining_weight: Weight) -> (r: Option<
        Transact,
    >)
        ensures
            unbonding_due(self@, relay_block, remaining_weight) <==> r is Some,
            r matches Some(message) ==> {
                &&& message.origin_type == OriginKind::SovereignAccount
                &&& message.require_weight_at_most == self@.config.on_idle_weight
                &&& message.call@ == unreserve_call(
                    self@.config.relaychain,
                    self@.config.relaychain_unbounding_slashing_spans,
                    self@.config.parachain_account,
                    self@.scheduled_unbound[0].0,
                )
            },
    {
        proof {
            self.lemma_view();
        }
        let required_weight = self.config.on_idle_weight;
        if remaining_weight > required_weight {
            if self.scheduled_unbound.len() == 0 {
                return None;
            }
            let (staking_amount, block_number) = self.scheduled_unbound[0];
            if relay_block >= block_number {
                return Some(
                    self.construct_xcm_unreserve_message(
                        self.config.parachain_account,
                        staking_amount,
                        required_weight,
                    ),
                );
            }
        }
        None
    }

    /// Settles the oldest unbonding where that is due and the relay chain
    /// carried the instruction of `due_unbound` out in full; returns the
    /// budget that was used.
    ///
    /// Where nothing is due, `outcome` is not looked at. Where the relay chain
    /// did not carry the instruction out in full, the entry stays in place for
    /// a later attempt.
    pub fn on_idle(&mut self, relay_block: BlockNumber, remaining_weight: Weight, outcome: Outcome) -> (r:
        Weight)
        requires
            unbonding_due(old(self)@, relay_block, remaining_weight) && outcome == Outcome::Complete
                ==> old(self)@.available_staking_balance + old(self)@.scheduled_unbound[0].0
                <= u128::MAX,
        ensures
            final(self)@ == idled(old(self)@, relay_block, remaining_weight, outcome),
            r == if unbonding_due(old(self)@, relay_block, remaining_weight) && outcome
                == Outcome::Complete {
                old(self)@.config.on_idle_weight
            } else {
                0
            },
    {
        proof {
            self.lemma_view();
        }
        let required_weight = self.config.on_idle_weight;
        let mut current_weight: Weight = 0;
        if remaining_weight > required_weight {
            if self.scheduled_unbound.len() == 0 {
                return 0;
            }
            let (staking_amount, block_number) = self.scheduled_unbound[0];
            if relay_block >= block_number {
                if outcome == Outcome::Complete {
                    self.scheduled_unbound.remove(0);
                    self.available_staking_balance = self.available_staking_balance + staking_amount;
                    current_weight = required_weight;
                    proof {
                        self.lemma_view();
                    }
                }
            }
        }
        current_weight
    }
}

} // verus!
