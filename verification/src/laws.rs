//! What holds of the engine whatever it is asked to do.

use crate::book::{lemma_index_of, request_of, well_formed, without};
use crate::fixed::{Balance, Permill};
use crate::mint::minted;
use crate::pallet::State;
use crate::redeem::{idle, redeem_requested};
use crate::types::{AccountId, BlockNumber, Outcome, Weight};
use crate::unbonding::{idled, scheduled};
use vstd::prelude::*;

verus! {

/// The cap outlasts a mint: after a mint that went through, the staked total
/// is within the cap exactly where it was before, and the cap is the same.
/// A mint whose remainder would take the total past the cap is rejected, so
/// it leaves no new state.
pub proof fn lemma_mint_respects_cap(
    s: State,
    liquid_issuance: Balance,
    minter: AccountId,
    amount: Balance,
    requests: Seq<AccountId>,
)
    ensures
        minted(s, liquid_issuance, minter, amount, requests).verdict matches Ok((next, _)) ==> {
            &&& next.staking_currency_mint_cap == s.staking_currency_mint_cap
            &&& next.total_staking_currency >= s.total_staking_currency
            &&& (next.total_staking_currency <= next.staking_currency_mint_cap
                <==> s.total_staking_currency <= s.staking_currency_mint_cap)
        },
{
}

/// Cancelling without a request is no operation: nothing is asked of the
/// ledger, nothing is recorded, and the state is the same. So it is after a
/// cancellation, for the account has no request then.
pub proof fn lemma_cancel_without_request(
    s: State,
    liquid_issuance: Balance,
    who: AccountId,
    additional_fee: Permill,
)
    ensures
        request_of(s.redeem_requests, who) is None ==> redeem_requested(
            s,
            liquid_issuance,
            who,
            0,
            additional_fee,
        ) == idle(s),
        well_formed(s.redeem_requests) ==> request_of(without(s.redeem_requests, who), who) is None,
{
    if well_formed(s.redeem_requests) {
        let book = s.redeem_requests;
        let rest = without(book, who);
        lemma_index_of(book, who);
        lemma_index_of(rest, who);
    }
}

/// The schedule is settled in the order in which it was filled. An idle slot
/// takes away the oldest entry or none, and the oldest only once it has
/// matured; what stays keeps its order. An entry that is added stands behind
/// all others, so it is still there after the slot where any other was.
pub proof fn lemma_first_in_first_out(
    s: State,
    relay_block: BlockNumber,
    remaining_weight: Weight,
    outcome: Outcome,
    staking_amount: Balance,
    unbound_block: BlockNumber,
)
    ensures
        ({
            let before = s.scheduled_unbound;
            let after = idled(s, relay_block, remaining_weight, outcome).scheduled_unbound;
            ||| after == before
            ||| before.len() > 0 && after == before.drop_first() && before[0].1 <= relay_block
        }),
        ({
            let grown = scheduled(s, staking_amount, unbound_block);
            let after = idled(grown, relay_block, remaining_weight, outcome).scheduled_unbound;
            &&& grown.scheduled_unbound.take(s.scheduled_unbound.len() as int)
                == s.scheduled_unbound
            &&& grown.scheduled_unbound.last() == (staking_amount, unbound_block)
            &&& s.scheduled_unbound.len() > 0 ==> after.len() > 0 && after.last() == (
                staking_amount,
                unbound_block,
            )
        }),
{
}

/// What is done to the schedule: an unbonding is added, or an idle slot passes.
pub enum Step {
    /// An unbonding of an amount is added, to mature at a block.
    Scheduled(Balance, BlockNumber),
    /// An idle slot passes at a block of the relay chain, with a budget, and
    /// with an answer of the relay chain should it be asked.
    Idled(BlockNumber, Weight, Outcome),
}

/// The state after a step.
pub open spec fn stepped(s: State, step: Step) -> State {
    match step {
        Step::Scheduled(staking_amount, unbound_block) => scheduled(s, staking_amount, unbound_block),
        Step::Idled(relay_block, remaining_weight, outcome) => idled(
            s,
            relay_block,
            remaining_weight,
            outcome,
        ),
    }
}

/// The state after a run of steps.
pub open spec fn after_steps(s: State, steps: Seq<Step>) -> State
    decreases steps.len(),
{
    if steps.len() == 0 {
        s
    } else {
        stepped(after_steps(s, steps.drop_last()), steps.last())
    }
}

/// The unbondings that a run of steps adds, in the order of the steps.
pub open spec fn added_by(steps: Seq<Step>) -> Seq<(Balance, BlockNumber)>
    decreases steps.len(),
{
    if steps.len() == 0 {
        Seq::empty()
    } else {
        match steps.last() {
            Step::Scheduled(staking_amount, unbound_block) => added_by(steps.drop_last()).push(
                (staking_amount, unbound_block),
            ),
            Step::Idled(..) => added_by(steps.drop_last()),
        }
    }
}

/// The unbondings that a run of steps settles, in the order of the steps.
pub open spec fn settled_by(s: State, steps: Seq<Step>) -> Seq<(Balance, BlockNumber)>
    decreases steps.len(),
{
    if steps.len() == 0 {
        Seq::empty()
    } else {
        let before = after_steps(s, steps.drop_last());
        match steps.last() {
            Step::Idled(relay_block, remaining_weight, outcome) => if crate::unbonding::unbonding_due(
                before,
                relay_block,
                remaining_weight,
            ) && outcome == Outcome::Complete {
                settled_by(s, steps.drop_last()).push(before.scheduled_unbound[0])
            } else {
                settled_by(s, steps.drop_last())
            },
            Step::Scheduled(..) => settled_by(s, steps.drop_last()),
        }
    }
}

/// The schedule is a queue. After any run of steps, what was scheduled at
/// the start, then what the steps added, is what the steps settled, then what
/// is scheduled still: unbondings are settled in the order in which they
/// were added, each one once and none out of turn.
pub proof fn lemma_schedule_is_a_queue(s: State, steps: Seq<Step>)
    ensures
        s.scheduled_unbound + added_by(steps) == settled_by(s, steps) + after_steps(
            s,
            steps,
        ).scheduled_unbound,
    decreases steps.len(),
{
    if steps.len() == 0 {
        assert(s.scheduled_unbound + added_by(steps) =~= settled_by(s, steps) + s.scheduled_unbound);
    } else {
        let earlier = steps.drop_last();
        let before = after_steps(s, earlier);
        lemma_schedule_is_a_queue(s, earlier);
        let settled = settled_by(s, earlier);
        let waiting = before.scheduled_unbound;
        let after = after_steps(s, steps).scheduled_unbound;
        match steps.last() {
            Step::Scheduled(staking_amount, unbound_block) => {
                let entry = (staking_amount, unbound_block);
                assert(s.scheduled_unbound + added_by(earlier).push(entry) =~= (s.scheduled_unbound
                    + added_by(earlier)).push(entry));
                assert((settled + waiting).push(entry) =~= settled + waiting.push(entry));
            },
            Step::Idled(relay_block, remaining_weight, outcome) => {
                if crate::unbonding::unbonding_due(before, relay_block, remaining_weight) && outcome
                    == Outcome::Complete {
                    assert(settled.push(waiting[0]) + waiting.drop_first() =~= settled + waiting);
                }
            },
        }
    }
}

} // verus!
