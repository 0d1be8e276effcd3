//! Conservation: the engine moves currency between accounts, and issues it
//! only against staking currency that crosses to the relay chain.

use crate::fixed::{Balance, Permill, Ratio};
use crate::ledger::{covers, lemma_run_conserves, Ledger};
use crate::matching::{matched, Progress};
use crate::mint::{minted, priority_pass, sweep_pass};
use crate::pallet::State;
use crate::rate::{lemma_permill_of_bounds, lemma_scaled_monotone, liquid_for};
use crate::redeem::redeem_requested;
use crate::types::{AccountId, Command, Currency, RedeemRequest};
use vstd::prelude::*;

verus! {

/// Whether a command moves currency and neither issues it nor sends it
/// across chains.
pub open spec fn is_move(command: Command) -> bool {
    !(command is Deposit) && !(command is CrossChainTransfer)
}

/// Whether each of `commands` moves currency.
pub open spec fn moves_only(commands: Seq<Command>) -> bool {
    forall|i: int| 0 <= i < commands.len() ==> is_move(#[trigger] commands[i])
}

/// The pass over the named accounts only moves currency.
proof fn lemma_priority_pass_moves(
    s: State,
    rate: Ratio,
    minter: AccountId,
    requests: Seq<AccountId>,
    p: Progress,
)
    requires
        moves_only(p.commands),
    ensures
        moves_only(priority_pass(s, rate, minter, requests, p).commands),
    decreases requests.len(),
{
    if !(requests.len() == 0 || p.failure is Some || p.remaining == 0) {
        match crate::book::request_of(s.redeem_requests, requests.first()) {
            Some(request) => {
                lemma_priority_pass_moves(
                    s,
                    rate,
                    minter,
                    requests.drop_first(),
                    matched(s.config, rate, minter, request, p),
                );
            },
            None => {
                lemma_priority_pass_moves(s, rate, minter, requests.drop_first(), p);
            },
        }
    }
}

/// The pass over the book only moves currency.
proof fn lemma_sweep_pass_moves(
    s: State,
    rate: Ratio,
    minter: AccountId,
    entries: Seq<RedeemRequest>,
    limit: nat,
    p: Progress,
)
    requires
        moves_only(p.commands),
    ensures
        moves_only(sweep_pass(s, rate, minter, entries, limit, p).commands),
    decreases entries.len(),
{
    if !(entries.len() == 0 || p.failure is Some || p.remaining == 0 || limit == 0) {
        lemma_sweep_pass_moves(
            s,
            rate,
            minter,
            entries.drop_first(),
            (limit - 1) as nat,
            matched(s.config, rate, minter, entries.first(), p),
        );
    }
}

/// A mint creates liquid currency only against staking currency that it
/// sends to the relay chain, and never more than that is worth.
///
/// The commands of a mint move currency, all of them or all but the last two.
/// Those two send an amount of the minter's staking currency across and issue
/// liquid currency to the minter, at most the liquid value of that amount; the
/// staked total grows by exactly the amount. A mint that sends nothing across
/// leaves the staked total as it was.
pub proof fn lemma_mint_issues_against_staking(
    s: State,
    liquid_issuance: Balance,
    minter: AccountId,
    amount: Balance,
    requests: Seq<AccountId>,
)
    ensures
        ({
            let plan = minted(s, liquid_issuance, minter, amount, requests);
            let n = plan.commands.len() as int;
            ||| moves_only(plan.commands) && (plan.verdict matches Ok((next, _))
                ==> next.total_staking_currency == s.total_staking_currency)
            ||| {
                &&& n >= 2
                &&& moves_only(plan.commands.take(n - 2))
                &&& plan.verdict matches Ok((next, _))
                &&& plan.commands[n - 2] matches Command::CrossChainTransfer {
                    who,
                    amount: sent,
                    dest_weight,
                }
                &&& plan.commands[n - 1] matches Command::Deposit {
                    currency: Currency::Liquid,
                    who: to,
                    amount: issued,
                }
                &&& who == minter
                &&& to == minter
                &&& dest_weight == s.xcm_dest_weight
                &&& next.total_staking_currency == s.total_staking_currency + sent
                &&& liquid_for(s.rate(liquid_issuance), sent) matches Some(worth)
                &&& issued <= worth
            }
        }),
{
    let rate = s.rate(liquid_issuance);
    let c = s.config;
    let check = Command::EnsureCanWithdraw { currency: Currency::Staking, who: minter, amount };
    if amount > crate::mint::capped_sum(c.minimum_mint_threshold, c.mint_fee) && liquid_for(
        rate,
        amount,
    ) is Some {
        let total_liquid = liquid_for(rate, amount).unwrap();
        let start = Progress {
            remaining: total_liquid,
            commands: seq![check],
            updates: Seq::empty(),
            events: Seq::empty(),
            failure: None,
        };
        let first = priority_pass(s, rate, minter, requests, start);
        let book = crate::book::applied(s.redeem_requests, first.updates);
        let resumed = Progress { updates: Seq::empty(), ..first };
        let second = sweep_pass(
            s,
            rate,
            minter,
            book,
            c.maximum_redeem_request_matches_for_mint as nat,
            resumed,
        );
        lemma_priority_pass_moves(s, rate, minter, requests, start);
        lemma_sweep_pass_moves(
            s,
            rate,
            minter,
            book,
            c.maximum_redeem_request_matches_for_mint as nat,
            resumed,
        );
        if first.failure is None && second.failure is None {
            let fallback = c.default_exchange_rate;
            let back = crate::rate::staking_for(rate, fallback, second.remaining);
            if back is Some && back.unwrap() > crate::mint::capped_sum(
                c.minimum_mint_threshold,
                c.mint_fee,
            ) {
                // What is issued is the worth of less than what is sent.
                let sent = back.unwrap();
                let share = crate::fixed::PERMILL_MAX - c.max_reward_per_era@;
                c.max_reward_per_era.lemma_bounded();
                lemma_permill_of_bounds(share, sent - c.mint_fee);
                let net = crate::fixed::permill_of(share, sent - c.mint_fee) as Balance;
                crate::rate::lemma_liquid_round_trip(rate, fallback, second.remaining, sent);
                lemma_scaled_monotone(rate.inner as int, net as int, sent as int);
            }
        }
    }
}

/// A redeem request creates no currency: it has the ledger set the liquid
/// amount aside, or release it, and nothing else.
pub proof fn lemma_redeem_moves(
    s: State,
    liquid_issuance: Balance,
    who: AccountId,
    liquid_amount: Balance,
    additional_fee: Permill,
)
    ensures
        moves_only(redeem_requested(s, liquid_issuance, who, liquid_amount, additional_fee).commands),
{
}

/// Commands that move currency leave what is in issue as it was.
pub proof fn lemma_moves_keep_issuance(ledger: Ledger, commands: Seq<Command>, currency: Currency)
    requires
        moves_only(commands),
        ledger.run(commands) is Some,
    ensures
        ledger.run(commands).unwrap().issued(currency) == ledger.issued(currency),
    decreases commands.len(),
{
    if commands.len() > 0 {
        let rest = commands.drop_last();
        lemma_moves_keep_issuance(ledger, rest, currency);
    }
}

/// A mint conserves both currencies. Where the ledger carried the commands
/// of a mint out, what the accounts hold of a currency differs from what is
/// in issue of it by as much as before: where the holdings made up the
/// issuance, they still do.
pub proof fn lemma_mint_conserves(
    s: State,
    liquid_issuance: Balance,
    minter: AccountId,
    amount: Balance,
    requests: Seq<AccountId>,
    ledger: Ledger,
    currency: Currency,
    accounts: Seq<AccountId>,
)
    requires
        covers(accounts, minted(s, liquid_issuance, minter, amount, requests).commands),
        ledger.run(minted(s, liquid_issuance, minter, amount, requests).commands) is Some,
    ensures
        ledger.run(
            minted(s, liquid_issuance, minter, amount, requests).commands,
        ).unwrap().unaccounted(currency, accounts) == ledger.unaccounted(currency, accounts),
{
    lemma_run_conserves(
        ledger,
        minted(s, liquid_issuance, minter, amount, requests).commands,
        currency,
        accounts,
    );
}

/// A redeem request conserves both currencies, and leaves what is in issue
/// of them as it was.
pub proof fn lemma_redeem_conserves(
    s: State,
    liquid_issuance: Balance,
    who: AccountId,
    liquid_amount: Balance,
    additional_fee: Permill,
    ledger: Ledger,
    currency: Currency,
    accounts: Seq<AccountId>,
)
    requires
        covers(
            accounts,
            redeem_requested(s, liquid_issuance, who, liquid_amount, additional_fee).commands,
        ),
        ledger.run(
            redeem_requested(s, liquid_issuance, who, liquid_amount, additional_fee).commands,
        ) is Some,
    ensures
        ({
            let after = ledger.run(
                redeem_requested(s, liquid_issuance, who, liquid_amount, additional_fee).commands,
            ).unwrap();
            &&& after.unaccounted(currency, accounts) == ledger.unaccounted(currency, accounts)
            &&& after.issued(currency) == ledger.issued(currency)
        }),
{
    let commands = redeem_requested(s, liquid_issuance, who, liquid_amount, additional_fee).commands;
    lemma_run_conserves(ledger, commands, currency, accounts);
    if commands.len() > 0 {
        crate::ledger::lemma_run_push(ledger, Seq::empty(), commands[0]);
    }
}

} // verus!
