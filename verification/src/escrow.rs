//! Escrow: every request in the book is covered by what its account holds in
//! reserve, whatever the engine plans.

use crate::book::{
    applied, lemma_applied_push, lemma_applied_well_formed, lemma_index_of, lemma_request_of_entry,
    lemma_request_of_recorded, request_of, well_formed, without,
};
use crate::fixed::{Balance, Permill, Ratio};
use crate::ledger::{lemma_run_push, Ledger};
use crate::matching::{matched, Progress};
use crate::mint::{minted, named_pass, opened, priority_pass, sweep_pass};
use crate::pallet::State;
use crate::redeem::redeem_requested;
use crate::types::{AccountId, Command, Currency, RedeemRequest};
use vstd::prelude::*;

verus! {

/// Whether each request in `book` is covered by the liquid currency that its
/// account holds in reserve.
pub open spec fn escrow_covers(ledger: Ledger, book: Seq<RedeemRequest>) -> bool {
    forall|who: AccountId| #[trigger]
        request_of(book, who) matches Some(request) ==> ledger.reserved_of(Currency::Liquid, who)
            >= request.amount
}

/// Whether the escrow covers the book as it will be written, once the
/// commands issued so far have been carried out.
pub open spec fn covered_so_far(ledger: Ledger, base: Seq<RedeemRequest>, p: Progress) -> bool {
    ledger.run(p.commands) matches Some(now) ==> escrow_covers(now, applied(base, p.updates))
}

/// Whether `who` is among the accounts that `updates` are for.
pub open spec fn touched(updates: Seq<RedeemRequest>, who: AccountId) -> bool {
    exists|j: int| 0 <= j < updates.len() && (#[trigger] updates[j]).who == who
}

/// Whether the last of `updates` leaves a request in part that is for an
/// account which an earlier one is for too.
///
/// Said of the updates of the pass over the accounts that a mint names, it
/// tells the one case in which the book is written out of step with the
/// escrow: the account was matched in full, then named again and matched in
/// part against its request as the book still showed it.
pub open spec fn rematched_in_part(updates: Seq<RedeemRequest>) -> bool {
    &&& updates.len() > 0
    &&& updates.last().amount > 0
    &&& touched(updates.drop_last(), updates.last().who)
}

/// A match keeps the escrow sufficient, where the request that is matched is
/// the one that the book will hold: what leaves the escrow leaves the request.
/// The requests of other accounts are as they were.
proof fn lemma_match_keeps_escrow(
    s: State,
    rate: Ratio,
    minter: AccountId,
    ledger: Ledger,
    base: Seq<RedeemRequest>,
    request: RedeemRequest,
    p: Progress,
)
    requires
        well_formed(base),
        covered_so_far(ledger, base, p),
        request_of(applied(base, p.updates), request.who) == Some(request),
    ensures
        ({
            let next = matched(s.config, rate, minter, request, p);
            &&& next.failure is None ==> covered_so_far(ledger, base, next)
            &&& next.failure is None ==> forall|who: AccountId|
                who != request.who ==> request_of(applied(base, next.updates), who) == request_of(
                    applied(base, p.updates),
                    who,
                )
        }),
{
    let next = matched(s.config, rate, minter, request, p);
    if next.failure is None {
        let pending = applied(base, p.updates);
        let update = next.updates.last();
        lemma_applied_push(base, p.updates, update);
        lemma_applied_well_formed(base, p.updates);
        let written = applied(base, next.updates);
        assert forall|who: AccountId| who != request.who implies request_of(written, who)
            == request_of(pending, who) by {
            lemma_request_of_recorded(pending, update, who);
        }
        let repatriate = next.commands[next.commands.len() - 2];
        let transfer = next.commands.last();
        lemma_run_push(ledger, p.commands, repatriate);
        lemma_run_push(ledger, p.commands.push(repatriate), transfer);
        if ledger.run(next.commands) is Some {
            let before = ledger.run(p.commands).unwrap();
            let between = before.after(repatriate).unwrap();
            let now = between.after(transfer).unwrap();
            assert forall|who: AccountId| (#[trigger] request_of(written, who)) is Some implies now.reserved_of(
                Currency::Liquid,
                who,
            ) >= request_of(written, who).unwrap().amount by {
                lemma_request_of_recorded(pending, update, who);
            }
        }
    }
}

/// A match in full of a request that the book will no longer hold keeps the
/// escrow sufficient: the book stays as it will be, and so do the reserves of
/// the accounts in it.
proof fn lemma_rematch_keeps_escrow(
    s: State,
    rate: Ratio,
    minter: AccountId,
    ledger: Ledger,
    base: Seq<RedeemRequest>,
    request: RedeemRequest,
    p: Progress,
)
    requires
        well_formed(base),
        covered_so_far(ledger, base, p),
        request_of(applied(base, p.updates), request.who) is None,
        request.amount <= p.remaining,
    ensures
        ({
            let next = matched(s.config, rate, minter, request, p);
            &&& next.failure is None ==> covered_so_far(ledger, base, next)
            &&& next.failure is None ==> applied(base, next.updates) == applied(base, p.updates)
        }),
{
    let next = matched(s.config, rate, minter, request, p);
    if next.failure is None {
        let update = next.updates.last();
        lemma_applied_push(base, p.updates, update);
        let repatriate = next.commands[next.commands.len() - 2];
        let transfer = next.commands.last();
        lemma_run_push(ledger, p.commands, repatriate);
        lemma_run_push(ledger, p.commands.push(repatriate), transfer);
    }
}

/// The pass over the named accounts keeps the escrow sufficient, unless it
/// ends on a match in part of an account that it had matched before.
proof fn lemma_priority_pass_keeps_escrow(
    s: State,
    rate: Ratio,
    minter: AccountId,
    ledger: Ledger,
    requests: Seq<AccountId>,
    p: Progress,
)
    requires
        well_formed(s.redeem_requests),
        p.failure is None,
        covered_so_far(ledger, s.redeem_requests, p),
        forall|who: AccountId|
            touched(p.updates, who) ==> (#[trigger] request_of(
                applied(s.redeem_requests, p.updates),
                who,
            )) is None,
        forall|who: AccountId|
            !touched(p.updates, who) ==> #[trigger] request_of(
                applied(s.redeem_requests, p.updates),
                who,
            ) == request_of(s.redeem_requests, who),
        !rematched_in_part(priority_pass(s, rate, minter, requests, p).updates),
    ensures
        ({
            let last = priority_pass(s, rate, minter, requests, p);
            last.failure is None ==> covered_so_far(ledger, s.redeem_requests, last)
        }),
    decreases requests.len(),
{
    if !(requests.len() == 0 || p.remaining == 0) {
        let base = s.redeem_requests;
        let pending = applied(base, p.updates);
        let who = requests.first();
        let rest = requests.drop_first();
        match request_of(base, who) {
            Some(request) => {
                lemma_index_of(base, who);
                let next = matched(s.config, rate, minter, request, p);
                if next.failure is None {
                    let update = next.updates.last();
                    assert(next.updates.drop_last() =~= p.updates);
                    lemma_applied_push(base, p.updates, update);
                    lemma_applied_well_formed(base, p.updates);
                    let written = applied(base, next.updates);
                    if update.amount > 0 {
                        // A match in part finds all that was left, so the pass ends on
                        // it; and it is the first match of the account, or the pass
                        // would be one of those left out.
                        if !touched(p.updates, who) {
                            lemma_match_keeps_escrow(s, rate, minter, ledger, base, request, p);
                        }
                    } else {
                        if touched(p.updates, who) {
                            lemma_rematch_keeps_escrow(s, rate, minter, ledger, base, request, p);
                        } else {
                            lemma_match_keeps_escrow(s, rate, minter, ledger, base, request, p);
                        }
                        assert forall|x: AccountId| touched(next.updates, x) implies (#[trigger] request_of(
                            written,
                            x,
                        )) is None by {
                            lemma_request_of_recorded(pending, update, x);
                        }
                        lemma_priority_pass_keeps_escrow(s, rate, minter, ledger, rest, next);
                    }
                }
            },
            None => {
                lemma_priority_pass_keeps_escrow(s, rate, minter, ledger, rest, p);
            },
        }
    }
}

/// The pass over the book keeps the escrow sufficient: each request that it
/// comes to is the one that the book will hold.
proof fn lemma_sweep_pass_keeps_escrow(
    s: State,
    rate: Ratio,
    minter: AccountId,
    ledger: Ledger,
    base: Seq<RedeemRequest>,
    entries: Seq<RedeemRequest>,
    limit: nat,
    p: Progress,
)
    requires
        well_formed(base),
        p.failure is None,
        covered_so_far(ledger, base, p),
        forall|i: int, j: int|
            0 <= i < entries.len() && 0 <= j < entries.len() && i != j ==> entries[i].who
                != entries[j].who,
        forall|i: int|
            0 <= i < entries.len() ==> request_of(
                applied(base, p.updates),
                (#[trigger] entries[i]).who,
            ) == Some(entries[i]),
    ensures
        ({
            let last = sweep_pass(s, rate, minter, entries, limit, p);
            last.failure is None ==> covered_so_far(ledger, base, last)
        }),
    decreases entries.len(),
{
    if !(entries.len() == 0 || p.remaining == 0 || limit == 0) {
        let request = entries.first();
        let rest = entries.drop_first();
        lemma_match_keeps_escrow(s, rate, minter, ledger, base, request, p);
        let next = matched(s.config, rate, minter, request, p);
        if next.failure is None {
            lemma_sweep_pass_keeps_escrow(
                s,
                rate,
                minter,
                ledger,
                base,
                rest,
                (limit - 1) as nat,
                next,
            );
        }
    }
}

/// A mint keeps the escrow sufficient. Where the escrow covered the book, the
/// mint went through and the ledger carried its commands out, the escrow
/// covers the book that the mint leaves.
///
/// The accounts that the minter names are matched against the book as it
/// stood. So the one mint is left out that matches a named account in full,
/// finds it named again, and matches it in part: it leaves a request without
/// an escrow that is known to cover it.
pub proof fn lemma_mint_keeps_escrow(
    s: State,
    liquid_issuance: Balance,
    minter: AccountId,
    amount: Balance,
    requests: Seq<AccountId>,
    ledger: Ledger,
)
    requires
        well_formed(s.redeem_requests),
        escrow_covers(ledger, s.redeem_requests),
        !rematched_in_part(named_pass(s, liquid_issuance, minter, amount, requests).updates),
        minted(s, liquid_issuance, minter, amount, requests).verdict is Ok,
        ledger.run(minted(s, liquid_issuance, minter, amount, requests).commands) is Some,
    ensures
        escrow_covers(
            ledger.run(minted(s, liquid_issuance, minter, amount, requests).commands).unwrap(),
            minted(s, liquid_issuance, minter, amount, requests).verdict->Ok_0.0.redeem_requests,
        ),
        well_formed(
            minted(s, liquid_issuance, minter, amount, requests).verdict->Ok_0.0.redeem_requests,
        ),
{
    let plan = minted(s, liquid_issuance, minter, amount, requests);
    let rate = s.rate(liquid_issuance);
    let check = Command::EnsureCanWithdraw { currency: Currency::Staking, who: minter, amount };
    let total_liquid = crate::rate::liquid_for(rate, amount).unwrap();
    let start = opened(minter, amount, total_liquid);
    let base = s.redeem_requests;
    let first = priority_pass(s, rate, minter, requests, start);
    let book = applied(base, first.updates);
    let resumed = Progress { updates: Seq::empty(), ..first };
    let second = sweep_pass(
        s,
        rate,
        minter,
        book,
        s.config.maximum_redeem_request_matches_for_mint as nat,
        resumed,
    );
    lemma_applied_well_formed(base, first.updates);
    lemma_applied_well_formed(book, second.updates);

    // Before any match, the ledger is as it was.
    assert(covered_so_far(ledger, base, start)) by {
        assert(seq![check].drop_last() =~= Seq::<Command>::empty());
        assert(ledger.run(Seq::<Command>::empty()) == Some(ledger));
    }
    lemma_priority_pass_keeps_escrow(s, rate, minter, ledger, requests, start);
    assert forall|i: int| 0 <= i < book.len() implies request_of(
        applied(book, resumed.updates),
        (#[trigger] book[i]).who,
    ) == Some(book[i]) by {
        lemma_request_of_entry(book, i);
    }
    lemma_sweep_pass_keeps_escrow(
        s,
        rate,
        minter,
        ledger,
        book,
        book,
        s.config.maximum_redeem_request_matches_for_mint as nat,
        resumed,
    );
    // What is routed to the relay chain leaves the reserves alone.
    if plan.commands != second.commands {
        let transfer = plan.commands[plan.commands.len() - 2];
        let deposit = plan.commands.last();
        lemma_run_push(ledger, second.commands, transfer);
        lemma_run_push(ledger, second.commands.push(transfer), deposit);
    }
}

/// A redeem request keeps the escrow sufficient. Where the escrow covered the
/// book, the request or cancellation went through and the ledger carried its
/// command out, the escrow covers the book that is left: a new request is
/// reserved in full, and a cancelled one is no longer in the book.
pub proof fn lemma_redeem_keeps_escrow(
    s: State,
    liquid_issuance: Balance,
    who: AccountId,
    liquid_amount: Balance,
    additional_fee: Permill,
    ledger: Ledger,
)
    requires
        well_formed(s.redeem_requests),
        escrow_covers(ledger, s.redeem_requests),
        redeem_requested(s, liquid_issuance, who, liquid_amount, additional_fee).verdict is Ok,
        ledger.run(
            redeem_requested(s, liquid_issuance, who, liquid_amount, additional_fee).commands,
        ) is Some,
    ensures
        escrow_covers(
            ledger.run(
                redeem_requested(s, liquid_issuance, who, liquid_amount, additional_fee).commands,
            ).unwrap(),
            redeem_requested(
                s,
                liquid_issuance,
                who,
                liquid_amount,
                additional_fee,
            ).verdict->Ok_0.0.redeem_requests,
        ),
        well_formed(
            redeem_requested(
                s,
                liquid_issuance,
                who,
                liquid_amount,
                additional_fee,
            ).verdict->Ok_0.0.redeem_requests,
        ),
{
    let plan = redeem_requested(s, liquid_issuance, who, liquid_amount, additional_fee);
    let book = s.redeem_requests;
    let left = plan.verdict->Ok_0.0.redeem_requests;
    if plan.commands.len() > 0 {
        let command = plan.commands[0];
        lemma_run_push(ledger, Seq::empty(), command);
        let now = ledger.after(command).unwrap();
        let written = if liquid_amount == 0 {
            RedeemRequest { who, amount: 0, extra_fee: additional_fee }
        } else {
            RedeemRequest {
                who,
                amount: crate::matching::least(
                    liquid_amount,
                    crate::rate::liquid_for(s.rate(liquid_issuance), s.available_staking_balance).unwrap(),
                ),
                extra_fee: additional_fee,
            }
        };
        crate::book::lemma_recorded_well_formed(book, written);
        assert forall|x: AccountId| (#[trigger] request_of(left, x)) is Some implies now.reserved_of(
            Currency::Liquid,
            x,
        ) >= request_of(left, x).unwrap().amount by {
            lemma_request_of_recorded(book, written, x);
        }
    }
}

/// Where the commands after a pass can be carried out, those before it could.
proof fn lemma_commands_grow_in_sweep(
    s: State,
    rate: Ratio,
    minter: AccountId,
    ledger: Ledger,
    entries: Seq<RedeemRequest>,
    limit: nat,
    p: Progress,
)
    ensures
        ledger.run(sweep_pass(s, rate, minter, entries, limit, p).commands) is Some ==> ledger.run(
            p.commands,
        ) is Some,
    decreases entries.len(),
{
    if !(entries.len() == 0 || p.failure is Some || p.remaining == 0 || limit == 0) {
        let next = matched(s.config, rate, minter, entries.first(), p);
        lemma_commands_grow_in_sweep(
            s,
            rate,
            minter,
            ledger,
            entries.drop_first(),
            (limit - 1) as nat,
            next,
        );
        let repatriate = Command::RepatriateReserved {
            currency: Currency::Liquid,
            from: entries.first().who,
            to: minter,
            amount: crate::matching::least(entries.first().amount, p.remaining),
        };
        lemma_run_push(ledger, p.commands, repatriate);
        if next.failure is None {
            let transfer = next.commands.last();
            lemma_run_push(ledger, p.commands.push(repatriate), transfer);
        }
    }
}

} // verus!
