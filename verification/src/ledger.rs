//! The ledger as the engine sees it: what each command does to the balances.
//!
//! The ledger itself belongs to a collaborator. This is the meaning of the
//! commands, by which the engine's plans are held to account.

use crate::types::{AccountId, Command, Currency};
use vstd::prelude::*;

verus! {

/// The balances of a ledger.
pub struct Ledger {
    /// What each account holds freely of each currency.
    pub free: Map<(Currency, AccountId), nat>,
    /// What each account holds in reserve of each currency.
    pub reserved: Map<(Currency, AccountId), nat>,
    /// How much of each currency is in issue.
    pub issuance: Map<Currency, int>,
}

/// The balance under `key`, nothing where none is kept.
pub open spec fn balance(balances: Map<(Currency, AccountId), nat>, key: (Currency, AccountId)) -> nat {
    if balances.dom().contains(key) {
        balances[key]
    } else {
        0
    }
}

impl Ledger {
    /// What `who` holds freely of `currency`.
    pub open spec fn free_of(self, currency: Currency, who: AccountId) -> nat {
        balance(self.free, (currency, who))
    }

    /// What `who` holds in reserve of `currency`.
    pub open spec fn reserved_of(self, currency: Currency, who: AccountId) -> nat {
        balance(self.reserved, (currency, who))
    }

    /// All that `who` holds of `currency`.
    pub open spec fn holdings(self, currency: Currency, who: AccountId) -> nat {
        self.free_of(currency, who) + self.reserved_of(currency, who)
    }

    /// How much of `currency` is in issue.
    pub open spec fn issued(self, currency: Currency) -> int {
        if self.issuance.dom().contains(currency) {
            self.issuance[currency]
        } else {
            0
        }
    }

    /// The ledger with `amount` more in the free balance of `who`.
    pub open spec fn credited(self, currency: Currency, who: AccountId, amount: nat) -> Ledger {
        Ledger {
            free: self.free.insert((currency, who), self.free_of(currency, who) + amount),
            ..self
        }
    }

    /// The ledger with `amount` less in the free balance of `who`.
    pub open spec fn debited(self, currency: Currency, who: AccountId, amount: nat) -> Ledger {
        Ledger {
            free: self.free.insert(
                (currency, who),
                (self.free_of(currency, who) - amount) as nat,
            ),
            ..self
        }
    }

    /// The ledger with `amount` more in the reserved balance of `who`.
    pub open spec fn set_aside(self, currency: Currency, who: AccountId, amount: nat) -> Ledger {
        Ledger {
            reserved: self.reserved.insert(
                (currency, who),
                self.reserved_of(currency, who) + amount,
            ),
            ..self
        }
    }

    /// The ledger with `amount` less in the reserved balance of `who`.
    pub open spec fn released(self, currency: Currency, who: AccountId, amount: nat) -> Ledger {
        Ledger {
            reserved: self.reserved.insert(
                (currency, who),
                (self.reserved_of(currency, who) - amount) as nat,
            ),
            ..self
        }
    }

    /// The ledger with the issuance of `currency` changed by `change`.
    pub open spec fn reissued(self, currency: Currency, change: int) -> Ledger {
        Ledger { issuance: self.issuance.insert(currency, self.issued(currency) + change), ..self }
    }

    /// The ledger after `command` was carried out in full, or nothing where
    /// the balances do not allow that.
    ///
    /// A release from reserve gives what is there, up to the amount. A
    /// transfer across chains takes the amount out of issue on this side.
    pub open spec fn after(self, command: Command) -> Option<Ledger> {
        match command {
            Command::EnsureCanWithdraw { currency, who, amount } => if self.free_of(currency, who)
                >= amount {
                Some(self)
            } else {
                None
            },
            Command::RepatriateReserved { currency, from, to, amount } => if self.reserved_of(
                currency,
                from,
            ) >= amount {
                Some(self.released(currency, from, amount as nat).credited(currency, to, amount as nat))
            } else {
                None
            },
            Command::Transfer { currency, from, to, amount } => if self.free_of(currency, from)
                >= amount {
                Some(self.debited(currency, from, amount as nat).credited(currency, to, amount as nat))
            } else {
                None
            },
            Command::Reserve { currency, who, amount } => if self.free_of(currency, who) >= amount {
                Some(self.debited(currency, who, amount as nat).set_aside(currency, who, amount as nat))
            } else {
                None
            },
            Command::Unreserve { currency, who, amount } => {
                let given = if self.reserved_of(currency, who) >= amount {
                    amount as nat
                } else {
                    self.reserved_of(currency, who)
                };
                Some(self.released(currency, who, given).credited(currency, who, given))
            },
            Command::Deposit { currency, who, amount } => Some(
                self.credited(currency, who, amount as nat).reissued(currency, amount as int),
            ),
            Command::CrossChainTransfer { who, amount, dest_weight } => if self.free_of(
                Currency::Staking,
                who,
            ) >= amount {
                Some(
                    self.debited(Currency::Staking, who, amount as nat).reissued(
                        Currency::Staking,
                        -(amount as int),
                    ),
                )
            } else {
                None
            },
        }
    }

    /// The ledger after each of `commands` was carried out in full, in order,
    /// or nothing where one of them could not be.
    pub open spec fn run(self, commands: Seq<Command>) -> Option<Ledger>
        decreases commands.len(),
    {
        if commands.len() == 0 {
            Some(self)
        } else {
            match self.run(commands.drop_last()) {
                Some(so_far) => so_far.after(commands.last()),
                None => None,
            }
        }
    }

    /// All that the accounts in `accounts` hold of `currency`.
    pub open spec fn total(self, currency: Currency, accounts: Seq<AccountId>) -> int
        decreases accounts.len(),
    {
        if accounts.len() == 0 {
            0
        } else {
            self.holdings(currency, accounts.last()) + self.total(currency, accounts.drop_last())
        }
    }

    /// What is in issue of `currency` beyond what `accounts` hold of it.
    pub open spec fn unaccounted(self, currency: Currency, accounts: Seq<AccountId>) -> int {
        self.issued(currency) - self.total(currency, accounts)
    }
}

/// The accounts whose balances `command` touches.
pub open spec fn parties(command: Command) -> Set<AccountId> {
    match command {
        Command::EnsureCanWithdraw { who, .. } => set![who],
        Command::RepatriateReserved { from, to, .. } => set![from, to],
        Command::Transfer { from, to, .. } => set![from, to],
        Command::Reserve { who, .. } => set![who],
        Command::Unreserve { who, .. } => set![who],
        Command::Deposit { who, .. } => set![who],
        Command::CrossChainTransfer { who, .. } => set![who],
    }
}

/// Whether `accounts` names no account twice and each party of `commands`.
pub open spec fn covers(accounts: Seq<AccountId>, commands: Seq<Command>) -> bool {
    &&& accounts.no_duplicates()
    &&& forall|i: int, who: AccountId|
        0 <= i < commands.len() && parties(commands[i]).contains(who) ==> accounts.contains(who)
}

/// Where two ledgers differ in the holdings of one account alone, their
/// totals differ by what that account's holdings differ by.
proof fn lemma_total_shift(
    before: Ledger,
    after: Ledger,
    currency: Currency,
    accounts: Seq<AccountId>,
    a: AccountId,
)
    requires
        accounts.no_duplicates(),
        forall|x: AccountId| x != a ==> after.holdings(currency, x) == before.holdings(currency, x),
    ensures
        after.total(currency, accounts) - before.total(currency, accounts) == if accounts.contains(
            a,
        ) {
            after.holdings(currency, a) - before.holdings(currency, a)
        } else {
            0
        },
    decreases accounts.len(),
{
    if accounts.len() > 0 {
        let rest = accounts.drop_last();
        let x = accounts.last();
        lemma_total_shift(before, after, currency, rest, a);
        assert(accounts.contains(a) <==> (a == x || rest.contains(a))) by {
            if accounts.contains(a) {
                let i = choose|i: int| 0 <= i < accounts.len() && accounts[i] == a;
                if i < rest.len() {
                    assert(rest[i] == a);
                }
            }
        }
    }
}

/// Carrying a command out changes what is in issue by exactly what it
/// changes the holdings by: a command moves currency, or issues it, or takes
/// it out of issue across chains, and does nothing else to it.
pub proof fn lemma_command_conserves(
    ledger: Ledger,
    command: Command,
    currency: Currency,
    accounts: Seq<AccountId>,
)
    requires
        covers(accounts, seq![command]),
        ledger.after(command) is Some,
    ensures
        ledger.after(command).unwrap().unaccounted(currency, accounts) == ledger.unaccounted(
            currency,
            accounts,
        ),
{
    let next = ledger.after(command).unwrap();
    assert(seq![command][0] == command);
    match command {
        Command::EnsureCanWithdraw { .. } => {},
        Command::RepatriateReserved { currency: c, from, to, amount } => {
            assert(parties(command).contains(from) && parties(command).contains(to));
            let mid = ledger.released(c, from, amount as nat);
            lemma_total_shift(ledger, mid, currency, accounts, from);
            lemma_total_shift(mid, next, currency, accounts, to);
        },
        Command::Transfer { currency: c, from, to, amount } => {
            assert(parties(command).contains(from) && parties(command).contains(to));
            let mid = ledger.debited(c, from, amount as nat);
            lemma_total_shift(ledger, mid, currency, accounts, from);
            lemma_total_shift(mid, next, currency, accounts, to);
        },
        Command::Reserve { currency: c, who, amount } => {
            lemma_total_shift(ledger, next, currency, accounts, who);
        },
        Command::Unreserve { currency: c, who, amount } => {
            lemma_total_shift(ledger, next, currency, accounts, who);
        },
        Command::Deposit { currency: c, who, amount } => {
            assert(parties(command).contains(who));
            lemma_total_shift(ledger, next, currency, accounts, who);
        },
        Command::CrossChainTransfer { who, amount, dest_weight } => {
            assert(parties(command).contains(who));
            lemma_total_shift(ledger, next, currency, accounts, who);
        },
    }
}

/// Carrying a run of commands out keeps what is in issue beyond the holdings
/// as it was. So where the holdings made up the issuance before, they do
/// after: no command creates or destroys currency but by issuing it or by
/// sending it across chains.
pub proof fn lemma_run_conserves(
    ledger: Ledger,
    commands: Seq<Command>,
    currency: Currency,
    accounts: Seq<AccountId>,
)
    requires
        covers(accounts, commands),
        ledger.run(commands) is Some,
    ensures
        ledger.run(commands).unwrap().unaccounted(currency, accounts) == ledger.unaccounted(
            currency,
            accounts,
        ),
    decreases commands.len(),
{
    if commands.len() > 0 {
        let last = commands.last();
        let rest = commands.drop_last();
        lemma_run_conserves(ledger, rest, currency, accounts);
        lemma_command_conserves(ledger.run(rest).unwrap(), last, currency, accounts);
    }
}

/// A run with one more command is the run, then the command.
pub proof fn lemma_run_push(ledger: Ledger, commands: Seq<Command>, command: Command)
    ensures
        ledger.run(commands.push(command)) == match ledger.run(commands) {
            Some(so_far) => so_far.after(command),
            None => None,
        },
{
    assert(commands.push(command).drop_last() =~= commands);
}

} // verus!
