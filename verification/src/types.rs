//! The values that pass between the engine and the world around it.

use crate::fixed::{Balance, Permill};
use vstd::prelude::*;

verus! {

/// A relay-chain block number.
pub type BlockNumber = u32;

/// An execution budget.
pub type Weight = u64;

/// Who holds funds: the thirty-two bytes of a public key.
#[derive(Clone, Copy, Debug, Eq)]
pub struct AccountId(pub [u8; 32]);

impl PartialEq for AccountId {
    fn eq(&self, other: &AccountId) -> (r: bool) {
        let mut i: usize = 0;
        while i < 32
            invariant
                i <= 32,
                forall|j: int| 0 <= j < i ==> self.0@[j] == other.0@[j],
            decreases 32 - i,
        {
            if self.0[i] != other.0[i] {
                return false;
            }
            i = i + 1;
        }
        assert(self.0 == other.0);
        true
    }
}

impl vstd::std_specs::cmp::PartialEqSpecImpl for AccountId {
    open spec fn obeys_eq_spec() -> bool {
        true
    }

    open spec fn eq_spec(&self, other: &AccountId) -> bool {
        *self == *other
    }
}

/// The two assets the engine trades.
#[derive(Clone, Copy, Debug, PartialEq, Eq, Structural)]
pub enum Currency {
    /// The base asset, staked on the relay chain.
    Staking,
    /// The derivative asset, issued against staked funds.
    Liquid,
}

/// An outstanding request to turn liquid currency back into staking currency.
#[derive(Clone, Copy, Debug, PartialEq, Eq)]
pub struct RedeemRequest {
    /// The redeemer.
    pub who: AccountId,
    /// The liquid amount held in escrow for the request.
    pub amount: Balance,
    /// The fee the redeemer offers on top of the base fee.
    pub extra_fee: Permill,
}

/// What the engine asks of the ledger or of the cross-chain transport.
/// The commands of one operation are carried out in order and as a unit.
#[derive(Clone, Copy, Debug, PartialEq, Eq)]
pub enum Command {
    /// Check that `who` can part with `amount` of its free balance.
    EnsureCanWithdraw { currency: Currency, who: AccountId, amount: Balance },
    /// Move `amount` from the reserved balance of `from` to the free balance
    /// of `to`, and report what could not be moved.
    RepatriateReserved { currency: Currency, from: AccountId, to: AccountId, amount: Balance },
    /// Move `amount` of free balance from `from` to `to`.
    Transfer { currency: Currency, from: AccountId, to: AccountId, amount: Balance },
    /// Move `amount` of `who` from its free to its reserved balance.
    Reserve { currency: Currency, who: AccountId, amount: Balance },
    /// Move `amount` of `who` from its reserved to its free balance.
    Unreserve { currency: Currency, who: AccountId, amount: Balance },
    /// Issue `amount` to the free balance of `who`.
    Deposit { currency: Currency, who: AccountId, amount: Balance },
    /// Send `amount` of staking currency of `who` to the engine's sovereign
    /// account on the relay chain, paying at most `dest_weight` there.
    CrossChainTransfer { who: AccountId, amount: Balance, dest_weight: Weight },
}

/// How a collaborator answered one command.
#[derive(Clone, Copy, Debug, PartialEq, Eq, Structural)]
pub enum Reply {
    /// Carried out; the amount is the part that could not be moved, zero for
    /// a command that has no such part.
    Completed(Balance),
    /// Refused, with the collaborator's own error code.
    Failed(u32),
}

/// How the relay chain answered a remote-execution instruction.
#[derive(Clone, Copy, Debug, PartialEq, Eq, Structural)]
pub enum Outcome {
    /// Executed in full.
    Complete,
    /// Executed in part, then stopped on an error.
    Incomplete,
    /// Not executed.
    Error,
}

/// Why an operation was rejected.
#[derive(Clone, Copy, Debug, PartialEq, Eq, Structural)]
pub enum Error {
    /// The total amount for the staking currency must be more than zero.
    InvalidTotalStakingCurrency,
    /// The mint amount is below the minimum threshold allowed.
    MintAmountBelowMinimumThreshold,
    /// The amount of staking currency used has exceeded the cap allowed.
    ExceededStakingCurrencyMintCap,
    /// The escrow did not cover the amount of a redeem request.
    InsufficientReservedBalances,
    /// Amount redeemed is above total amount staked.
    InsufficientTotalStakingCurrency,
    /// A conversion or a sum left the numeric range.
    Overflow,
    /// The ledger refused a command; its own error code is passed on.
    Ledger(u32),
    /// The cross-chain transport did not carry a command out in full.
    RemoteExecutionFailed,
    /// A command was left without a reply, so nothing is known of it.
    Unanswered,
}

/// What an operation did, for the outside to see.
#[derive(Clone, Copy, Debug, PartialEq, Eq)]
pub enum Event {
    /// The user has staked some currency to mint liquid currency:
    /// who, the staking amount consumed, the liquid amount received.
    Minted(AccountId, Balance, Balance),
    /// The total amount of the staking currency on the relay chain has been set.
    TotalStakingCurrencySet(Balance),
    /// The mint cap for staking currency is updated.
    StakingCurrencyMintCapUpdated(Balance),
    /// A new weight for cross-chain transfers has been set.
    XcmDestWeightSet(Weight),
    /// The redeem request has been cancelled: who, the liquid amount released.
    RedeemRequestCancelled(AccountId, Balance),
    /// A new redeem request has been registered: who, the liquid amount in escrow.
    RedeemRequested(AccountId, Balance),
    /// A redeem request was matched: the redeemer, the staking amount it
    /// received, the liquid amount it gave.
    Redeemed(AccountId, Balance, Balance),
    /// An unbonding was added to the schedule: the staking amount, the
    /// relay-chain block at which it matures.
    ScheduledUnboundAdded(Balance, BlockNumber),
    /// The schedule of unbondings has been replaced.
    ScheduledUnboundReplaced,
}

} // verus!
