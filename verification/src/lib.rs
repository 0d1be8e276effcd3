//! A liquid-staking exchange and redemption matching engine.
//!
//! The engine converts a staking asset into a liquid derivative and back. It
//! keeps the book of pending redemptions, matches them against mints, routes
//! what is left to the relay chain, and settles scheduled unbondings.
//!
//! The ledger and the cross-chain transport are collaborators. An operation
//! that needs them is worked out as a plan: the commands for them, and the
//! state that takes the engine's place once they have carried the commands
//! out. The engine itself never changes half way.
//!
//! - `fixed`, `rate`: the arithmetic of ratios and shares, and the exchange rate.
//! - `types`, `plan`: what passes between the engine and its collaborators.
//! - `book`: the redemption book.
//! - `pallet`: the engine's state and what governance may set.
//! - `matching`, `mint`, `redeem`, `unbonding`: the operations.
//! - `relaychain`: the calls sent to the relay chain, and their encoding.
//! - `ledger`: the meaning of the commands, as balances before and after.
//! - `conservation`, `escrow`, `laws`: what holds of every operation.
//! - `precompiles`: native contracts of the virtual machine.

pub mod book;
pub mod conservation;
pub mod escrow;
pub mod fixed;
pub mod laws;
pub mod ledger;
pub mod matching;
pub mod mint;
pub mod pallet;
pub mod plan;
pub mod precompiles;
pub mod rate;
pub mod redeem;
pub mod relaychain;
pub mod types;
pub mod unbonding;
