//! The calls the engine sends to the relay chain, and their encoding.

use crate::fixed::Balance;
use crate::pallet::Relaychain;
use crate::types::{AccountId, Weight};
use parity_scale_codec::{Compact, Encode};
use vstd::prelude::*;

verus! {

/// The lowest `n` bytes of `x`, the lowest first.
pub open spec fn le_bytes(x: nat, n: nat) -> Seq<u8>
    decreases n,
{
    if n == 0 {
        Seq::empty()
    } else {
        seq![(x % 256) as u8] + le_bytes(x / 256, (n - 1) as nat)
    }
}

/// The number of bytes that `x` takes without leading zeros.
pub open spec fn bytes_needed(x: nat) -> nat
    decreases x,
{
    if x == 0 {
        0
    } else {
        1 + bytes_needed(x / 256)
    }
}

/// The compact encoding of `x`: the two lowest bits of the first byte tell
/// the form. One, two or four bytes hold `x` shifted left by two bits; a
/// larger `x` follows a byte that counts its bytes beyond four.
pub open spec fn compact_bytes(x: nat) -> Seq<u8> {
    if x < 0x40 {
        seq![(x * 4) as u8]
    } else if x < 0x4000 {
        le_bytes(x * 4 + 1, 2)
    } else if x < 0x4000_0000 {
        le_bytes(x * 4 + 2, 4)
    } else {
        seq![(3 + (bytes_needed(x) - 4) * 4) as u8] + le_bytes(x, bytes_needed(x))
    }
}

/// `Encode::encode` of parity-scale-codec for `u16`: its two bytes, the
/// lower first.
#[verifier::external_body]
fn scale_u16(x: u16) -> (r: Vec<u8>)
    ensures
        r@ == le_bytes(x as nat, 2),
{
    x.encode()
}

/// `Encode::encode` of parity-scale-codec for `u32`: its four bytes, the
/// lowest first.
#[verifier::external_body]
fn scale_u32(x: u32) -> (r: Vec<u8>)
    ensures
        r@ == le_bytes(x as nat, 4),
{
    x.encode()
}

/// `Encode::encode` of parity-scale-codec for `Compact<u32>`, which is how
/// the length of a list is written: the compact encoding.
#[verifier::external_body]
fn scale_compact_u32(x: u32) -> (r: Vec<u8>)
    ensures
        r@ == compact_bytes(x as nat),
{
    Compact(x).encode()
}

/// `Encode::encode` of parity-scale-codec for `Compact<u128>`: the compact
/// encoding.
#[verifier::external_body]
fn scale_compact_u128(x: u128) -> (r: Vec<u8>)
    ensures
        r@ == compact_bytes(x as nat),
{
    Compact(x).encode()
}

/// A call into the relay chain's balances module.
#[derive(Debug)]
pub enum BalancesCall {
    /// Transfer the amount to the account, which is kept alive.
    TransferKeepAlive(AccountId, Balance),
}

/// A call into the relay chain's utility module.
#[derive(Debug)]
pub enum UtilityCall {
    /// Make the call as the derivative account of the given index.
    AsDerivative(u16, RelaychainCall),
    /// Make all the calls, or none of them.
    BatchAll(Vec<RelaychainCall>),
}

/// A call into the relay chain's staking module.
#[derive(Debug)]
pub enum StakingCall {
    /// Release the funds that have finished unbonding, given the number of
    /// slashing spans to go through.
    WithdrawUnbonded(u32),
}

/// A call into the relay chain.
#[derive(Debug)]
pub enum RelaychainCall {
    Balances(BalancesCall),
    Staking(StakingCall),
    Utility(Box<UtilityCall>),
}

/// The index of the balances module in the relay chain's runtime.
pub open spec fn balances_index(chain: Relaychain) -> u8 {
    match chain {
        Relaychain::Kusama => 4,
        Relaychain::Polkadot => 5,
    }
}

/// The index of the staking module in the relay chain's runtime.
pub open spec fn staking_index(chain: Relaychain) -> u8 {
    match chain {
        Relaychain::Kusama => 6,
        Relaychain::Polkadot => 7,
    }
}

/// The index of the utility module in the relay chain's runtime.
pub open spec fn utility_index(chain: Relaychain) -> u8 {
    match chain {
        Relaychain::Kusama => 24,
        Relaychain::Polkadot => 26,
    }
}

/// The encoding of a call: the index of its module, the index of the call in
/// the module, then the arguments. An account is written as an address by
/// public key, an amount in compact form, a list behind its compact length.
pub open spec fn call_bytes(chain: Relaychain, call: RelaychainCall) -> Seq<u8>
    decreases call, 0nat,
{
    match call {
        RelaychainCall::Balances(BalancesCall::TransferKeepAlive(to, amount)) => seq![
            balances_index(chain),
            3u8,
            0u8,
        ] + to.0@ + compact_bytes(amount as nat),
        RelaychainCall::Staking(StakingCall::WithdrawUnbonded(spans)) => seq![
            staking_index(chain),
            3u8,
        ] + le_bytes(spans as nat, 4),
        RelaychainCall::Utility(inner) => match *inner {
            UtilityCall::AsDerivative(index, call) => seq![utility_index(chain), 1u8] + le_bytes(
                index as nat,
                2,
            ) + call_bytes(chain, call),
            UtilityCall::BatchAll(calls) => seq![utility_index(chain), 2u8] + compact_bytes(
                calls@.len(),
            ) + batch_bytes(chain, calls@),
        },
    }
}

/// The encodings of the calls of a list, one after the other.
pub open spec fn batch_bytes(chain: Relaychain, calls: Seq<RelaychainCall>) -> Seq<u8>
    decreases calls, calls.len(),
{
    if calls.len() == 0 {
        Seq::empty()
    } else {
        call_bytes(chain, calls[0]) + batch_bytes(chain, calls.subrange(1, calls.len() as int))
    }
}

/// Whether the call can be encoded: no list in it is longer than a length
/// can be written.
pub open spec fn encodable(call: RelaychainCall) -> bool
    decreases call, 0nat,
{
    match call {
        RelaychainCall::Balances(_) => true,
        RelaychainCall::Staking(_) => true,
        RelaychainCall::Utility(inner) => match *inner {
            UtilityCall::AsDerivative(_, call) => encodable(call),
            UtilityCall::BatchAll(calls) => calls@.len() <= u32::MAX && all_encodable(calls@),
        },
    }
}

/// Whether each call of a list can be encoded.
pub open spec fn all_encodable(calls: Seq<RelaychainCall>) -> bool
    decreases calls, calls.len(),
{
    calls.len() == 0 || (encodable(calls[0]) && all_encodable(
        calls.subrange(1, calls.len() as int),
    ))
}

/// A list of two calls is encoded as the one, then the other, and can be
/// encoded where both can.
pub proof fn lemma_pair(chain: Relaychain, calls: Seq<RelaychainCall>)
    requires
        calls.len() == 2,
    ensures
        batch_bytes(chain, calls) == call_bytes(chain, calls[0]) + call_bytes(chain, calls[1]),
        all_encodable(calls) == (encodable(calls[0]) && encodable(calls[1])),
{
    let rest = calls.subrange(1, 2);
    let none = rest.subrange(1, 1);
    assert(batch_bytes(chain, rest) == call_bytes(chain, rest[0]) + batch_bytes(chain, none));
    assert(all_encodable(rest) == (encodable(rest[0]) && all_encodable(none)));
}

/// Where an instruction's call is to be made from.
#[derive(Clone, Copy, Debug, PartialEq, Eq, Structural)]
pub enum OriginKind {
    /// From the sovereign account of the sender.
    SovereignAccount,
}

/// An instruction to the relay chain to make a call.
#[derive(Debug, PartialEq, Eq)]
pub struct Transact {
    /// Where the call is made from.
    pub origin_type: OriginKind,
    /// The most that the call may weigh.
    pub require_weight_at_most: Weight,
    /// The encoded call.
    pub call: Vec<u8>,
}

/// A message to the relay chain that pays for a call and makes it: funds of
/// the relay chain's own currency are withdrawn, execution is bought with
/// them, the call is made, and what is left of them comes back.
#[derive(Debug, PartialEq, Eq)]
pub struct XcmMessage {
    /// The amount withdrawn and offered as fees.
    pub fees: Balance,
    /// The execution that is bought.
    pub weight: Weight,
    /// The execution that is already owed.
    pub debt: Weight,
    /// Whether an error in the call ends the whole message.
    pub halt_on_error: bool,
    /// The instruction that makes the call.
    pub transact: Transact,
    /// The number of assets that may come back.
    pub max_assets: u32,
    /// The parachain, one level up and one down, that what is left goes to.
    pub beneficiary: u32,
}

fn balances_module(chain: Relaychain) -> (r: u8)
    ensures
        r == balances_index(chain),
{
    match chain {
        Relaychain::Kusama => 4,
        Relaychain::Polkadot => 5,
    }
}

fn staking_module(chain: Relaychain) -> (r: u8)
    ensures
        r == staking_index(chain),
{
    match chain {
        Relaychain::Kusama => 6,
        Relaychain::Polkadot => 7,
    }
}

fn utility_module(chain: Relaychain) -> (r: u8)
    ensures
        r == utility_index(chain),
{
    match chain {
        Relaychain::Kusama => 24,
        Relaychain::Polkadot => 26,
    }
}

impl RelaychainCall {
    /// The bytes that the relay chain reads the call from.
    #[verifier::loop_isolation(false)]
    pub fn encode(&self, chain: Relaychain) -> (r: Vec<u8>)
        requires
            encodable(*self),
        ensures
            r@ == call_bytes(chain, *self),
        decreases self,
    {
        let mut out: Vec<u8> = Vec::new();
        match self {
            RelaychainCall::Balances(BalancesCall::TransferKeepAlive(to, amount)) => {
                out.push(balances_module(chain));
                out.push(3);
                out.push(0);
                let ghost head = out@;
                let mut i: usize = 0;
                while i < 32
                    invariant
                        i <= 32,
                        out@ == head + to.0@.take(i as int),
                    decreases 32 - i,
                {
                    out.push(to.0[i]);
                    i = i + 1;
                }
                let mut tail = scale_compact_u128(*amount);
                out.append(&mut tail);
            },
            RelaychainCall::Staking(StakingCall::WithdrawUnbonded(spans)) => {
                out.push(staking_module(chain));
                out.push(3);
                let mut tail = scale_u32(*spans);
                out.append(&mut tail);
            },
            RelaychainCall::Utility(inner) => {
                out.push(utility_module(chain));
                match &**inner {
                    UtilityCall::AsDerivative(index, call) => {
                        out.push(1);
                        let mut index_bytes = scale_u16(*index);
                        out.append(&mut index_bytes);
                        let mut tail = call.encode(chain);
                        out.append(&mut tail);
                    },
                    UtilityCall::BatchAll(calls) => {
                        out.push(2);
                        let n = calls.len();
                        let mut length = scale_compact_u32(n as u32);
                        out.append(&mut length);
                        let ghost head = out@;
                        let mut k: usize = 0;
                        proof {
                            assert(calls@.subrange(0, n as int) =~= calls@);
                        }
                        while k < n
                            invariant
                                n == calls@.len(),
                                k <= n,
                                all_encodable(calls@.subrange(k as int, n as int)),
                                head + batch_bytes(chain, calls@) == out@ + batch_bytes(
                                    chain,
                                    calls@.subrange(k as int, n as int),
                                ),
                            decreases n - k,
                        {
                            proof {
                                let rest = calls@.subrange(k as int, n as int);
                                assert(rest.subrange(1, rest.len() as int) =~= calls@.subrange(
                                    k + 1,
                                    n as int,
                                ));
                            }
                            let mut item = calls[k].encode(chain);
                            out.append(&mut item);
                            k = k + 1;
                        }
                    },
                }
            },
        }
        out
    }
}

/// Builds the calls that the engine sends to the relay chain.
#[derive(Clone, Copy, Debug)]
pub struct RelaychainCallBuilder {
    /// The relay chain the calls are for.
    pub relaychain: Relaychain,
    /// The parachain the engine runs on.
    pub parachain_id: u32,
}

impl RelaychainCallBuilder {
    /// The call that makes all of `calls`, or none of them.
    pub fn utility_batch_call(calls: Vec<RelaychainCall>) -> (r: RelaychainCall)
        ensures
            r matches RelaychainCall::Utility(inner) && *inner == UtilityCall::BatchAll(calls),
    {
        RelaychainCall::Utility(Box::new(UtilityCall::BatchAll(calls)))
    }

    /// The call that makes `call` as the derivative account of `index`.
    pub fn utility_as_derivative_call(call: RelaychainCall, index: u16) -> (r: RelaychainCall)
        ensures
            r matches RelaychainCall::Utility(inner) && *inner == UtilityCall::AsDerivative(
                index,
                call,
            ),
    {
        RelaychainCall::Utility(Box::new(UtilityCall::AsDerivative(index, call)))
    }

    /// The call that releases the funds that have finished unbonding.
    pub fn staking_withdraw_unbonded(num_slashing_spans: u32) -> (r: RelaychainCall)
        ensures
            r == RelaychainCall::Staking(StakingCall::WithdrawUnbonded(num_slashing_spans)),
    {
        RelaychainCall::Staking(StakingCall::WithdrawUnbonded(num_slashing_spans))
    }

    /// The call that transfers `amount` to `to`, which is kept alive.
    pub fn balances_transfer_keep_alive(to: AccountId, amount: Balance) -> (r: RelaychainCall)
        ensures
            r == RelaychainCall::Balances(BalancesCall::TransferKeepAlive(to, amount)),
    {
        RelaychainCall::Balances(BalancesCall::TransferKeepAlive(to, amount))
    }

    /// The message that pays `extra_fee` for `weight` of execution, on top of
    /// `debt`, and makes `call` from the sovereign account; what is left of
    /// the fee comes back to this parachain.
    pub fn finalize_call_into_xcm_message(
        &self,
        call: RelaychainCall,
        extra_fee: Balance,
        weight: Weight,
        debt: Weight,
    ) -> (r: XcmMessage)
        requires
            encodable(call),
        ensures
            r.fees == extra_fee,
            r.weight == weight,
            r.debt == debt,
            r.halt_on_error,
            r.transact.origin_type == OriginKind::SovereignAccount,
            r.transact.require_weight_at_most == weight,
            r.transact.call@ == call_bytes(self.relaychain, call),
            r.max_assets == 1,
            r.beneficiary == self.parachain_id,
    {
        XcmMessage {
            fees: extra_fee,
            weight,
            debt,
            halt_on_error: true,
            transact: Transact {
                origin_type: OriginKind::SovereignAccount,
                require_weight_at_most: weight,
                call: call.encode(self.relaychain),
            },
            max_assets: 1,
            beneficiary: self.parachain_id,
        }
    }
}

} // verus!
