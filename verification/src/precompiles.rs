//! Builtin precompiles: contracts of the virtual machine that run native code.

use ripemd160::Digest;
use tiny_keccak::Hasher;
use std::marker::PhantomData;
use vstd::prelude::*;
use vstd::slice::slice_to_vec;

verus! {

/// Why an execution ended in an error.
#[derive(Clone, Copy, Debug, PartialEq, Eq)]
pub enum ExitError {
    /// The execution needed more gas than it was given.
    OutOfGas,
    /// Another error, in words.
    Other(&'static str),
}

/// How an execution ended where it went through.
#[derive(Clone, Copy, Debug, PartialEq, Eq, Structural)]
pub enum ExitSucceed {
    /// It stopped by itself.
    Stopped,
    /// It returned a value.
    Returned,
    /// It destroyed its contract.
    Suicided,
}

/// An entry in the log of an execution.
#[derive(Clone, Debug, PartialEq, Eq)]
pub struct Log {
    pub address: [u8; 20],
    pub topics: Vec<[u8; 32]>,
    pub data: Vec<u8>,
}

/// What the execution of a precompile comes to.
#[derive(Clone, Debug, PartialEq, Eq)]
pub struct PrecompileOutput {
    pub exit_status: ExitSucceed,
    pub cost: u64,
    pub output: Vec<u8>,
    pub logs: Vec<Log>,
}

/// The frame in which a contract runs.
#[derive(Clone, Copy, Debug, PartialEq, Eq)]
pub struct Context {
    /// The address of the contract that runs.
    pub address: [u8; 20],
    /// The address of the caller.
    pub caller: [u8; 20],
    /// The value that the call appears to carry, as a big-endian number.
    pub apparent_value: [u8; 32],
}

/// The weight of the byte at place `e`, counted from the lowest.
pub open spec fn place(e: nat) -> nat
    decreases e,
{
    if e == 0 {
        1
    } else {
        256 * place((e - 1) as nat)
    }
}

/// The address whose number is `n`: twenty bytes that hold `n`, the highest
/// byte first.
pub open spec fn low_address(n: u64) -> Seq<u8> {
    Seq::new(
        20,
        |k: int|
            if k < 12 {
                0u8
            } else {
                ((n as nat / place((19 - k) as nat)) % 256) as u8
            },
    )
}

/// The number of words of thirty-two bytes that `len` bytes take up, a length
/// near the top of the range counting as the top.
pub open spec fn words(len: u64) -> int {
    (if len + 31 > u64::MAX {
        u64::MAX as int
    } else {
        len + 31
    }) / 32
}

/// The gas that an input of `len` bytes costs: a base, and so much a word.
pub open spec fn linear_cost(len: u64, base: u64, word: u64) -> int {
    base + word * words(len)
}

/// The cost of an input of `len` bytes, where it fits the numeric range and
/// the gas that is offered, if any is named.
pub fn ensure_linear_cost(target_gas: Option<u64>, len: u64, base: u64, word: u64) -> (r: Result<
    u64,
    ExitError,
>)
    ensures
        r == if linear_cost(len, base, word) > u64::MAX || (target_gas matches Some(gas)
            && linear_cost(len, base, word) > gas) {
            Err::<u64, ExitError>(ExitError::OutOfGas)
        } else {
            Ok::<u64, ExitError>(linear_cost(len, base, word) as u64)
        },
{
    let count = len.saturating_add(31) / 32;
    proof {
        assert(0 <= word * count) by (nonlinear_arith)
            requires
                0 <= word,
                0 <= count,
        ;
    }
    let by_word = match word.checked_mul(count) {
        Some(product) => product,
        None => {
            return Err(ExitError::OutOfGas);
        },
    };
    let cost = match base.checked_add(by_word) {
        Some(sum) => sum,
        None => {
            return Err(ExitError::OutOfGas);
        },
    };
    if let Some(target_gas) = target_gas {
        if cost > target_gas {
            return Err(ExitError::OutOfGas);
        }
    }
    Ok(cost)
}

/// The RIPEMD-160 digest of `data`, twenty bytes.
pub uninterp spec fn ripemd160_digest(data: Seq<u8>) -> Seq<u8>;

/// The SHA-256 digest of `data`, thirty-two bytes.
pub uninterp spec fn sha2_256_digest(data: Seq<u8>) -> Seq<u8>;

/// The Keccak-256 digest of `data`, thirty-two bytes.
pub uninterp spec fn keccak_256_digest(data: Seq<u8>) -> Seq<u8>;

/// The SHA3-256 digest of `data`, thirty-two bytes.
pub uninterp spec fn sha3_256_digest(data: Seq<u8>) -> Seq<u8>;

/// The SHA3-512 digest of `data`, sixty-four bytes.
pub uninterp spec fn sha3_512_digest(data: Seq<u8>) -> Seq<u8>;

/// The public key that signed `msg` with `sig`, sixty-four bytes, or nothing
/// where the signature is bad.
pub uninterp spec fn secp256k1_recovered(sig: Seq<u8>, msg: Seq<u8>) -> Option<Seq<u8>>;

/// `Ripemd160::digest` of the ripemd160 crate: the digest of the input.
#[verifier::external_body]
fn ripemd160(input: &[u8]) -> (r: [u8; 20])
    ensures
        r@ == ripemd160_digest(input@),
{
    ripemd160::Ripemd160::digest(input).into()
}

/// `sp_io::hashing::sha2_256`: the digest of the input.
#[verifier::external_body]
fn sha2_256(input: &[u8]) -> (r: [u8; 32])
    ensures
        r@ == sha2_256_digest(input@),
{
    sp_io::hashing::sha2_256(input)
}

/// `sp_io::hashing::keccak_256`: the digest of the input.
#[verifier::external_body]
fn keccak_256(input: &[u8]) -> (r: [u8; 32])
    ensures
        r@ == keccak_256_digest(input@),
{
    sp_io::hashing::keccak_256(input)
}

/// `Sha3::v256` of tiny-keccak, fed the input and finalized: the digest of
/// the input.
#[verifier::external_body]
fn sha3_256(input: &[u8]) -> (r: [u8; 32])
    ensures
        r@ == sha3_256_digest(input@),
{
    let mut output = [0u8; 32];
    let mut sha3 = tiny_keccak::Sha3::v256();
    sha3.update(input);
    sha3.finalize(&mut output);
    output
}

/// `Sha3::v512` of tiny-keccak, fed the input and finalized: the digest of
/// the input.
#[verifier::external_body]
fn sha3_512(input: &[u8]) -> (r: [u8; 64])
    ensures
        r@ == sha3_512_digest(input@),
{
    let mut output = [0u8; 64];
    let mut sha3 = tiny_keccak::Sha3::v512();
    sha3.update(input);
    sha3.finalize(&mut output);
    output
}

/// `sp_io::crypto::secp256k1_ecdsa_recover`: the public key that signed the
/// message, without its prefix, or nothing where the signature is bad.
#[verifier::external_body]
fn secp256k1_ecdsa_recover(sig: &[u8; 65], msg: &[u8; 32]) -> (r: Option<[u8; 64]>)
    ensures
        match r {
            Some(key) => secp256k1_recovered(sig@, msg@) == Some(key@),
            None => secp256k1_recovered(sig@, msg@) is None,
        },
{
    match sp_io::crypto::secp256k1_ecdsa_recover(sig, msg) {
        Ok(key) => Some(key),
        Err(_) => None,
    }
}

/// `H160::from_low_u64_be` of primitive-types, as bytes: twelve zeros, then
/// the eight bytes of `n`, the highest first.
#[verifier::external_body]
fn low_u64_address(n: u64) -> (r: [u8; 20])
    ensures
        r@ == low_address(n),
{
    primitive_types::H160::from_low_u64_be(n).0
}

/// What a precompile is to return for an input: how it ends and its output,
/// or its error.
pub type Expected = Result<(ExitSucceed, Seq<u8>), ExitError>;

/// What a precompile returned, as a value of mathematics.
pub open spec fn returned(r: Result<(ExitSucceed, Vec<u8>), ExitError>) -> Expected {
    match r {
        Ok((status, output)) => Ok((status, output@)),
        Err(e) => Err(e),
    }
}

/// One single precompile used by the virtual machine.
pub trait Precompile {
    /// The cost that the precompile charges and what it is to return for
    /// `input`, or its error, given the gas that is offered.
    spec fn charged(input: Seq<u8>, target_gas: Option<u64>) -> Result<
        (u64, ExitSucceed, Seq<u8>),
        ExitError,
    >;

    /// Runs the precompile on `input`: the gas it costs is worked out and
    /// held against `target_gas`, then the output is computed.
    fn execute(input: &[u8], target_gas: Option<u64>, context: &Context) -> (r: Result<
        PrecompileOutput,
        ExitError,
    >)
        ensures
            match r {
                Ok(out) => Self::charged(input@, target_gas) == Ok::<
                    (u64, ExitSucceed, Seq<u8>),
                    ExitError,
                >((out.cost, out.exit_status, out.output@)) && out.logs@.len() == 0,
                Err(e) => Self::charged(input@, target_gas) == Err::<
                    (u64, ExitSucceed, Seq<u8>),
                    ExitError,
                >(e),
            },
    ;
}

/// A precompile whose cost grows by the word.
pub trait LinearCostPrecompile {
    /// The cost of any input.
    const BASE: u64;

    /// The cost of each word of input.
    const WORD: u64;

    /// What the precompile is to return for `input`.
    spec fn expected(input: Seq<u8>) -> Expected;

    /// The output for `input`, which costs `cost`.
    fn execute(input: &[u8], cost: u64) -> (r: Result<(ExitSucceed, Vec<u8>), ExitError>)
        ensures
            returned(r) == Self::expected(input@),
    ;
}

impl<T: LinearCostPrecompile> Precompile for T {
    open spec fn charged(input: Seq<u8>, target_gas: Option<u64>) -> Result<
        (u64, ExitSucceed, Seq<u8>),
        ExitError,
    > {
        let cost = linear_cost(input.len() as u64, T::BASE, T::WORD);
        if cost > u64::MAX || (target_gas matches Some(gas) && cost > gas) {
            Err(ExitError::OutOfGas)
        } else {
            match T::expected(input) {
                Ok((status, output)) => Ok((cost as u64, status, output)),
                Err(e) => Err(e),
            }
        }
    }

    fn execute(input: &[u8], target_gas: Option<u64>, context: &Context) -> Result<
        PrecompileOutput,
        ExitError,
    > {
        let cost = ensure_linear_cost(target_gas, input.len() as u64, T::BASE, T::WORD)?;
        let (exit_status, output) = <T as LinearCostPrecompile>::execute(input, cost)?;
        Ok(PrecompileOutput { exit_status, cost, output, logs: Vec::new() })
    }
}

/// The identity precompile.
pub struct Identity;

impl LinearCostPrecompile for Identity {
    const BASE: u64 = 15;

    const WORD: u64 = 3;

    /// The input itself.
    open spec fn expected(input: Seq<u8>) -> Expected {
        Ok((ExitSucceed::Returned, input))
    }

    fn execute(input: &[u8], cost: u64) -> Result<(ExitSucceed, Vec<u8>), ExitError> {
        Ok((ExitSucceed::Returned, slice_to_vec(input)))
    }
}

/// The first 128 bytes of `i`, with zeros where `i` is shorter.
pub open spec fn padded(i: Seq<u8>) -> Seq<u8> {
    Seq::new(128, |k: int| if k < i.len() { i[k] } else { 0u8 })
}

/// The message of a recovery call: the first word of the padded input.
pub open spec fn signed_message(i: Seq<u8>) -> Seq<u8> {
    padded(i).subrange(0, 32)
}

/// The signature of a recovery call: the third and fourth words of the
/// padded input, then the last byte of the second.
pub open spec fn signature(i: Seq<u8>) -> Seq<u8> {
    padded(i).subrange(64, 128).push(padded(i)[63])
}

/// A digest of thirty-two bytes as an address in a word: twelve zeros, then
/// its last twenty bytes.
pub open spec fn address_word(digest: Seq<u8>) -> Seq<u8> {
    Seq::new(32, |k: int| if k < 12 { 0u8 } else { digest[k] })
}

/// A digest of twenty bytes at the end of a word: twelve zeros, then the digest.
pub open spec fn digest_word(digest: Seq<u8>) -> Seq<u8> {
    Seq::new(32, |k: int| if k < 12 { 0u8 } else { digest[k - 12] })
}

/// The address that the digest of a public key stands for, in a word.
pub fn address_of(digest: [u8; 32]) -> (r: Vec<u8>)
    ensures
        r@ == address_word(digest@),
{
    let mut address = digest;
    let mut k: usize = 0;
    while k < 12
        invariant
            k <= 12,
            forall|j: int| 0 <= j < k ==> address@[j] == 0,
            forall|j: int| k <= j < 32 ==> address@[j] == digest@[j],
        decreases 12 - k,
    {
        address[k] = 0;
        k = k + 1;
    }
    let out = slice_to_vec(address.as_slice());
    proof {
        assert(out@ =~= address_word(digest@));
    }
    out
}

/// A digest of twenty bytes as a word, with zeros before it.
pub fn word_of(digest: [u8; 20]) -> (r: Vec<u8>)
    ensures
        r@ == digest_word(digest@),
{
    let mut ret = [0u8; 32];
    let mut k: usize = 0;
    while k < 20
        invariant
            k <= 20,
            forall|j: int| 0 <= j < 12 ==> ret@[j] == 0,
            forall|j: int| 0 <= j < k ==> ret@[12 + j] == digest@[j],
        decreases 20 - k,
    {
        ret[12 + k] = digest[k];
        k = k + 1;
    }
    let out = slice_to_vec(ret.as_slice());
    proof {
        assert(out@ =~= digest_word(digest@));
    }
    out
}

/// Reads the signature and the message of a recovery call off its input.
pub fn split_recovery_input(i: &[u8]) -> (r: ([u8; 65], [u8; 32]))
    ensures
        r.0@ == signature(i@),
        r.1@ == signed_message(i@),
{
    let mut input = [0u8; 128];
    let n = if i.len() < 128 { i.len() } else { 128 };
    let mut k: usize = 0;
    while k < n
        invariant
            k <= n <= 128,
            n <= i@.len(),
            forall|j: int| 0 <= j < k ==> input@[j] == i@[j],
            forall|j: int| k <= j < 128 ==> input@[j] == 0,
        decreases n - k,
    {
        input[k] = i[k];
        k = k + 1;
    }
    let mut msg = [0u8; 32];
    let mut sig = [0u8; 65];
    let mut k: usize = 0;
    while k < 32
        invariant
            k <= 32,
            forall|j: int| 0 <= j < k ==> msg@[j] == input@[j],
        decreases 32 - k,
    {
        msg[k] = input[k];
        k = k + 1;
    }
    let mut k: usize = 0;
    while k < 64
        invariant
            k <= 64,
            forall|j: int| 0 <= j < k ==> sig@[j] == input@[64 + j],
        decreases 64 - k,
    {
        sig[k] = input[64 + k];
        k = k + 1;
    }
    sig[64] = input[63];
    (sig, msg)
}

/// The ecrecover precompile.
pub struct ECRecover;

impl LinearCostPrecompile for ECRecover {
    const BASE: u64 = 3000;

    const WORD: u64 = 0;

    /// The address of the signer in a word: twelve zeros, then the last
    /// twenty bytes of the digest of its public key. Nothing where the
    /// signature is bad.
    open spec fn expected(input: Seq<u8>) -> Expected {
        match secp256k1_recovered(signature(input), signed_message(input)) {
            Some(key) => Ok((ExitSucceed::Returned, address_word(keccak_256_digest(key)))),
            None => Ok((ExitSucceed::Returned, Seq::empty())),
        }
    }

    fn execute(i: &[u8], cost: u64) -> Result<(ExitSucceed, Vec<u8>), ExitError> {
        let (sig, msg) = split_recovery_input(i);
        let result = match secp256k1_ecdsa_recover(&sig, &msg) {
            Some(pubkey) => address_of(keccak_256(pubkey.as_slice())),
            None => Vec::new(),
        };
        Ok((ExitSucceed::Returned, result))
    }
}

/// The ripemd precompile.
pub struct Ripemd160;

impl LinearCostPrecompile for Ripemd160 {
    const BASE: u64 = 600;

    const WORD: u64 = 120;

    /// The digest at the end of a word: twelve zeros, then its twenty bytes.
    open spec fn expected(input: Seq<u8>) -> Expected {
        Ok((ExitSucceed::Returned, digest_word(ripemd160_digest(input))))
    }

    fn execute(input: &[u8], cost: u64) -> Result<(ExitSucceed, Vec<u8>), ExitError> {
        Ok((ExitSucceed::Returned, word_of(ripemd160(input))))
    }
}

/// The sha256 precompile.
pub struct Sha256;

impl LinearCostPrecompile for Sha256 {
    const BASE: u64 = 60;

    const WORD: u64 = 12;

    /// The digest.
    open spec fn expected(input: Seq<u8>) -> Expected {
        Ok((ExitSucceed::Returned, sha2_256_digest(input)))
    }

    fn execute(input: &[u8], cost: u64) -> Result<(ExitSucceed, Vec<u8>), ExitError> {
        let ret = sha2_256(input);
        Ok((ExitSucceed::Returned, slice_to_vec(ret.as_slice())))
    }
}

/// The precompile that recovers a public key.
pub struct ECRecoverPublicKey;

impl LinearCostPrecompile for ECRecoverPublicKey {
    const BASE: u64 = 3000;

    const WORD: u64 = 0;

    /// The public key of the signer, or an error where the signature is bad.
    open spec fn expected(input: Seq<u8>) -> Expected {
        match secp256k1_recovered(signature(input), signed_message(input)) {
            Some(key) => Ok((ExitSucceed::Returned, key)),
            None => Err(ExitError::Other("Public key recover failed")),
        }
    }

    fn execute(i: &[u8], cost: u64) -> Result<(ExitSucceed, Vec<u8>), ExitError> {
        let (sig, msg) = split_recovery_input(i);
        match secp256k1_ecdsa_recover(&sig, &msg) {
            Some(pubkey) => Ok((ExitSucceed::Returned, slice_to_vec(pubkey.as_slice()))),
            None => Err(ExitError::Other("Public key recover failed")),
        }
    }
}

/// The Sha3FIPS256 precompile.
pub struct Sha3FIPS256;

impl LinearCostPrecompile for Sha3FIPS256 {
    const BASE: u64 = 60;

    const WORD: u64 = 12;

    /// The digest.
    open spec fn expected(input: Seq<u8>) -> Expected {
        Ok((ExitSucceed::Returned, sha3_256_digest(input)))
    }

    fn execute(input: &[u8], cost: u64) -> Result<(ExitSucceed, Vec<u8>), ExitError> {
        let output = sha3_256(input);
        Ok((ExitSucceed::Returned, slice_to_vec(output.as_slice())))
    }
}

/// The Sha3FIPS512 precompile.
pub struct Sha3FIPS512;

impl LinearCostPrecompile for Sha3FIPS512 {
    const BASE: u64 = 60;

    const WORD: u64 = 12;

    /// The digest.
    open spec fn expected(input: Seq<u8>) -> Expected {
        Ok((ExitSucceed::Returned, sha3_512_digest(input)))
    }

    fn execute(input: &[u8], cost: u64) -> Result<(ExitSucceed, Vec<u8>), ExitError> {
        let output = sha3_512(input);
        Ok((ExitSucceed::Returned, slice_to_vec(output.as_slice())))
    }
}

/// The precompiles of a virtual machine, each at its address.
pub trait PrecompileSet {
    /// What the set is to return for a call to `address`: nothing where no
    /// precompile stands there, else the cost and the output of the
    /// precompile, or its error.
    spec fn dispatched(address: Seq<u8>, input: Seq<u8>, target_gas: Option<u64>) -> Option<
        Result<(u64, ExitSucceed, Seq<u8>), ExitError>,
    >;

    /// Runs the precompile at `address`, if there is one.
    fn execute(address: &[u8; 20], input: &[u8], target_gas: Option<u64>, context: &Context) -> (r:
        Option<Result<PrecompileOutput, ExitError>>)
        ensures
            match r {
                None => Self::dispatched(address@, input@, target_gas) is None,
                Some(Ok(out)) => Self::dispatched(address@, input@, target_gas) == Some(
                    Ok::<(u64, ExitSucceed, Seq<u8>), ExitError>(
                        (out.cost, out.exit_status, out.output@),
                    ),
                ),
                Some(Err(e)) => Self::dispatched(address@, input@, target_gas) == Some(
                    Err::<(u64, ExitSucceed, Seq<u8>), ExitError>(e),
                ),
            },
    ;
}

/// Whether `address` is the address whose number is `n`.
fn stands_at(address: &[u8; 20], n: u64) -> (r: bool)
    ensures
        r == (address@ == low_address(n)),
{
    let target = low_u64_address(n);
    let mut k: usize = 0;
    while k < 20
        invariant
            k <= 20,
            target@ == low_address(n),
            forall|j: int| 0 <= j < k ==> address@[j] == target@[j],
        decreases 20 - k,
    {
        if address[k] != target[k] {
            return false;
        }
        k = k + 1;
    }
    proof {
        assert(address@ =~= target@);
    }
    true
}

/// The precompiles of the machine: the standard ones at the addresses one to
/// four, and three more from the address 128 on.
pub struct EvmPrecompiles<ECRecover, Sha256, Ripemd160, Identity, ECRecoverPublicKey, Sha3FIPS256, Sha3FIPS512>(
    PhantomData<
        (ECRecover, Sha256, Ripemd160, Identity, ECRecoverPublicKey, Sha3FIPS256, Sha3FIPS512),
    >,
);

impl<
    ECRecover,
    Sha256,
    Ripemd160,
    Identity,
    ECRecoverPublicKey,
    Sha3FIPS256,
    Sha3FIPS512,
> PrecompileSet for EvmPrecompiles<
    ECRecover,
    Sha256,
    Ripemd160,
    Identity,
    ECRecoverPublicKey,
    Sha3FIPS256,
    Sha3FIPS512,
> where
    ECRecover: Precompile,
    Sha256: Precompile,
    Ripemd160: Precompile,
    Identity: Precompile,
    ECRecoverPublicKey: Precompile,
    Sha3FIPS256: Precompile,
    Sha3FIPS512: Precompile,
 {
    open spec fn dispatched(address: Seq<u8>, input: Seq<u8>, target_gas: Option<u64>) -> Option<
        Result<(u64, ExitSucceed, Seq<u8>), ExitError>,
    > {
        if address == low_address(1) {
            Some(ECRecover::charged(input, target_gas))
        } else if address == low_address(2) {
            Some(Sha256::charged(input, target_gas))
        } else if address == low_address(3) {
            Some(Ripemd160::charged(input, target_gas))
        } else if address == low_address(4) {
            Some(Identity::charged(input, target_gas))
        } else if address == low_address(128) {
            Some(ECRecoverPublicKey::charged(input, target_gas))
        } else if address == low_address(129) {
            Some(Sha3FIPS256::charged(input, target_gas))
        } else if address == low_address(130) {
            Some(Sha3FIPS512::charged(input, target_gas))
        } else {
            None
        }
    }

    fn execute(address: &[u8; 20], input: &[u8], target_gas: Option<u64>, context: &Context) -> (r:
        Option<Result<PrecompileOutput, ExitError>>) {
        if stands_at(address, 1) {
            Some(ECRecover::execute(input, target_gas, context))
        } else if stands_at(address, 2) {
            Some(Sha256::execute(input, target_gas, context))
        } else if stands_at(address, 3) {
            Some(Ripemd160::execute(input, target_gas, context))
        } else if stands_at(address, 4) {
            Some(Identity::execute(input, target_gas, context))
        } else if stands_at(address, 128) {
            // The precompiles beyond the standard ones start at 128.
            Some(ECRecoverPublicKey::execute(input, target_gas, context))
        } else if stands_at(address, 129) {
            Some(Sha3FIPS256::execute(input, target_gas, context))
        } else if stands_at(address, 130) {
            Some(Sha3FIPS512::execute(input, target_gas, context))
        } else {
            None
        }
    }
}

} // verus!
