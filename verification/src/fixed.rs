//! Fixed-point quantities: ratios with eighteen decimals and parts per million.

use sp_runtime::{FixedPointNumber, FixedU128};
use vstd::prelude::*;

verus! {

/// Unsigned amount of either currency.
pub type Balance = u128;

/// The scale of a `Ratio`: its raw value counts units of `1 / FIXED_DIV`.
pub const FIXED_DIV: u128 = 1_000_000_000_000_000_000;

/// The scale of a `Permill`: one million parts make the whole.
pub const PERMILL_MAX: u32 = 1_000_000;

/// `n / d` as a raw ratio, rounded down; nothing where `d` is zero or the
/// quotient does not fit.
pub open spec fn ratio_of(n: int, d: int) -> Option<u128> {
    if d == 0 || n * FIXED_DIV / d > u128::MAX {
        None
    } else {
        Some((n * FIXED_DIV / d) as u128)
    }
}

/// A raw ratio times an integer, rounded down; nothing where the product
/// does not fit.
pub open spec fn scaled(inner: int, n: int) -> Option<u128> {
    if inner * n / (FIXED_DIV as int) > u128::MAX {
        None
    } else {
        Some((inner * n / (FIXED_DIV as int)) as u128)
    }
}

/// One over a raw ratio, rounded down; nothing for zero.
pub open spec fn inverse(inner: int) -> Option<u128> {
    if inner == 0 {
        None
    } else {
        Some((FIXED_DIV * FIXED_DIV / inner) as u128)
    }
}

/// `parts` millionths of `x`, rounded to the nearest integer, a tie going down.
/// It is written the way the multiplication avoids overflow: whole millions of
/// `x` first, then the remainder.
pub open spec fn permill_of(parts: int, x: int) -> int {
    let rem = (x % 1_000_000) * parts;
    (x / 1_000_000) * parts + rem / 1_000_000 + if rem % 1_000_000 > 500_000 {
        1int
    } else {
        0int
    }
}

/// `FixedU128::checked_from_rational` of sp-runtime, on raw values: the
/// quotient `n / d` scaled by `FIXED_DIV` and rounded down, `None` when `d` is
/// zero or the scaled quotient exceeds `u128`.
#[verifier::external_body]
fn fixed_checked_from_rational(n: u128, d: u128) -> (r: Option<u128>)
    ensures
        r == ratio_of(n as int, d as int),
{
    match FixedU128::checked_from_rational(n, d) {
        Some(v) => Some(v.into_inner()),
        None => None,
    }
}

/// `FixedU128::checked_mul_int` of sp-runtime, on a raw value: the product
/// divided by `FIXED_DIV` and rounded down, `None` when it exceeds `u128`.
#[verifier::external_body]
fn fixed_checked_mul_int(inner: u128, n: u128) -> (r: Option<u128>)
    ensures
        r == scaled(inner as int, n as int),
{
    FixedU128::from_inner(inner).checked_mul_int(n)
}

/// `FixedU128::reciprocal` of sp-runtime, on raw values: one divided by the
/// ratio, rounded down, `None` for zero.
#[verifier::external_body]
fn fixed_reciprocal(inner: u128) -> (r: Option<u128>)
    ensures
        r == inverse(inner as int),
{
    match FixedU128::from_inner(inner).reciprocal() {
        Some(v) => Some(v.into_inner()),
        None => None,
    }
}

/// Multiplication of a `Permill` of sp-runtime with a `u128`: `parts`
/// millionths of `x`, rounded to the nearest integer, a tie going down.
/// `Permill::from_parts` caps `parts` at one million.
#[verifier::external_body]
fn permill_mul(parts: u32, x: u128) -> (r: u128)
    ensures
        r == permill_of(if parts <= PERMILL_MAX { parts as int } else { PERMILL_MAX as int }, x as int),
{
    sp_runtime::Permill::from_parts(parts) * x
}

/// An unsigned fixed-point number with eighteen decimals.
#[derive(Clone, Copy, Debug, PartialEq, Eq, Structural)]
pub struct Ratio {
    pub inner: u128,
}

/// The ratio of liquid to staking currency.
pub type ExchangeRate = Ratio;

impl Ratio {
    /// The ratio whose raw value is `inner`.
    pub fn from_inner(inner: u128) -> (r: Ratio)
        ensures
            r.inner == inner,
    {
        Ratio { inner }
    }

    /// The raw value.
    pub fn into_inner(self) -> (r: u128)
        ensures
            r == self.inner,
    {
        self.inner
    }

    /// The ratio `n / d`, rounded down to eighteen decimals.
    pub fn checked_from_rational(n: Balance, d: Balance) -> (r: Option<Ratio>)
        ensures
            r == match ratio_of(n as int, d as int) {
                Some(inner) => Some(Ratio { inner }),
                None => None,
            },
    {
        match fixed_checked_from_rational(n, d) {
            Some(inner) => Some(Ratio { inner }),
            None => None,
        }
    }

    /// One over this ratio, rounded down to eighteen decimals.
    pub fn reciprocal(self) -> (r: Option<Ratio>)
        ensures
            r == match inverse(self.inner as int) {
                Some(inner) => Some(Ratio { inner }),
                None => None,
            },
    {
        match fixed_reciprocal(self.inner) {
            Some(inner) => Some(Ratio { inner }),
            None => None,
        }
    }

    /// This ratio of `n`, rounded down.
    pub fn checked_mul_int(self, n: Balance) -> (r: Option<Balance>)
        ensures
            r == scaled(self.inner as int, n as int),
    {
        fixed_checked_mul_int(self.inner, n)
    }
}

/// A share of a whole, in parts per million.
#[derive(Clone, Copy, Debug, PartialEq, Eq)]
pub struct Permill {
    parts: u32,
}

impl View for Permill {
    type V = nat;

    /// The number of millionths, never more than the whole.
    closed spec fn view(&self) -> nat {
        if self.parts <= PERMILL_MAX {
            self.parts as nat
        } else {
            PERMILL_MAX as nat
        }
    }
}

impl Permill {
    #[verifier::type_invariant]
    spec fn in_range(self) -> bool {
        self.parts <= PERMILL_MAX
    }

    /// `parts` millionths, capped at the whole.
    pub fn from_parts(parts: u32) -> (r: Permill)
        ensures
            r@ == if parts <= PERMILL_MAX { parts } else { PERMILL_MAX },
    {
        if parts > PERMILL_MAX {
            Permill { parts: PERMILL_MAX }
        } else {
            Permill { parts }
        }
    }

    /// The whole.
    pub fn one() -> (r: Permill)
        ensures
            r@ == PERMILL_MAX,
    {
        Permill { parts: PERMILL_MAX }
    }

    /// Nothing.
    pub fn zero() -> (r: Permill)
        ensures
            r@ == 0,
    {
        Permill { parts: 0 }
    }

    /// The number of millionths.
    pub fn deconstruct(self) -> (r: u32)
        ensures
            r == self@,
            r <= PERMILL_MAX,
    {
        proof {
            use_type_invariant(self);
        }
        self.parts
    }

    /// The difference, or nothing where `rhs` is the larger.
    pub fn saturating_sub(self, rhs: Permill) -> (r: Permill)
        ensures
            r@ == if self@ >= rhs@ { self@ - rhs@ } else { 0 },
    {
        proof {
            use_type_invariant(self);
            use_type_invariant(rhs);
        }
        if self.parts >= rhs.parts {
            Permill { parts: self.parts - rhs.parts }
        } else {
            Permill { parts: 0 }
        }
    }

    /// This share of `x`, rounded to the nearest integer, a tie going down.
    pub fn mul_int(self, x: Balance) -> (r: Balance)
        ensures
            r == permill_of(self@ as int, x as int),
    {
        proof {
            use_type_invariant(self);
        }
        permill_mul(self.parts, x)
    }

    /// Every share is at most the whole.
    pub proof fn lemma_bounded(self)
        ensures
            self@ <= PERMILL_MAX,
    {
    }
}

} // verus!
