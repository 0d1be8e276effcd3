//! The exchange rate between the two currencies, and what it rounds to.

use crate::fixed::{inverse, permill_of, ratio_of, scaled, Balance, Ratio, FIXED_DIV, PERMILL_MAX};
use vstd::prelude::*;

verus! {

/// The liquid amount issued per unit of staking currency: the liquid issuance
/// over the staked total, or `fallback` where that quotient cannot be formed.
pub open spec fn exchange_rate(liquid_issuance: Balance, staking_total: Balance, fallback: Ratio) -> Ratio {
    match ratio_of(liquid_issuance as int, staking_total as int) {
        Some(inner) => Ratio { inner },
        None => fallback,
    }
}

/// The ratio by which a liquid amount is turned back into staking currency:
/// one over `rate`, or `fallback` itself where `rate` is zero.
pub open spec fn reverse_rate(rate: Ratio, fallback: Ratio) -> Ratio {
    match inverse(rate.inner as int) {
        Some(inner) => Ratio { inner },
        None => fallback,
    }
}

/// The liquid amount that `staking` converts to, or nothing where it leaves
/// the numeric range.
pub open spec fn liquid_for(rate: Ratio, staking: Balance) -> Option<Balance> {
    scaled(rate.inner as int, staking as int)
}

/// The staking amount that `liquid` converts to, or nothing where it leaves
/// the numeric range.
pub open spec fn staking_for(rate: Ratio, fallback: Ratio, liquid: Balance) -> Option<Balance> {
    scaled(reverse_rate(rate, fallback).inner as int, liquid as int)
}

/// A share of an amount never exceeds the amount.
pub proof fn lemma_permill_of_bounds(parts: int, x: int)
    requires
        0 <= parts <= PERMILL_MAX,
        0 <= x,
    ensures
        0 <= permill_of(parts, x) <= x,
{
    let m = 1_000_000int;
    let whole = x / m;
    let rem = x % m;
    let prod = rem * parts;
    assert(0 <= prod <= rem * m) by (nonlinear_arith)
        requires
            0 <= rem,
            0 <= parts <= m,
            prod == rem * parts,
    ;
    assert(0 <= whole * parts <= whole * m) by (nonlinear_arith)
        requires
            0 <= whole,
            0 <= parts <= m,
    ;
    let k = prod / m;
    let f = prod % m;
    assert(prod == k * m + f);
    assert(x == whole * m + rem);
    if f > 500_000 {
        assert(k * m < rem * m);
        assert(k < rem) by (nonlinear_arith)
            requires
                k * m < rem * m,
                m > 0,
        ;
    } else {
        assert(k * m <= rem * m);
        assert(k <= rem) by (nonlinear_arith)
            requires
                k * m <= rem * m,
                m > 0,
        ;
    }
}

/// Rounding down keeps the order of raw products.
pub proof fn lemma_scaled_monotone(inner: int, a: int, b: int)
    requires
        0 <= inner,
        0 <= a <= b,
    ensures
        0 <= inner * a / (FIXED_DIV as int) <= inner * b / (FIXED_DIV as int),
{
    assert(0 <= inner * a <= inner * b) by (nonlinear_arith)
        requires
            0 <= inner,
            0 <= a <= b,
    ;
}

/// Converting with a ratio and back with its inverse never gains: both
/// roundings go down.
pub proof fn lemma_round_trip(x: int, y: int, a: int)
    requires
        0 <= x,
        0 <= y,
        x * y <= FIXED_DIV * FIXED_DIV,
        0 <= a,
    ensures
        0 <= y * (x * a / (FIXED_DIV as int)) / (FIXED_DIV as int) <= a,
{
    let d = FIXED_DIV as int;
    let mid = x * a / d;
    assert(0 <= x * a) by (nonlinear_arith)
        requires
            0 <= x,
            0 <= a,
    ;
    assert(0 <= mid && mid * d <= x * a);
    assert(0 <= y * mid) by (nonlinear_arith)
        requires
            0 <= y,
            0 <= mid,
    ;
    assert(y * mid * d <= d * d * a) by (nonlinear_arith)
        requires
            0 <= y,
            0 <= a,
            0 <= mid,
            mid * d <= x * a,
            x * y <= d * d,
    {
        assert(y * (mid * d) <= y * (x * a));
        assert(y * (x * a) == (x * y) * a);
        assert((x * y) * a <= (d * d) * a);
    }
    assert(y * mid <= d * a) by (nonlinear_arith)
        requires
            y * mid * d <= d * d * a,
            d > 0,
    ;
}

/// A ratio times its inverse is at most one.
pub proof fn lemma_inverse_product(inner: int)
    requires
        0 < inner,
    ensures
        0 <= (FIXED_DIV * FIXED_DIV) / inner,
        inner * ((FIXED_DIV * FIXED_DIV) / inner) <= FIXED_DIV * FIXED_DIV,
        (FIXED_DIV * FIXED_DIV) / inner <= u128::MAX,
{
    let n = FIXED_DIV * FIXED_DIV;
    assert(0 <= n / inner && inner * (n / inner) <= n && n / inner <= n) by (nonlinear_arith)
        requires
            0 < inner,
            0 <= n,
    ;
}

/// What a staking amount converts to, converted back, is at most the amount.
pub proof fn lemma_staking_round_trip(rate: Ratio, fallback: Ratio, staking: Balance, liquid: Balance)
    requires
        liquid_for(rate, staking) is Some,
        liquid <= liquid_for(rate, staking).unwrap(),
    ensures
        staking_for(rate, fallback, liquid) is Some,
        staking_for(rate, fallback, liquid).unwrap() <= staking,
{
    let d = FIXED_DIV as int;
    let r = rate.inner as int;
    let q = reverse_rate(rate, fallback).inner as int;
    let total = liquid_for(rate, staking).unwrap() as int;
    if r == 0 {
        assert(r * (staking as int) == 0) by (nonlinear_arith)
            requires
                r == 0,
        ;
        assert(total == 0);
        assert(q * (liquid as int) == 0) by (nonlinear_arith)
            requires
                liquid == 0,
        ;
    } else {
        lemma_inverse_product(r);
        assert(q == (FIXED_DIV * FIXED_DIV) / r);
        lemma_round_trip(r, q, staking as int);
        lemma_scaled_monotone(q, liquid as int, total);
    }
}

/// What a liquid amount converts to, or less, converted back, is at most the
/// liquid amount.
pub proof fn lemma_liquid_round_trip(rate: Ratio, fallback: Ratio, liquid: Balance, staking: Balance)
    requires
        staking_for(rate, fallback, liquid) is Some,
        staking <= staking_for(rate, fallback, liquid).unwrap(),
    ensures
        liquid_for(rate, staking) is Some,
        liquid_for(rate, staking).unwrap() <= liquid,
{
    let d = FIXED_DIV as int;
    let r = rate.inner as int;
    let q = reverse_rate(rate, fallback).inner as int;
    let back = staking_for(rate, fallback, liquid).unwrap() as int;
    if r == 0 {
        assert(r * (staking as int) == 0) by (nonlinear_arith)
            requires
                r == 0,
        ;
    } else {
        lemma_inverse_product(r);
        assert(q == (FIXED_DIV * FIXED_DIV) / r);
        assert(q * r == r * q) by (nonlinear_arith);
        lemma_round_trip(q, r, liquid as int);
        lemma_scaled_monotone(r, staking as int, back);
    }
}

} // verus!
