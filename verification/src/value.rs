//! Laws of the value of a decimal: what holds of numbers whatever scale
//! they are written with.

use crate::number::Decimal;
use vstd::arithmetic::power::{lemma_pow_adds, lemma_pow_positive, pow};
use vstd::prelude::*;

verus! {

/// Written with a larger scale, a mantissa has as many more powers of ten.
pub proof fn lemma_aligned_further(d: Decimal, near: int, far: int)
    requires
        d.scale <= near <= far,
    ensures
        d.aligned(far) == d.aligned(near) * pow(10, (far - near) as nat),
{
    let first = pow(10, (near - d.scale) as nat);
    let second = pow(10, (far - near) as nat);
    lemma_pow_adds(10, (near - d.scale) as nat, (far - near) as nat);
    assert((near - d.scale) as nat + (far - near) as nat == (far - d.scale) as nat);
    assert(d.unscaled * (first * second) == (d.unscaled * first) * second) by (nonlinear_arith);
}

/// Two numbers have the same value exactly when their mantissas are equal
/// at any one scale that is at least both of theirs.
pub proof fn lemma_same_value_at(x: Decimal, y: Decimal, scale: int)
    requires
        x.scale <= scale,
        y.scale <= scale,
    ensures
        x.same_value(y) <==> x.aligned(scale) == y.aligned(scale),
{
    let larger = if x.scale >= y.scale { x.scale } else { y.scale };
    let factor = pow(10, (scale - larger) as nat);
    lemma_aligned_further(x, larger, scale);
    lemma_aligned_further(y, larger, scale);
    lemma_pow_positive(10, (scale - larger) as nat);
    let a = x.aligned(larger);
    let b = y.aligned(larger);
    assert(a * factor == b * factor ==> a == b) by (nonlinear_arith)
        requires
            factor > 0,
    ;
}

/// Having the same value is an equivalence.
pub proof fn lemma_same_value_is_equivalence(x: Decimal, y: Decimal, z: Decimal)
    ensures
        x.same_value(x),
        x.same_value(y) ==> y.same_value(x),
        x.same_value(y) && y.same_value(z) ==> x.same_value(z),
{
    let xy = if x.scale >= y.scale { x.scale } else { y.scale };
    let scale = if xy >= z.scale { xy } else { z.scale };
    lemma_same_value_at(x, y, scale);
    lemma_same_value_at(y, z, scale);
    lemma_same_value_at(x, z, scale);
}

/// Numbers of the same value have products of the same value with any
/// third number.
pub proof fn lemma_product_keeps_value(x: Decimal, y: Decimal, factor: Decimal)
    requires
        x.same_value(y),
    ensures
        x.exact_product(factor).same_value(y.exact_product(factor)),
{
    let scale = if x.scale >= y.scale { x.scale } else { y.scale };
    let px = pow(10, (scale - x.scale) as nat);
    let py = pow(10, (scale - y.scale) as nat);
    assert(x.unscaled * px == y.unscaled * py);
    assert((scale + factor.scale - (x.scale + factor.scale)) as nat == (scale - x.scale) as nat);
    assert((scale + factor.scale - (y.scale + factor.scale)) as nat == (scale - y.scale) as nat);
    assert((x.unscaled * factor.unscaled) * px == (y.unscaled * factor.unscaled) * py)
        by (nonlinear_arith)
        requires
            x.unscaled * px == y.unscaled * py,
    ;
    lemma_same_value_at(x.exact_product(factor), y.exact_product(factor), scale + factor.scale);
}

/// A power is the next lower one times the base, and the power with the
/// exponent zero is one.
pub proof fn lemma_exact_power_unfolds(base: Decimal, exponent: nat)
    ensures
        base.exact_power(0) == Decimal::one(),
        base.exact_power(exponent + 1) == base.exact_power(exponent).exact_product(base),
{
    reveal(pow);
    assert(pow(base.unscaled, exponent + 1) == pow(base.unscaled, exponent) * base.unscaled)
        by (nonlinear_arith)
        requires
            pow(base.unscaled, exponent + 1) == base.unscaled * pow(base.unscaled, exponent),
    ;
    assert(base.scale * (exponent + 1) == base.scale * exponent + base.scale)
        by (nonlinear_arith);
    assert(base.scale * 0 == 0);
}

/// The difference of two numbers has the larger of their scales, and as its
/// mantissa the difference of theirs, each taken at that scale.
pub proof fn lemma_difference(a: Decimal, b: Decimal)
    ensures
        a.difference(b).scale == a.sum(b).scale,
        a.difference(b).unscaled == a.aligned(a.sum(b).scale) - b.aligned(a.sum(b).scale),
{
    let scale = a.sum(b).scale;
    let shift = pow(10, (scale - b.scale) as nat);
    assert((-b.unscaled) * shift == -(b.unscaled * shift)) by (nonlinear_arith);
}

/// The sum of two numbers has the value of the sum of their values: taken
/// at any scale that is at least both of theirs, the mantissas add up.
pub proof fn lemma_sum_value(a: Decimal, b: Decimal, scale: int)
    requires
        a.scale <= scale,
        b.scale <= scale,
    ensures
        a.sum(b).aligned(scale) == a.aligned(scale) + b.aligned(scale),
        a.difference(b).aligned(scale) == a.aligned(scale) - b.aligned(scale),
{
    let larger = a.sum(b).scale;
    let factor = pow(10, (scale - larger) as nat);
    lemma_aligned_further(a, larger, scale);
    lemma_aligned_further(b, larger, scale);
    lemma_aligned_further(b.negation(), larger, scale);
    let x = a.aligned(larger);
    let y = b.aligned(larger);
    assert((x + y) * factor == x * factor + y * factor) by (nonlinear_arith);
    let shift = pow(10, (larger - b.scale) as nat);
    assert((-b.unscaled) * shift == -(b.unscaled * shift)) by (nonlinear_arith);
    assert((x - y) * factor == x * factor - y * factor) by (nonlinear_arith);
    assert((-y) * factor == -(y * factor)) by (nonlinear_arith);
}

/// Numbers of the same value have sums of the same value with any third
/// number, and the order of the terms does not matter.
pub proof fn lemma_sum_keeps_value(x: Decimal, y: Decimal, term: Decimal)
    requires
        x.same_value(y),
    ensures
        x.sum(term).same_value(y.sum(term)),
        x.sum(term) == term.sum(x),
{
    let xy = if x.scale >= y.scale { x.scale } else { y.scale };
    let scale = if xy >= term.scale { xy } else { term.scale };
    lemma_same_value_at(x, y, scale);
    lemma_sum_value(x, term, scale);
    lemma_sum_value(y, term, scale);
    lemma_same_value_at(x.sum(term), y.sum(term), scale);
}

} // verus!
