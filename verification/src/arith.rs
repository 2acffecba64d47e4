//! Exact integer arithmetic for prices, fees and amounts.

use vstd::arithmetic::div_mod::{lemma_div_is_ordered, lemma_fundamental_div_mod,
    lemma_hoist_over_denominator};
use vstd::arithmetic::mul::{lemma_mul_inequality, lemma_mul_is_commutative};
use vstd::prelude::*;

verus! {

/// `a * b / c`, rounded toward zero, over the mathematical integers.
pub open spec fn mul_div(a: int, b: int, c: int) -> int {
    (a * b) / c
}

/// Splitting both factors by the divisor leaves the quotient unchanged.
proof fn lemma_mul_div_split(a: int, b: int, c: int)
    requires
        0 <= a,
        0 <= b,
        0 < c,
    ensures
        mul_div(a, b, c) == c * ((a / c) * (b / c)) + (a / c) * (b % c) + (a % c) * (b / c) + ((a
            % c) * (b % c)) / c,
        0 <= (a / c) * (b / c),
        0 <= (a / c) * (b % c),
        0 <= (a % c) * (b / c),
        0 <= (a % c) * (b % c),
        (a / c) * (b / c) <= c * ((a / c) * (b / c)),
{
    let qa = a / c;
    let ra = a % c;
    let qb = b / c;
    let rb = b % c;
    lemma_fundamental_div_mod(a, c);
    lemma_fundamental_div_mod(b, c);
    assert(0 <= ra < c && 0 <= rb < c) by (nonlinear_arith)
        requires
            0 < c,
            ra == a % c,
            rb == b % c,
    ;
    assert(0 <= qa && 0 <= qb) by (nonlinear_arith)
        requires
            0 < c,
            0 <= a,
            0 <= b,
            qa == a / c,
            qb == b / c,
    ;
    let k = c * (qa * qb) + qa * rb + ra * qb;
    assert(a * b == ra * rb + k * c) by (nonlinear_arith)
        requires
            a == c * qa + ra,
            b == c * qb + rb,
            k == c * (qa * qb) + qa * rb + ra * qb,
    ;
    lemma_hoist_over_denominator(ra * rb, k, c as nat);
    assert(0 <= qa * qb && 0 <= qa * rb && 0 <= ra * qb && 0 <= ra * rb && qa * qb <= c * (qa
        * qb)) by (nonlinear_arith)
        requires
            0 <= qa,
            0 <= qb,
            0 <= ra,
            0 <= rb,
            1 <= c,
    ;
}

/// Computes `a * b / c` without losing bits to an intermediate overflow.
///
/// Returns `None` exactly when the quotient itself does not fit in 128 bits.
pub fn checked_mul_div(a: u128, b: u128, c: u64) -> (r: Option<u128>)
    requires
        c > 0,
    ensures
        match r {
            Some(q) => q == mul_div(a as int, b as int, c as int),
            None => mul_div(a as int, b as int, c as int) > u128::MAX,
        },
{
    let d: u128 = c as u128;
    let qa: u128 = a / d;
    let ra: u128 = a % d;
    let qb: u128 = b / d;
    let rb: u128 = b % d;
    proof {
        lemma_mul_div_split(a as int, b as int, c as int);
    }
    assert(ra * rb <= u128::MAX) by (nonlinear_arith)
        requires
            ra < d,
            rb < d,
            d <= u64::MAX,
    ;
    let low: u128 = (ra * rb) / d;
    let qq: u128 = match qa.checked_mul(qb) {
        Some(v) => v,
        None => { return None; },
    };
    let high: u128 = match qq.checked_mul(d) {
        Some(v) => v,
        None => {
            assert(qq * d == d * (qa * qb)) by (nonlinear_arith)
                requires
                    qq == qa * qb,
            ;
            return None;
        },
    };
    assert(high == c * ((a / d) * (b / d))) by (nonlinear_arith)
        requires
            high == qq * d,
            qq == qa * qb,
            qa == a / d,
            qb == b / d,
            d == c,
    ;
    let mid1: u128 = match qa.checked_mul(rb) {
        Some(v) => v,
        None => { return None; },
    };
    let mid2: u128 = match ra.checked_mul(qb) {
        Some(v) => v,
        None => { return None; },
    };
    let s1: u128 = match high.checked_add(mid1) {
        Some(v) => v,
        None => { return None; },
    };
    let s2: u128 = match s1.checked_add(mid2) {
        Some(v) => v,
        None => { return None; },
    };
    s2.checked_add(low)
}

/// A product divided by a divisor no smaller than one factor is bounded by
/// the other factor.
pub proof fn lemma_mul_div_bounded(a: int, b: int, c: int)
    requires
        0 <= a,
        0 <= b <= c,
        0 < c,
    ensures
        0 <= mul_div(a, b, c) <= a,
{
    lemma_mul_inequality(b, c, a);
    lemma_mul_is_commutative(a, b);
    lemma_mul_is_commutative(a, c);
    lemma_div_is_ordered(a * b, a * c, c);
    vstd::arithmetic::div_mod::lemma_div_multiples_vanish(a, c);
    assert(0 <= a * b) by (nonlinear_arith)
        requires
            0 <= a,
            0 <= b,
    ;
    lemma_div_is_ordered(0, a * b, c);
}

/// `mul_div` grows with its second factor.
pub proof fn lemma_mul_div_monotone(a: int, b1: int, b2: int, c: int)
    requires
        0 <= a,
        b1 <= b2,
        0 < c,
    ensures
        mul_div(a, b1, c) <= mul_div(a, b2, c),
{
    lemma_mul_inequality(b1, b2, a);
    lemma_mul_is_commutative(a, b1);
    lemma_mul_is_commutative(a, b2);
    lemma_div_is_ordered(a * b1, a * b2, c);
}

} // verus!
