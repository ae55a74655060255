//! What holds of rounded arithmetic, whatever the operands.

use crate::binary64;
use crate::binary64::Number;
use crate::rounding;
use crate::rounding::{TWO_52, TWO_53};
use vstd::arithmetic::power2::*;
use vstd::prelude::*;

verus! {

/// Below 2 to the 53 the rounded quotient is the nearest integer, and of two
/// equally near ones the even one.
pub proof fn law_rounding_is_to_the_nearest(p: nat, q: nat)
    requires
        q > 0,
        p < q * TWO_53,
    ensures
        ({
            let r = rounding::round53(p, q);
            &&& 2 * p - q <= 2 * (r * q) <= 2 * p + q
            &&& 2 * (r * q) == 2 * p - q || 2 * (r * q) == 2 * p + q ==> r % 2 == 0
        }),
{
    rounding::lemma_nearest_int_bounds(p, q);
}

/// Above 2 to the 52 rounding goes by the leading bits alone: twice the quotient
/// is twice the result.
pub proof fn law_rounding_keeps_its_scale(p: nat, q: nat)
    requires
        q > 0,
        p >= q * TWO_52,
    ensures
        rounding::round53(2 * p, q) == 2 * rounding::round53(p, q),
{
    assert(2 * p >= q * TWO_53);
    assert((2 * p) * q == p * (2 * q)) by (nonlinear_arith);
    rounding::lemma_round53_same_quotient(2 * p, 2 * q, p, q);
}

/// Rounding passes no number: one of at most 53 bits that is not above the exact
/// quotient is not above the rounded one, and likewise below.
pub proof fn law_rounding_passes_no_number(p: nat, q: nat, m: nat, k: nat)
    requires
        q > 0,
        m <= TWO_53,
    ensures
        (m * pow2(k)) * q <= p ==> m * pow2(k) <= rounding::round53(p, q),
        (m * pow2(k)) * q >= p ==> m * pow2(k) >= rounding::round53(p, q),
{
    let v = m * pow2(k);
    rounding::lemma_round53_exact(m, k);
    assert(p * 1 == p);
    if v * q <= p {
        rounding::lemma_round53_monotone(v, 1, p, q);
    }
    if v * q >= p {
        rounding::lemma_round53_monotone(p, q, v, 1);
    }
}

/// Of two numbers exactly one is below the other, or they are the same. What is
/// not a number compares with nothing.
pub proof fn law_numbers_are_ordered(x: Number, y: Number)
    ensures
        x is NotANumber || y is NotANumber ==> !x.below(y) && !y.below(x) && !x.same(y)
            && !x.at_most(y),
        !(x is NotANumber) && !(y is NotANumber) ==> {
            &&& x.below(y) || x.same(y) || y.below(x)
            &&& !(x.below(y) && y.below(x))
            &&& x.same(y) ==> !x.below(y) && !y.below(x)
            &&& x.at_most(y) <==> !y.below(x)
        },
        x is Finite ==> x.below(Number::Infinite { negative: false }) && (
        Number::Infinite { negative: true }).below(x),
{
}

/// The order of numbers carries over.
pub proof fn law_order_is_transitive(x: Number, y: Number, z: Number)
    ensures
        x.below(y) && y.at_most(z) ==> x.below(z),
        x.at_most(y) && y.below(z) ==> x.below(z),
        x.at_most(y) && y.at_most(z) ==> x.at_most(z),
{
}

/// Sums and products do not depend on the order of their operands, and a
/// difference the other way round has the other sign, if it is not zero.
pub proof fn law_operands_may_be_swapped(x: Number, y: Number)
    ensures
        x.sum(y) == y.sum(x),
        x.product(y) == y.product(x),
        !x.same(y) ==> x.difference(y) == y.difference(x).negated(),
        x is Finite && x.same(y) ==> x.difference(y).signed() == 0,
{
    if let (Number::Finite { units: u1, .. }, Number::Finite { units: u2, .. }) = (x, y) {
        assert(u1 * u2 == u2 * u1) by (nonlinear_arith);
    }
}

/// Sums of whole numbers are whole, and differences too, with the sign of the
/// larger one.
pub proof fn law_whole_sums(a: nat, b: nat)
    requires
        a + b < TWO_53,
    ensures
        binary64::whole(a).sum(binary64::whole(b)) == binary64::whole(a + b),
        a < b ==> binary64::whole(a).difference(binary64::whole(b)) == binary64::whole(
            (b - a) as nat,
        ).negated(),
{
    let one = binary64::one_unit();
    lemma_pow2_pos(1074);
    binary64::lemma_whole_exact(a);
    binary64::lemma_whole_exact(b);
    binary64::lemma_whole_exact(a + b);
    assert(a * one + b * one == (a + b) * one) by (nonlinear_arith);
    rounding::lemma_round53_exact(a + b, 1074);
    if a + b == 0 {
        assert(0 * one == 0);
    } else {
        assert((a + b) * one > 0) by (nonlinear_arith)
            requires
                a + b > 0,
                one > 0,
        ;
    }
    if a < b {
        let d = (b - a) as nat;
        binary64::lemma_whole_exact(d);
        assert(a * one - b * one == -(d * one)) by (nonlinear_arith)
            requires
                d == b - a,
        ;
        assert(d * one > 0) by (nonlinear_arith)
            requires
                d > 0,
                one > 0,
        ;
        rounding::lemma_round53_exact(d, 1074);
    }
}

/// The nearest byte of a number is at most half away from it, and above it at
/// exactly half. Whole numbers up to 255 are their own. Above 255 it stays there,
/// below zero it is zero.
pub proof fn law_nearest_byte(units: nat, n: u8)
    ensures
        ({
            let one = binary64::one_unit();
            let b = (Number::Finite { negative: false, units }).nearest_byte();
            &&& b < 255 ==> 2 * (b * one) - one <= 2 * units < 2 * (b * one) + one
            &&& b == 255 ==> 2 * units >= 2 * (255 * one) - one
        }),
        (Number::Finite { negative: true, units }).nearest_byte() == 0,
        binary64::whole(n as nat).nearest_byte() == n,
        Number::NotANumber.nearest_byte() == 0,
        (Number::Infinite { negative: true }).nearest_byte() == 0,
        (Number::Infinite { negative: false }).nearest_byte() == 255,
{
    let one = binary64::one_unit();
    lemma_pow2_pos(1074);
    lemma_halves_up(units, one);
    binary64::lemma_whole_exact(n as nat);
    lemma_halves_up(n as nat * one, one);
    let k = (2 * (n as nat * one) + one) / (2 * one);
    assert(k == n) by (nonlinear_arith)
        requires
            2 * (k * one) - one <= 2 * (n as nat * one) < 2 * (k * one) + one,
            one > 0,
    ;
    let q = (2 * units + one) / (2 * one);
    if q > 255 {
        assert(2 * (255 * one) <= 2 * (q * one)) by (nonlinear_arith)
            requires
                q > 255,
                one > 0,
        ;
    }
}

proof fn lemma_halves_up(u: nat, one: nat)
    requires
        one > 0,
    ensures
        ({
            let q = (2 * u + one) / (2 * one);
            2 * (q * one) - one <= 2 * u < 2 * (q * one) + one
        }),
{
    let q = (2 * u + one) / (2 * one);
    let r = (2 * u + one) % (2 * one);
    vstd::arithmetic::div_mod::lemma_fundamental_div_mod((2 * u + one) as int, (2 * one) as int);
    assert((2 * one) * q == 2 * (q * one)) by (nonlinear_arith);
    assert(0 <= r < 2 * one);
}

} // verus!
