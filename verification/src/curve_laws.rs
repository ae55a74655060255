//! What holds of every fan curve.

use crate::binary64;
use crate::binary64::Number;
use crate::config::CurvePoint;
use crate::curve;
use crate::rounding;
use vstd::arithmetic::div_mod::*;
use vstd::arithmetic::power2::*;
use vstd::prelude::*;

verus! {

/// Rounding `n * one_unit()` gives it back.
proof fn lemma_round_whole(n: nat)
    requires
        n <= 255,
    ensures
        rounding::round53(n * binary64::one_unit(), 1) == n * binary64::one_unit(),
{
    rounding::lemma_round53_exact(n, 1074);
}

/// Between whole bytes, the nearest byte is between them too.
proof fn lemma_nearest_byte_between(units: nat, lo: u8, hi: u8)
    requires
        lo * binary64::one_unit() <= units <= hi * binary64::one_unit(),
    ensures
        lo <= (Number::Finite { negative: false, units }).nearest_byte() <= hi,
{
    let one = binary64::one_unit();
    lemma_pow2_pos(1074);
    let x = 2 * units + one;
    let d = 2 * one;
    lemma_div_is_ordered(2 * (lo * one) + one, x as int, d as int);
    lemma_div_is_ordered(x as int, 2 * (hi * one) + one, d as int);
    lemma_half_up(lo as nat);
    lemma_half_up(hi as nat);
}

proof fn lemma_half_up(n: nat)
    ensures
        (2 * (n * binary64::one_unit()) + binary64::one_unit()) / (2 * binary64::one_unit()) == n,
{
    let one = binary64::one_unit();
    lemma_pow2_pos(1074);
    let x = 2 * (n * one) + one;
    assert(x == n * (2 * one) + one) by (nonlinear_arith)
        requires
            x == 2 * (n * one) + one,
    ;
    lemma_fundamental_div_mod_converse(x as int, (2 * one) as int, n as int, one as int);
}

proof fn lemma_nearest_byte_monotone(u1: nat, u2: nat)
    requires
        u1 <= u2,
    ensures
        (Number::Finite { negative: false, units: u1 }).nearest_byte()
            <= (Number::Finite { negative: false, units: u2 }).nearest_byte(),
{
    let one = binary64::one_unit();
    lemma_pow2_pos(1074);
    lemma_div_is_ordered((2 * u1 + one) as int, (2 * u2 + one) as int, (2 * one) as int);
}

/// A fraction between zero and one.
pub open spec fn proper(f: Number) -> bool {
    f matches Number::Finite { negative, units } && !negative && units <= binary64::one_unit()
}

/// The difference of two bytes is exact.
proof fn lemma_byte_difference(x: u8, y: u8)
    ensures
        binary64::whole(y as nat).difference(binary64::whole(x as nat)) == (Number::Finite {
            negative: y < x,
            units: (curve::duty_gap(x, y) * binary64::one_unit()) as nat,
        }),
{
    let one = binary64::one_unit();
    lemma_pow2_pos(1074);
    binary64::lemma_whole_exact(x as nat);
    binary64::lemma_whole_exact(y as nat);
    let gap = curve::duty_gap(x, y) as nat;
    lemma_round_whole(gap);
    binary64::lemma_whole_exact(gap);
    assert(y * one - x * one == (y - x) * one) by (nonlinear_arith);
    assert(x * one - y * one == (x - y) * one) by (nonlinear_arith);
    if y < x {
        assert((x - y) * one > 0) by (nonlinear_arith)
            requires
                x > y,
                one > 0,
        ;
    } else if y > x {
        assert((y - x) * one > 0) by (nonlinear_arith)
            requires
                y > x,
                one > 0,
        ;
    } else {
        assert(0 * one == 0);
    }
}

/// Units of the step that a proper fraction takes over `gap` whole numbers.
pub open spec fn step_units(fu: nat, gap: nat) -> nat {
    rounding::round53(fu * gap, 1)
}

proof fn lemma_step(f: Number, x: u8, y: u8)
    requires
        proper(f),
    ensures
        ({
            let gap = curve::duty_gap(x, y) as nat;
            let su = step_units(f->units, gap);
            &&& su <= gap * binary64::one_unit()
            &&& f.product(binary64::whole(y as nat).difference(binary64::whole(x as nat)))
                == (Number::Finite { negative: y < x, units: su })
        }),
{
    let one = binary64::one_unit();
    lemma_pow2_pos(1074);
    lemma_byte_difference(x, y);
    let gap = curve::duty_gap(x, y) as nat;
    let fu = f->units;
    let su = step_units(fu, gap);
    assert((fu * (gap * one)) * 1 == (fu * gap) * one) by (nonlinear_arith);
    rounding::lemma_round53_same_quotient(fu * (gap * one), one, fu * gap, 1);
    assert((fu * gap) * 1 <= (gap * one) * 1) by (nonlinear_arith)
        requires
            fu <= one,
    ;
    rounding::lemma_round53_monotone(fu * gap, 1, gap * one, 1);
    lemma_round_whole(gap);
    binary64::lemma_whole_exact(gap);
}

/// The exact sum that a proper blend rounds.
pub open spec fn blend_exact(fu: nat, x: u8, y: u8) -> int {
    let su = step_units(fu, curve::duty_gap(x, y) as nat);
    if y < x {
        x * binary64::one_unit() - su
    } else {
        x * binary64::one_unit() + su
    }
}

pub proof fn lemma_blend_exact(f: Number, x: u8, y: u8)
    requires
        proper(f),
    ensures
        ({
            let e = blend_exact(f->units, x, y);
            let lo = if x < y { x } else { y };
            let hi = if x < y { y } else { x };
            &&& 0 <= lo * binary64::one_unit() <= e <= hi * binary64::one_unit()
            &&& lo * binary64::one_unit() <= rounding::round53(e as nat, 1)
                <= hi * binary64::one_unit()
            &&& curve::blend(f, x, y) == (Number::Finite {
                negative: false,
                units: rounding::round53(e as nat, 1),
            }).nearest_byte()
        }),
{
    let one = binary64::one_unit();
    lemma_pow2_pos(1074);
    binary64::lemma_whole_exact(x as nat);
    binary64::lemma_whole_exact(y as nat);
    lemma_step(f, x, y);
    let gap = curve::duty_gap(x, y) as nat;
    let e = blend_exact(f->units, x, y);
    let lo = if x < y { x } else { y };
    let hi = if x < y { y } else { x };
    assert(x * one - y * one == (x - y) * one) by (nonlinear_arith);
    assert(y * one - x * one == (y - x) * one) by (nonlinear_arith);
    assert(0 <= lo * one) by (nonlinear_arith)
        requires
            one > 0,
            lo >= 0,
    ;
    binary64::lemma_whole_exact(lo as nat);
    binary64::lemma_whole_exact(hi as nat);
    lemma_round_whole(lo as nat);
    lemma_round_whole(hi as nat);
    rounding::lemma_round53_monotone((lo * one) as nat, 1, e as nat, 1);
    rounding::lemma_round53_monotone(e as nat, 1, (hi * one) as nat, 1);
    if e == 0 {
        rounding::lemma_round53_exact(0, 0);
        lemma2_to64();
        assert(0 * pow2(0) == 0);
    }
}

/// A blend by a proper fraction stays between its ends.
pub proof fn lemma_blend_between(f: Number, x: u8, y: u8)
    requires
        proper(f),
    ensures
        x <= y ==> x <= curve::blend(f, x, y) <= y,
        y <= x ==> y <= curve::blend(f, x, y) <= x,
{
    lemma_blend_exact(f, x, y);
    let u = rounding::round53(blend_exact(f->units, x, y) as nat, 1);
    if x <= y {
        lemma_nearest_byte_between(u, x, y);
    } else {
        lemma_nearest_byte_between(u, y, x);
    }
}

/// A larger fraction moves further.
pub proof fn lemma_blend_monotone(f: Number, g: Number, x: u8, y: u8)
    requires
        proper(f),
        proper(g),
        f->units <= g->units,
        x <= y,
    ensures
        curve::blend(f, x, y) <= curve::blend(g, x, y),
{
    lemma_blend_exact(f, x, y);
    lemma_blend_exact(g, x, y);
    let gap = curve::duty_gap(x, y) as nat;
    assert((f->units * gap) * 1 <= (g->units * gap) * 1) by (nonlinear_arith)
        requires
            f->units <= g->units,
    ;
    rounding::lemma_round53_monotone(f->units * gap, 1, g->units * gap, 1);
    let e1 = blend_exact(f->units, x, y);
    let e2 = blend_exact(g->units, x, y);
    assert(e1 <= e2);
    rounding::lemma_round53_monotone(e1 as nat, 1, e2 as nat, 1);
    lemma_nearest_byte_monotone(
        rounding::round53(e1 as nat, 1),
        rounding::round53(e2 as nat, 1),
    );
}

/// `k / 2^j`, a whole number of parts of a power of two.
pub open spec fn dyadic(k: nat, j: nat) -> Number {
    Number::Finite { negative: false, units: k * pow2((1074 - j) as nat) }
}

/// The height at `k / 2^j` of the straight line from `x` to `y`, to the
/// nearest whole number, halves upwards.
pub open spec fn line_height(k: nat, j: nat, x: u8, y: u8) -> int {
    (2 * (x * pow2(j) + k * (y - x)) + pow2(j)) / (2 * pow2(j) as int)
}

/// No rounding happens on the way to a blend by a dyadic fraction.
proof fn lemma_dyadic_blend(k: nat, j: nat, x: u8, y: u8)
    requires
        j <= 40,
        k <= pow2(j),
    ensures
        proper(dyadic(k, j)),
        curve::blend(dyadic(k, j), x, y) == line_height(k, j, x, y),
{
    let one = binary64::one_unit();
    let p = pow2((1074 - j) as nat);
    let w = pow2(j);
    lemma_pow2_adds(j, (1074 - j) as nat);
    lemma_pow2_pos(j);
    lemma_pow2_pos((1074 - j) as nat);
    assert(w <= 0x100_0000_0000) by {
        lemma2_to64_rest();
        if j < 40 {
            lemma_pow2_strictly_increases(j, 40);
        }
    }
    assert(k * p <= w * p) by (nonlinear_arith)
        requires
            k <= w,
    ;
    let f = dyadic(k, j);
    let gap = curve::duty_gap(x, y) as nat;
    lemma_blend_exact(f, x, y);
    assert((k * p) * gap == (k * gap) * p) by (nonlinear_arith);
    assert(k * gap <= 0x100_0000_0000 * 255) by (nonlinear_arith)
        requires
            k <= 0x100_0000_0000,
            gap <= 255,
    ;
    rounding::lemma_round53_exact(k * gap, (1074 - j) as nat);
    let n = x * w + k * (y - x);
    assert(x * (w * p) + k * (y - x) * p == n * p) by (nonlinear_arith)
        requires
            n == x * w + k * (y - x),
    ;
    assert(k * (y - x) == if y < x { -(k * gap) } else { k * gap as int }) by (nonlinear_arith)
        requires
            gap == if y < x { x - y } else { y - x },
    ;
    assert(-(k * gap) * p == -((k * gap) * p)) by (nonlinear_arith);
    assert(0 <= n <= 255 * w) by (nonlinear_arith)
        requires
            n == x * w + k * (y - x),
            0 <= k <= w,
            0 <= x <= 255,
            0 <= y <= 255,
    ;
    let e = blend_exact(f->units, x, y);
    assert(e == n * p);
    rounding::lemma_round53_exact(n as nat, (1074 - j) as nat);
    let top = 2 * n + w;
    let d = 2 * w;
    assert(2 * (n * p) + w * p == p * top) by (nonlinear_arith)
        requires
            top == 2 * n + w,
    ;
    assert(2 * (w * p) == p * d) by (nonlinear_arith)
        requires
            d == 2 * w,
    ;
    lemma_common_factor(top, p as int, d as int);
    assert(0 <= n * p <= 255 * (w * p)) by (nonlinear_arith)
        requires
            0 <= n <= 255 * w,
            p > 0,
    ;
    let units = (n * p) as nat;
    lemma_nearest_byte_between(units, 0, 255);
    assert((2 * units + one) / (2 * one) == top / d as int);
    lemma_div_is_ordered(top, (255 * d + w) as int, d as int);
    lemma_fundamental_div_mod_converse((255 * d + w) as int, d as int, 255, w as int);
    lemma_div_pos_is_pos(top, d as int);
}

/// Dividing out a common factor keeps the quotient.
proof fn lemma_common_factor(a: int, p: int, d: int)
    requires
        0 <= a,
        0 < p,
        0 < d,
    ensures
        (p * a) / (p * d) == a / d,
{
    lemma_div_denominator(p * a, p, d);
    lemma_div_multiples_vanish(a, p);
}

/// A blend by what is not a number is zero.
proof fn lemma_blend_nan(x: u8, y: u8)
    ensures
        curve::blend(Number::NotANumber, x, y) == 0,
{
}

/// A positive exact difference rounds to something positive.
pub proof fn lemma_difference(t: Number, a: Number)
    requires
        t is Finite,
        a is Finite,
        a.below(t),
    ensures
        t.difference(a) == binary64::rounded(false, (t.signed() - a.signed()) as nat, 1),
        rounding::round53((t.signed() - a.signed()) as nat, 1) >= 1,
{
    rounding::lemma_round53_monotone(1, 1, (t.signed() - a.signed()) as nat, 1);
    rounding::lemma_round53_exact(1, 0);
    lemma2_to64();
}

pub proof fn lemma_one_below_overflow()
    ensures
        0 < binary64::one_unit() < binary64::overflow_units(),
{
    binary64::lemma_whole_exact(1);
    lemma_pow2_pos(1074);
}

/// The quotient of two positive magnitudes, the first at most the second.
pub proof fn lemma_proper_quotient(r1: nat, r2: nat)
    requires
        r1 <= r2,
        r2 > 0,
    ensures
        proper(
            (Number::Finite { negative: false, units: r1 }).quotient(
                (Number::Finite { negative: false, units: r2 }),
            ),
        ),
        (Number::Finite { negative: false, units: r1 }).quotient(
            (Number::Finite { negative: false, units: r2 }),
        )->units == rounding::round53(r1 * binary64::one_unit(), r2),
{
    let one = binary64::one_unit();
    lemma_one_below_overflow();
    assert((r1 * one) * 1 <= one * r2) by (nonlinear_arith)
        requires
            r1 <= r2,
    ;
    rounding::lemma_round53_monotone(r1 * one, r2, one, 1);
    rounding::lemma_round53_exact(1, 1074);
    assert(1 * one == one);
}

/// Left of `b` and not left of `a`, the fraction is proper or not a number.
proof fn lemma_fraction(t: Number, a: Number, b: Number)
    requires
        t.at_most(b),
        !t.at_most(a),
    ensures
        curve::fraction(t, a, b) is NotANumber || proper(curve::fraction(t, a, b)),
{
    lemma_one_below_overflow();
    if t is Finite && a is Finite {
        lemma_difference(t, a);
        let e1 = (t.signed() - a.signed()) as nat;
        if b is Finite {
            lemma_difference(b, a);
            let e2 = (b.signed() - a.signed()) as nat;
            rounding::lemma_round53_monotone(e1, 1, e2, 1);
            if b.difference(a) is Finite {
                lemma_proper_quotient(rounding::round53(e1, 1), rounding::round53(e2, 1));
            }
        }
    }
}

/// With finite ends whose distance is finite, the fraction is proper, and it
/// grows with `t`.
proof fn lemma_fraction_monotone(t1: Number, t2: Number, a: Number, b: Number)
    requires
        t1 is Finite,
        t2 is Finite,
        a is Finite,
        b is Finite,
        b.difference(a) is Finite,
        a.below(t1),
        t1.at_most(t2),
        t2.at_most(b),
    ensures
        proper(curve::fraction(t1, a, b)),
        proper(curve::fraction(t2, a, b)),
        curve::fraction(t1, a, b)->units <= curve::fraction(t2, a, b)->units,
{
    let one = binary64::one_unit();
    lemma_one_below_overflow();
    lemma_difference(t1, a);
    lemma_difference(t2, a);
    lemma_difference(b, a);
    let e1 = (t1.signed() - a.signed()) as nat;
    let e2 = (t2.signed() - a.signed()) as nat;
    let e = (b.signed() - a.signed()) as nat;
    rounding::lemma_round53_monotone(e1, 1, e2, 1);
    rounding::lemma_round53_monotone(e2, 1, e, 1);
    let r1 = rounding::round53(e1, 1);
    let r2 = rounding::round53(e2, 1);
    let r = rounding::round53(e, 1);
    lemma_proper_quotient(r1, r);
    lemma_proper_quotient(r2, r);
    assert((r1 * one) * r <= (r2 * one) * r) by (nonlinear_arith)
        requires
            r1 <= r2,
    ;
    rounding::lemma_round53_monotone(r1 * one, r, r2 * one, r);
}

/// At the right end of a segment the blend is the right duty.
proof fn lemma_segment_end(a: CurvePoint, b: CurvePoint)
    requires
        a.temp@ is Finite,
        b.temp@ is Finite,
        a.temp@.below(b.temp@),
        b.temp@.difference(a.temp@) is Finite,
    ensures
        curve::segment_duty(a, b, b.temp@) == b.duty,
{
    let one = binary64::one_unit();
    lemma_one_below_overflow();
    lemma_difference(b.temp@, a.temp@);
    let r = rounding::round53((b.temp@.signed() - a.temp@.signed()) as nat, 1);
    lemma_proper_quotient(r, r);
    assert((r * one) * 1 == one * r) by (nonlinear_arith);
    rounding::lemma_round53_same_quotient(r * one, r, one, 1);
    rounding::lemma_round53_exact(1, 1074);
    assert(1 * one == one);
    let f = curve::fraction(b.temp@, a.temp@, b.temp@);
    assert(f->units == one);
    let x = a.duty;
    let y = b.duty;
    let gap = curve::duty_gap(x, y) as nat;
    lemma_blend_exact(f, x, y);
    assert(one * gap == gap * one) by (nonlinear_arith);
    lemma_round_whole(gap);
    assert(x * one - (x - y) * one == y * one) by (nonlinear_arith);
    assert(x * one + (y - x) * one == y * one) by (nonlinear_arith);
    lemma_round_whole(y as nat);
    lemma_nearest_byte_between((y * one) as nat, y, y);
}

/// A curve whose temperatures are finite and strictly increasing, and no two
/// neighbours so far apart that their distance is not a finite number.
pub open spec fn proper_curve(points: Seq<CurvePoint>) -> bool {
    &&& points.len() > 0
    &&& forall|i: int| 0 <= i < points.len() ==> (#[trigger] points[i]).temp@ is Finite
    &&& forall|i: int, j: int|
        0 <= i < j < points.len() ==> (#[trigger] points[i]).temp@.below(
            (#[trigger] points[j]).temp@,
        )
    &&& forall|i: int, j: int|
        0 <= i && j == i + 1 && j < points.len() ==> (#[trigger] points[j]).temp@.difference(
            (#[trigger] points[i]).temp@,
        ) is Finite
}

proof fn lemma_duty_from_at_most(points: Seq<CurvePoint>, t: Number, i: int, hi: u8)
    requires
        1 <= i <= points.len(),
        forall|k: int| 0 <= k < points.len() ==> (#[trigger] points[k]).duty <= hi,
        !t.at_most(points[i - 1].temp@),
    ensures
        curve::duty_from(points, t, i) <= hi,
    decreases points.len() - i,
{
    if i < points.len() {
        if t.at_most(points[i].temp@) {
            let f = curve::fraction(t, points[i - 1].temp@, points[i].temp@);
            lemma_fraction(t, points[i - 1].temp@, points[i].temp@);
            if f is NotANumber {
                lemma_blend_nan(points[i - 1].duty, points[i].duty);
            } else {
                lemma_blend_between(f, points[i - 1].duty, points[i].duty);
            }
        } else {
            lemma_duty_from_at_most(points, t, i + 1, hi);
        }
    }
}

/// No curve, on no input, gives more than its largest duty.
pub proof fn law_interpolate_at_most(points: Seq<CurvePoint>, t: Number, hi: u8)
    requires
        points.len() > 0,
        forall|k: int| 0 <= k < points.len() ==> (#[trigger] points[k]).duty <= hi,
    ensures
        curve::interpolated(points, t) <= hi,
{
    if !t.at_most(points[0].temp@) && !points.last().temp@.at_most(t) {
        lemma_duty_from_at_most(points, t, 1, hi);
    }
}

proof fn lemma_duty_from_at_least(points: Seq<CurvePoint>, t: Number, i: int, lo: u8)
    requires
        proper_curve(points),
        1 <= i <= points.len(),
        forall|k: int| i - 1 <= k < points.len() ==> (#[trigger] points[k]).duty >= lo,
        t is Finite,
        points[i - 1].temp@.below(t),
    ensures
        curve::duty_from(points, t, i) >= lo,
    decreases points.len() - i,
{
    if i < points.len() {
        let a = points[i - 1];
        let b = points[i];
        if t.at_most(b.temp@) {
            lemma_fraction_monotone(t, t, a.temp@, b.temp@);
            lemma_blend_between(curve::fraction(t, a.temp@, b.temp@), a.duty, b.duty);
        } else {
            lemma_duty_from_at_least(points, t, i + 1, lo);
        }
    }
}

/// A proper curve never gives less than its least duty.
pub proof fn law_interpolate_at_least(points: Seq<CurvePoint>, t: Number, lo: u8)
    requires
        proper_curve(points),
        forall|k: int| 0 <= k < points.len() ==> (#[trigger] points[k]).duty >= lo,
    ensures
        curve::interpolated(points, t) >= lo,
{
    if t is NotANumber {
        lemma_nan_interpolates(points, 1);
    } else if !t.at_most(points[0].temp@) && !points.last().temp@.at_most(t) {
        lemma_duty_from_at_least(points, t, 1, lo);
    }
}

proof fn lemma_nan_interpolates(points: Seq<CurvePoint>, i: int)
    requires
        1 <= i <= points.len(),
    ensures
        curve::duty_from(points, Number::NotANumber, i) == points.last().duty,
    decreases points.len() - i,
{
    if i < points.len() {
        lemma_nan_interpolates(points, i + 1);
    }
}

/// Rising duties: hotter points never ask for less.
pub open spec fn rising(points: Seq<CurvePoint>) -> bool {
    forall|i: int, j: int|
        0 <= i <= j < points.len() ==> (#[trigger] points[i]).duty <= (#[trigger] points[j]).duty
}

proof fn lemma_duty_from_monotone(points: Seq<CurvePoint>, t1: Number, t2: Number, i: int)
    requires
        proper_curve(points),
        rising(points),
        1 <= i <= points.len(),
        t1 is Finite,
        t2 is Finite,
        t1.at_most(t2),
        points[i - 1].temp@.below(t1),
    ensures
        curve::duty_from(points, t1, i) <= curve::duty_from(points, t2, i),
    decreases points.len() - i,
{
    if i < points.len() {
        let a = points[i - 1];
        let b = points[i];
        if t2.at_most(b.temp@) {
            lemma_fraction_monotone(t1, t2, a.temp@, b.temp@);
            lemma_blend_monotone(
                curve::fraction(t1, a.temp@, b.temp@),
                curve::fraction(t2, a.temp@, b.temp@),
                a.duty,
                b.duty,
            );
        } else if t1.at_most(b.temp@) {
            lemma_fraction_monotone(t1, t1, a.temp@, b.temp@);
            lemma_blend_between(curve::fraction(t1, a.temp@, b.temp@), a.duty, b.duty);
            lemma_duty_from_at_least(points, t2, i + 1, b.duty);
        } else {
            lemma_duty_from_monotone(points, t1, t2, i + 1);
        }
    }
}

/// On a proper curve with rising duties, a higher temperature never gives a
/// lower duty.
pub proof fn law_interpolate_monotone(points: Seq<CurvePoint>, t1: Number, t2: Number)
    requires
        proper_curve(points),
        rising(points),
        t1.at_most(t2),
    ensures
        curve::interpolated(points, t1) <= curve::interpolated(points, t2),
{
    let first = points[0];
    let last = points.last();
    assert(last == points[points.len() - 1]);
    if t1.at_most(first.temp@) {
        law_interpolate_at_least(points, t2, first.duty);
    } else if last.temp@.at_most(t2) {
        law_interpolate_at_most(points, t1, last.duty);
    } else {
        lemma_duty_from_monotone(points, t1, t2, 1);
    }
}

proof fn lemma_duty_from_point(points: Seq<CurvePoint>, k: int, i: int)
    requires
        proper_curve(points),
        1 <= i <= k < points.len(),
    ensures
        curve::duty_from(points, points[k].temp@, i) == points[k].duty,
    decreases k - i,
{
    if i < k {
        assert(points[i].temp@.below(points[k].temp@));
        lemma_duty_from_point(points, k, i + 1);
    } else {
        lemma_segment_end(points[k - 1], points[k]);
    }
}

/// A proper curve passes through each of its points.
pub proof fn law_interpolate_hits_points(points: Seq<CurvePoint>, k: int)
    requires
        proper_curve(points),
        0 <= k < points.len(),
    ensures
        curve::interpolated(points, points[k].temp@) == points[k].duty,
{
    if k > 0 {
        assert(points[0].temp@.below(points[k].temp@));
        if k < points.len() - 1 {
            assert(points[k].temp@.below(points[points.len() - 1].temp@));
            lemma_duty_from_point(points, k, 1);
        }
    }
}

proof fn lemma_duty_from_nothing(points: Seq<CurvePoint>, t: Number, i: int)
    requires
        points.len() > 0,
        t is NotANumber,
    ensures
        curve::duty_from(points, t, i) == points.last().duty,
    decreases points.len() - i,
{
    if i < points.len() {
        lemma_duty_from_nothing(points, t, i + 1);
    }
}

/// Outside a curve its end duties hold: the first at and below the first point,
/// the last at and above the last point. What is not a temperature gets the last.
pub proof fn law_interpolate_keeps_the_ends(points: Seq<CurvePoint>, t: Number)
    requires
        points.len() > 0,
    ensures
        t.at_most(points[0].temp@) ==> curve::interpolated(points, t) == points[0].duty,
        points[0].temp@.below(t) && points[points.len() - 1].temp@.at_most(t)
            ==> curve::interpolated(points, t) == points[points.len() - 1].duty,
        t is NotANumber ==> curve::interpolated(points, t) == points[points.len() - 1].duty,
{
    if t is NotANumber {
        lemma_duty_from_nothing(points, t, 1);
    }
}

/// Where a temperature stands a whole number of `2^j`-th parts along a segment
/// between whole temperatures, its fraction is exact.
proof fn lemma_dyadic_fraction(tt: nat, ta: nat, tb: nat, k: nat, j: nat)
    requires
        ta < tt <= tb < rounding::TWO_53,
        j <= 40,
        k <= pow2(j),
        (tt - ta) * pow2(j) == k * (tb - ta),
    ensures
        curve::fraction(binary64::whole(tt), binary64::whole(ta), binary64::whole(tb)) == dyadic(
            k,
            j,
        ),
{
    let one = binary64::one_unit();
    let p = pow2((1074 - j) as nat);
    let w = pow2(j);
    let m = (tt - ta) as nat;
    let n = (tb - ta) as nat;
    lemma_pow2_adds(j, (1074 - j) as nat);
    lemma_pow2_pos(j);
    lemma_pow2_pos(1074);
    binary64::law_naturals_keep_their_order(ta, tt);
    binary64::law_naturals_keep_their_order(ta, tb);
    binary64::lemma_whole_exact(ta);
    binary64::lemma_whole_exact(tt);
    binary64::lemma_whole_exact(tb);
    binary64::lemma_whole_exact(m);
    binary64::lemma_whole_exact(n);
    lemma_difference(binary64::whole(tt), binary64::whole(ta));
    lemma_difference(binary64::whole(tb), binary64::whole(ta));
    assert(tt * one - ta * one == m * one) by (nonlinear_arith)
        requires
            m == tt - ta,
    ;
    assert(tb * one - ta * one == n * one) by (nonlinear_arith)
        requires
            n == tb - ta,
    ;
    rounding::lemma_round53_exact(m, 1074);
    rounding::lemma_round53_exact(n, 1074);
    assert(0 < n * one && m * one <= n * one) by (nonlinear_arith)
        requires
            0 < n,
            m <= n,
            0 < one,
    ;
    lemma_proper_quotient(m * one, n * one);
    assert(((m * one) * one) * 1 == (k * p) * (n * one)) by (nonlinear_arith)
        requires
            one == w * p,
            m * w == k * n,
    ;
    rounding::lemma_round53_same_quotient((m * one) * one, n * one, k * p, 1);
    assert(w <= rounding::TWO_53) by {
        lemma2_to64_rest();
        lemma_pow2_strictly_increases(j, 53);
    }
    rounding::lemma_round53_exact(k, (1074 - j) as nat);
}

pub proof fn lemma_duty_from_segment(points: Seq<CurvePoint>, t: Number, k: int, i: int)
    requires
        proper_curve(points),
        1 <= i <= k < points.len(),
        points[k - 1].temp@.below(t),
        t is Finite,
        t.at_most(points[k].temp@),
    ensures
        curve::duty_from(points, t, i) == curve::segment_duty(points[k - 1], points[k], t),
    decreases k - i,
{
    if i < k {
        assert(i < k - 1 ==> points[i].temp@.below(points[k - 1].temp@));
        lemma_duty_from_segment(points, t, k, i + 1);
    }
}

/// Between neighbouring points the duty lies on the straight line, to the
/// nearest whole number: at every temperature that stands a whole number of
/// `2^j`-th parts along a segment between whole temperatures.
pub proof fn law_interpolate_follows_the_line(
    points: Seq<CurvePoint>,
    i: int,
    tt: nat,
    ta: nat,
    tb: nat,
    k: nat,
    j: nat,
)
    requires
        proper_curve(points),
        1 <= i < points.len(),
        points[i - 1].temp@ == binary64::whole(ta),
        points[i].temp@ == binary64::whole(tb),
        ta < tt < tb < rounding::TWO_53,
        j <= 40,
        (tt - ta) * pow2(j) == k * (tb - ta),
    ensures
        curve::interpolated(points, binary64::whole(tt)) == line_height(
            k,
            j,
            points[i - 1].duty,
            points[i].duty,
        ),
{
    let t = binary64::whole(tt);
    let w = pow2(j);
    lemma_pow2_pos(j);
    assert(k <= w) by (nonlinear_arith)
        requires
            (tt - ta) * w == k * (tb - ta),
            0 < tt - ta < tb - ta,
            w > 0,
    ;
    binary64::law_naturals_keep_their_order(ta, tt);
    binary64::law_naturals_keep_their_order(tt, tb);
    binary64::lemma_whole_exact(tt);
    lemma_dyadic_fraction(tt, ta, tb, k, j);
    lemma_dyadic_blend(k, j, points[i - 1].duty, points[i].duty);
    let last = points.len() - 1;
    assert(points.last() == points[last]);
    assert(0 < i - 1 ==> points[0].temp@.below(points[i - 1].temp@));
    assert(i < last ==> points[i].temp@.below(points[last].temp@));
    lemma_duty_from_segment(points, t, i, 1);
}

} // verus!
