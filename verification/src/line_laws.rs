//! How close interpolated duties and colors are to the straight line.

use crate::binary64;
use crate::binary64::Number;
use crate::config::CurvePoint;
use crate::curve;
use crate::curve_laws;
use crate::rgb;
use crate::rgb::ColorStop;
use crate::rounding;
use crate::rounding::TWO_53;
use vstd::arithmetic::div_mod::*;
use vstd::arithmetic::power2::*;
use vstd::prelude::*;

verus! {

/// Whether `v` is at most `bound` from zero.
pub open spec fn within(v: int, bound: int) -> bool {
    -bound <= v <= bound
}

/// `width` times the distance of `d` from the line that goes from `x` to `y`
/// over `width`, at the place `along` it.
pub open spec fn off_line(d: u8, x: u8, y: u8, along: int, width: int) -> int {
    d * width - (x * width + (y - x) * along)
}

/// Whether `d` is the height of that line to the nearest whole number: no
/// further from it than a half, but for a 2 to the 42nd part.
pub open spec fn on_line(d: u8, x: u8, y: u8, along: int, width: int) -> bool {
    &&& within(
        0x400_0000_0000 * off_line(d, x, y, along, width),
        0x200_0000_0001 * width,
    )
    &&& -width < off_line(d, x, y, along, width) < width
}

proof fn lemma_scaled(k: int, v: int, bound: int)
    requires
        k >= 0,
        within(v, bound),
    ensures
        within(k * v, k * bound),
{
    assert(k * v <= k * bound) by (nonlinear_arith)
        requires
            k >= 0,
            v <= bound,
    ;
    assert(k * v >= -(k * bound)) by (nonlinear_arith)
        requires
            k >= 0,
            v >= -bound,
    ;
}

/// The rounded fraction of two rounded distances is close to the exact one.
proof fn lemma_fraction_error(d1: int, d2: int, r1: int, r2: int, f: int, one: int)
    requires
        0 < d1 <= d2,
        0 <= r1 <= r2,
        0 <= f <= one,
        within(TWO_53 * (r1 - d1), d1),
        within(TWO_53 * (r2 - d2), d2),
        within(TWO_53 * (f * r2 - r1 * one), 2 * one * r2),
    ensures
        within(TWO_53 * (f * d2 - d1 * one), 6 * (one * d2)),
{
    let m = TWO_53 as int;
    lemma_scaled(f, m * (r2 - d2), d2);
    lemma_scaled(one, m * (r1 - d1), d1);
    assert(f * d2 <= one * d2) by (nonlinear_arith)
        requires
            f <= one,
            d2 > 0,
    ;
    assert(one * d1 <= one * d2) by (nonlinear_arith)
        requires
            d1 <= d2,
            one >= 0,
    ;
    assert(2 * one * r2 <= 4 * (one * d2)) by (nonlinear_arith)
        requires
            r2 <= 2 * d2,
            one >= 0,
    ;
    assert(f * (m * (r2 - d2)) == m * (f * r2) - m * (f * d2)) by (nonlinear_arith);
    assert(one * (m * (r1 - d1)) == m * (r1 * one) - m * (d1 * one)) by (nonlinear_arith);
    assert(m * (f * r2 - r1 * one) == m * (f * r2) - m * (r1 * one)) by (nonlinear_arith);
    assert(m * (f * d2 - d1 * one) == m * (f * d2) - m * (d1 * one)) by (nonlinear_arith);
}

/// The nearest byte is at most half away.
proof fn lemma_nearest_byte_error(units: nat)
    requires
        units <= 255 * binary64::one_unit(),
    ensures
        within(
            2 * ((Number::Finite { negative: false, units }).nearest_byte()
                * binary64::one_unit() - units),
            binary64::one_unit() as int,
        ),
{
    let one = binary64::one_unit() as int;
    lemma_pow2_pos(1074);
    let top = 2 * units + one;
    let n = top / (2 * one);
    lemma_fundamental_div_mod(top, 2 * one);
    lemma_mod_bound(top, 2 * one);
    assert((2 * one) * n == 2 * (n * one)) by (nonlinear_arith);
    lemma_div_is_ordered(top, 255 * (2 * one) + one, 2 * one);
    lemma_fundamental_div_mod_converse(255 * (2 * one) + one, 2 * one, 255, one);
    lemma_div_pos_is_pos(top, 2 * one);
}

/// A blend by a fraction that is close to `d1 / d2` is close to the line.
proof fn lemma_blend_error(f: Number, d1: int, d2: int, x: u8, y: u8)
    requires
        0 < d1 <= d2,
        curve_laws::proper(f),
        within(
            TWO_53 * (f->units * d2 - d1 * binary64::one_unit()),
            6 * (binary64::one_unit() * d2),
        ),
    ensures
        on_line(curve::blend(f, x, y), x, y, d1, d2),
{
    let m = TWO_53 as int;
    let one = binary64::one_unit() as int;
    lemma_pow2_pos(1074);
    curve_laws::lemma_blend_exact(f, x, y);
    let fu = f->units as int;
    let gap = curve::duty_gap(x, y);
    let su = curve_laws::step_units(f->units, gap as nat) as int;
    let e = curve_laws::blend_exact(f->units, x, y);
    let r = rounding::round53(e as nat, 1) as int;
    let d = curve::blend(f, x, y);
    let unit = one * d2;
    // The rounding of the step, of the sum, and to a whole number.
    assert((f->units * (gap as nat)) as int == fu * gap);
    rounding::lemma_round53_relative(f->units * (gap as nat));
    rounding::lemma_round53_relative(e as nat);
    assert(fu * gap <= 255 * one) by (nonlinear_arith)
        requires
            0 <= fu <= one,
            0 <= gap <= 255,
    ;
    assert(x * one <= 255 * one && y * one <= 255 * one) by (nonlinear_arith)
        requires
            x <= 255,
            y <= 255,
            one > 0,
    ;
    lemma_nearest_byte_error(r as nat);
    lemma_scaled(d2, m * (su - fu * gap), 255 * one);
    lemma_scaled(d2, m * (r - e), 255 * one);
    lemma_scaled(d2, 2 * (d * one - r), one);
    lemma_scaled(gap, m * (fu * d2 - d1 * one), 6 * unit);
    assert(gap * (6 * unit) <= 1530 * unit) by (nonlinear_arith)
        requires
            0 <= gap <= 255,
            unit >= 0,
            unit == one * d2,
            one > 0,
            d2 > 0,
    ;
    assert(d2 * (255 * one) == 255 * unit && d2 * one == unit) by (nonlinear_arith)
        requires
            unit == one * d2,
    ;
    let off = off_line(d, x, y, d1, d2);
    let to_byte = d2 * (d * one - r);
    let in_sum = d2 * (r - e);
    let in_step = d2 * (su - fu * gap);
    let in_fraction = gap * (fu * d2 - d1 * one);
    assert(d2 * (2 * (d * one - r)) == 2 * to_byte) by (nonlinear_arith)
        requires
            to_byte == d2 * (d * one - r),
    ;
    assert(d2 * (m * (r - e)) == m * in_sum) by (nonlinear_arith)
        requires
            in_sum == d2 * (r - e),
    ;
    assert(d2 * (m * (su - fu * gap)) == m * in_step) by (nonlinear_arith)
        requires
            in_step == d2 * (su - fu * gap),
    ;
    assert(gap * (m * (fu * d2 - d1 * one)) == m * in_fraction) by (nonlinear_arith)
        requires
            in_fraction == gap * (fu * d2 - d1 * one),
    ;
    assert(to_byte == d2 * (d * one) - d2 * r) by (nonlinear_arith)
        requires
            to_byte == d2 * (d * one - r),
    ;
    assert(in_sum == d2 * r - d2 * e) by (nonlinear_arith)
        requires
            in_sum == d2 * (r - e),
    ;
    assert(in_step == d2 * su - d2 * (fu * gap)) by (nonlinear_arith)
        requires
            in_step == d2 * (su - fu * gap),
    ;
    assert(in_fraction == d2 * (fu * gap) - (gap * d1) * one) by (nonlinear_arith)
        requires
            in_fraction == gap * (fu * d2 - d1 * one),
    ;
    assert(off * one == d2 * (d * one) - d2 * (x * one) - ((y - x) * d1) * one) by (nonlinear_arith)
        requires
            off == d * d2 - (x * d2 + (y - x) * d1),
    ;
    if y < x {
        assert(d2 * e == d2 * (x * one) - d2 * su) by (nonlinear_arith)
            requires
                e == x * one - su,
        ;
        assert(((y - x) * d1) * one == -((gap * d1) * one)) by (nonlinear_arith)
            requires
                y - x == -gap,
        ;
        assert(off * one == to_byte + in_sum - in_step - in_fraction);
    } else {
        assert(d2 * e == d2 * (x * one) + d2 * su) by (nonlinear_arith)
            requires
                e == x * one + su,
        ;
        assert(y - x == gap);
        assert(off * one == to_byte + in_sum + in_step + in_fraction);
    }
    assert(within(TWO_53 * (off * one), 0x10_0000_0000_07f8 * unit));
    assert(TWO_53 * off <= 0x10_0000_0000_07f8 * d2) by (nonlinear_arith)
        requires
            TWO_53 * (off * one) <= 0x10_0000_0000_07f8 * unit,
            unit == one * d2,
            one > 0,
    ;
    assert(TWO_53 * off >= -(0x10_0000_0000_07f8 * d2)) by (nonlinear_arith)
        requires
            TWO_53 * (off * one) >= -(0x10_0000_0000_07f8 * unit),
            unit == one * d2,
            one > 0,
    ;
}

/// The fraction along a segment is close to the exact one.
proof fn lemma_segment_fraction(t: Number, a: Number, b: Number)
    requires
        t is Finite,
        a is Finite,
        b is Finite,
        b.difference(a) is Finite,
        a.below(t),
        t.at_most(b),
    ensures
        curve_laws::proper(curve::fraction(t, a, b)),
        within(
            TWO_53 * (curve::fraction(t, a, b)->units * (b.signed() - a.signed()) - (t.signed()
                - a.signed()) * binary64::one_unit()),
            6 * (binary64::one_unit() * (b.signed() - a.signed())),
        ),
{
    let m = TWO_53 as int;
    let one = binary64::one_unit();
    curve_laws::lemma_difference(t, a);
    curve_laws::lemma_difference(b, a);
    let d1 = (t.signed() - a.signed()) as nat;
    let d2 = (b.signed() - a.signed()) as nat;
    rounding::lemma_round53_monotone(d1, 1, d2, 1);
    rounding::lemma_round53_relative(d1);
    rounding::lemma_round53_relative(d2);
    let r1 = rounding::round53(d1, 1);
    let r2 = rounding::round53(d2, 1);
    curve_laws::lemma_proper_quotient(r1, r2);
    let f = curve::fraction(t, a, b)->units;
    rounding::lemma_round53_error(r1 * one, r2);
    assert(r1 * one <= one * r2) by (nonlinear_arith)
        requires
            r1 <= r2,
    ;
    assert(TWO_53 <= one) by {
        lemma2_to64_rest();
        lemma_pow2_strictly_increases(53, 1074);
    }
    assert(m * r2 <= one * r2) by (nonlinear_arith)
        requires
            m <= one,
    ;
    assert(2 * one * r2 == 2 * (one * r2)) by (nonlinear_arith);
    lemma_fraction_error(d1 as int, d2 as int, r1 as int, r2 as int, f as int, one as int);
}

/// Between neighbouring points, the duty at every finite temperature is the
/// height of the straight line, to the nearest whole number.
pub proof fn law_duty_follows_the_line(points: Seq<CurvePoint>, i: int, t: Number)
    requires
        curve_laws::proper_curve(points),
        1 <= i < points.len(),
        t is Finite,
        points[i - 1].temp@.below(t),
        t.at_most(points[i].temp@),
    ensures
        on_line(
            curve::interpolated(points, t),
            points[i - 1].duty,
            points[i].duty,
            t.signed() - points[i - 1].temp@.signed(),
            points[i].temp@.signed() - points[i - 1].temp@.signed(),
        ),
{
    let a = points[i - 1];
    let b = points[i];
    let last = points.len() - 1;
    let along = t.signed() - a.temp@.signed();
    let width = b.temp@.signed() - a.temp@.signed();
    assert(points.last() == points[last]);
    assert(0 < i - 1 ==> points[0].temp@.below(a.temp@));
    assert(i < last ==> b.temp@.below(points[last].temp@));
    if points[last].temp@.at_most(t) {
        lemma_line_end(a.duty, b.duty, width);
    } else {
        curve_laws::lemma_duty_from_segment(points, t, i, 1);
        lemma_segment_fraction(t, a.temp@, b.temp@);
        lemma_blend_error(
            curve::fraction(t, a.temp@, b.temp@),
            along,
            width,
            a.duty,
            b.duty,
        );
    }
}

/// The line ends where it is meant to.
proof fn lemma_line_end(x: u8, y: u8, width: int)
    requires
        width > 0,
    ensures
        on_line(y, x, y, width, width),
{
    assert(off_line(y, x, y, width, width) == 0) by (nonlinear_arith)
        requires
            off_line(y, x, y, width, width) == y * width - (x * width + (y - x) * width),
    ;
}

proof fn lemma_color_from_segment(stops: Seq<ColorStop>, duty: u8, k: int, i: int)
    requires
        1 <= i <= k < stops.len(),
        forall|a: int, b: int| 0 <= a < b < stops.len() ==> #[trigger] stops[a].duty
            < #[trigger] stops[b].duty,
        stops[k - 1].duty < duty <= stops[k].duty,
    ensures
        rgb::color_from(stops, duty, i) == rgb::mixed(
            curve::fraction(
                binary64::whole(duty as nat),
                binary64::whole(stops[k - 1].duty as nat),
                binary64::whole(stops[k].duty as nat),
            ),
            rgb::triple(stops[k - 1].color),
            rgb::triple(stops[k].color),
        ),
    decreases k - i,
{
    if i < k {
        assert(i < k - 1 ==> stops[i].duty < stops[k - 1].duty);
        lemma_color_from_segment(stops, duty, k, i + 1);
    }
}

/// The fraction between whole duties is close to the exact one.
proof fn lemma_duty_fraction(duty: u8, from: u8, to: u8)
    requires
        from < duty <= to,
    ensures
        ({
            let f = curve::fraction(
                binary64::whole(duty as nat),
                binary64::whole(from as nat),
                binary64::whole(to as nat),
            );
            &&& curve_laws::proper(f)
            &&& within(
                TWO_53 * (f->units * (to - from) - (duty - from) * binary64::one_unit()),
                6 * (binary64::one_unit() * (to - from)),
            )
        }),
{
    let m = TWO_53 as int;
    let one = binary64::one_unit() as int;
    let t = binary64::whole(duty as nat);
    let a = binary64::whole(from as nat);
    let b = binary64::whole(to as nat);
    lemma_pow2_pos(1074);
    binary64::lemma_whole_exact(duty as nat);
    binary64::lemma_whole_exact(from as nat);
    binary64::lemma_whole_exact(to as nat);
    binary64::lemma_whole_exact((to - from) as nat);
    binary64::law_naturals_keep_their_order(from as nat, duty as nat);
    binary64::law_naturals_keep_their_order(from as nat, to as nat);
    binary64::law_naturals_keep_their_order(duty as nat, to as nat);
    curve_laws::lemma_difference(b, a);
    assert(to * one - from * one == (to - from) * one) by (nonlinear_arith);
    assert(duty * one - from * one == (duty - from) * one) by (nonlinear_arith);
    lemma_segment_fraction(t, a, b);
    let f = curve::fraction(t, a, b)->units as int;
    let v = f * (to - from) - (duty - from) * one;
    let w = to - from;
    assert(f * (w * one) - ((duty - from) * one) * one == v * one) by (nonlinear_arith)
        requires
            v == f * w - (duty - from) * one,
    ;
    assert(m * v <= 6 * (one * w)) by (nonlinear_arith)
        requires
            m * (v * one) <= 6 * (one * (w * one)),
            one > 0,
    ;
    assert(m * v >= -(6 * (one * w))) by (nonlinear_arith)
        requires
            m * (v * one) >= -(6 * (one * (w * one))),
            one > 0,
    ;
}

/// Stops that rise from neighbour to neighbour rise throughout.
proof fn lemma_stops_rise(stops: Seq<ColorStop>, a: int, b: int)
    requires
        forall|k: int|
            #![trigger stops[k]]
            1 <= k < stops.len() ==> stops[k].duty > stops[k - 1].duty,
        0 <= a < b < stops.len(),
    ensures
        stops[a].duty < stops[b].duty,
    decreases b - a,
{
    assert(stops[b].duty > stops[b - 1].duty);
    if a < b - 1 {
        lemma_stops_rise(stops, a, b - 1);
    }
}

/// Between neighbouring stops, every part of the color of a duty is the height
/// of the straight line, to the nearest whole number.
pub proof fn law_color_follows_the_line(stops: Seq<ColorStop>, i: int, duty: u8)
    requires
        forall|k: int|
            #![trigger stops[k]]
            1 <= k < stops.len() ==> stops[k].duty > stops[k - 1].duty,
        1 <= i < stops.len(),
        stops[i - 1].duty < duty <= stops[i].duty,
    ensures
        ({
            let c = rgb::gradient(stops, duty);
            let x = rgb::triple(stops[i - 1].color);
            let y = rgb::triple(stops[i].color);
            let along = duty - stops[i - 1].duty;
            let width = stops[i].duty - stops[i - 1].duty;
            &&& on_line(c.0, x.0, y.0, along, width)
            &&& on_line(c.1, x.1, y.1, along, width)
            &&& on_line(c.2, x.2, y.2, along, width)
        }),
{
    let last = stops.len() - 1;
    let x = rgb::triple(stops[i - 1].color);
    let y = rgb::triple(stops[i].color);
    let along = duty - stops[i - 1].duty;
    let width = stops[i].duty - stops[i - 1].duty;
    assert forall|a: int, b: int| 0 <= a < b < stops.len() implies #[trigger] stops[a].duty
        < #[trigger] stops[b].duty by {
        lemma_stops_rise(stops, a, b);
    }
    assert(stops.last() == stops[last]);
    assert(0 < i - 1 ==> stops[0].duty < stops[i - 1].duty);
    assert(i < last ==> stops[i].duty < stops[last].duty);
    if duty >= stops[last].duty {
        lemma_line_end(x.0, y.0, width);
        lemma_line_end(x.1, y.1, width);
        lemma_line_end(x.2, y.2, width);
    } else {
        lemma_color_from_segment(stops, duty, i, 1);
        lemma_duty_fraction(duty, stops[i - 1].duty, stops[i].duty);
        let f = curve::fraction(
            binary64::whole(duty as nat),
            binary64::whole(stops[i - 1].duty as nat),
            binary64::whole(stops[i].duty as nat),
        );
        lemma_blend_error(f, along, width, x.0, y.0);
        lemma_blend_error(f, along, width, x.1, y.1);
        lemma_blend_error(f, along, width, x.2, y.2);
    }
}

} // verus!
