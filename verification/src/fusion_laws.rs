//! What holds of the way from readings to candidates, section by section of the
//! configuration.

use crate::binary64;
use crate::binary64::{Binary64, Number};
use crate::config::{CurvePoint, PowerUnit, SignalsConfig, ThrottleReason};
use crate::curve;
use crate::curve_laws;
use crate::rounding;
use crate::rounding::TWO_53;
use crate::signals;
use crate::signals::{
    Conditioned, SignalKind, SignalReadings, Smoothing, ThrottleFlags, ThrottleLatch,
};
use vstd::arithmetic::power2::*;
use vstd::prelude::*;

verus! {

/// The order in which ties are broken: the memory, the margin, the GPU, its
/// power, the CPU.
pub proof fn law_order_of_signals(k: SignalKind)
    ensures
        SignalKind::MemTemp.rank() == 0,
        SignalKind::ThermalMargin.rank() == 1,
        SignalKind::GpuTemp.rank() == 2,
        SignalKind::GpuPower.rank() == 3,
        SignalKind::CpuTemp.rank() == 4,
        SignalKind::nth(k.rank()) == k,
{
}

/// A curve of a signal's own is the only one that counts: what the top curve
/// says then makes no difference. The power, the margin and the memory never look
/// at the top curve.
pub proof fn law_own_curve_decides(
    cfg: SignalsConfig,
    top: Seq<CurvePoint>,
    other_top: Seq<CurvePoint>,
    cond: Conditioned,
)
    ensures
        cfg.gpu_temp.curve@.len() > 0 ==> signals::asked(cfg, top, cond, SignalKind::GpuTemp)
            == signals::asked(cfg, other_top, cond, SignalKind::GpuTemp),
        cfg.cpu_temp.curve@.len() > 0 ==> signals::asked(cfg, top, cond, SignalKind::CpuTemp)
            == signals::asked(cfg, other_top, cond, SignalKind::CpuTemp),
        signals::asked(cfg, top, cond, SignalKind::GpuPower) == signals::asked(
            cfg,
            other_top,
            cond,
            SignalKind::GpuPower,
        ),
        signals::asked(cfg, top, cond, SignalKind::ThermalMargin) == signals::asked(
            cfg,
            other_top,
            cond,
            SignalKind::ThermalMargin,
        ),
        signals::asked(cfg, top, cond, SignalKind::MemTemp) == signals::asked(
            cfg,
            other_top,
            cond,
            SignalKind::MemTemp,
        ),
{
}

/// Every signal that is on, has a value and has a curve of its own asks for what
/// that curve gives for it: as it is for the GPU, the memory and the margin, with
/// the offset of its own section taken off for the CPU, in watts or in percent of
/// the limit for the power.
pub proof fn law_candidates_follow_their_curves(
    cfg: SignalsConfig,
    top: Seq<CurvePoint>,
    cond: Conditioned,
)
    ensures
        cfg.mem_temp.enabled && cfg.mem_temp.curve@.len() > 0 ==> (cond.values@[0] matches Some(v)
            ==> (signals::asked(cfg, top, cond, SignalKind::MemTemp) matches Some(c) && c.kind
            == SignalKind::MemTemp && c.value == v && c.duty == curve::interpolated(
            cfg.mem_temp.curve@,
            v@,
        ))),
        cfg.thermal_margin.enabled && cfg.thermal_margin.curve@.len() > 0 ==> (
        cond.values@[1] matches Some(v) ==> (signals::asked(
            cfg,
            top,
            cond,
            SignalKind::ThermalMargin,
        ) matches Some(c) && c.kind == SignalKind::ThermalMargin && c.value == v && c.duty
            == curve::interpolated(cfg.thermal_margin.curve@, v@))),
        cfg.gpu_temp.enabled && cfg.gpu_temp.curve@.len() > 0 ==> (cond.values@[2] matches Some(v)
            ==> (signals::asked(cfg, top, cond, SignalKind::GpuTemp) matches Some(c) && c.kind
            == SignalKind::GpuTemp && c.value == v && c.duty == curve::interpolated(
            cfg.gpu_temp.curve@,
            v@,
        ))),
        cfg.gpu_power.enabled && cfg.gpu_power.curve@.len() > 0 && cfg.gpu_power.unit
            == PowerUnit::Watts ==> (cond.values@[3] matches Some(v) ==> (signals::asked(
            cfg,
            top,
            cond,
            SignalKind::GpuPower,
        ) matches Some(c) && c.kind == SignalKind::GpuPower && c.value == v && c.duty
            == curve::interpolated(cfg.gpu_power.curve@, v@))),
        cfg.cpu_temp.enabled && cfg.cpu_temp.curve@.len() > 0 ==> (cond.values@[4] matches Some(v)
            ==> (signals::asked(cfg, top, cond, SignalKind::CpuTemp) matches Some(c) && c.kind
            == SignalKind::CpuTemp && c.value == v && c.duty == curve::interpolated(
            cfg.cpu_temp.curve@,
            v@.difference(cfg.cpu_temp.offset_c@),
        ))),
{
}

/// Without a curve of their own, the two die temperatures follow the top curve,
/// and the other signals ask for nothing. A section that is off asks for nothing
/// whatever it holds.
pub proof fn law_candidates_without_a_curve(
    cfg: SignalsConfig,
    top: Seq<CurvePoint>,
    cond: Conditioned,
)
    requires
        top.len() > 0,
    ensures
        cfg.gpu_temp.enabled && cfg.gpu_temp.curve@.len() == 0 ==> (cond.values@[2] matches Some(v)
            ==> (signals::asked(cfg, top, cond, SignalKind::GpuTemp) matches Some(c) && c.duty
            == curve::interpolated(top, v@))),
        cfg.cpu_temp.enabled && cfg.cpu_temp.curve@.len() == 0 ==> (cond.values@[4] matches Some(v)
            ==> (signals::asked(cfg, top, cond, SignalKind::CpuTemp) matches Some(c) && c.duty
            == curve::interpolated(top, v@.difference(cfg.cpu_temp.offset_c@)))),
        cfg.mem_temp.curve@.len() == 0 ==> signals::asked(cfg, top, cond, SignalKind::MemTemp)
            is None,
        cfg.thermal_margin.curve@.len() == 0 ==> signals::asked(
            cfg,
            top,
            cond,
            SignalKind::ThermalMargin,
        ) is None,
        cfg.gpu_power.curve@.len() == 0 ==> signals::asked(cfg, top, cond, SignalKind::GpuPower)
            is None,
        !cfg.mem_temp.enabled ==> signals::asked(cfg, top, cond, SignalKind::MemTemp) is None,
        !cfg.thermal_margin.enabled ==> signals::asked(cfg, top, cond, SignalKind::ThermalMargin)
            is None,
        !cfg.gpu_temp.enabled ==> signals::asked(cfg, top, cond, SignalKind::GpuTemp) is None,
        !cfg.gpu_power.enabled ==> signals::asked(cfg, top, cond, SignalKind::GpuPower) is None,
        !cfg.cpu_temp.enabled ==> signals::asked(cfg, top, cond, SignalKind::CpuTemp) is None,
        cond.values@[0] is None ==> signals::asked(cfg, top, cond, SignalKind::MemTemp) is None,
        cond.values@[1] is None ==> signals::asked(cfg, top, cond, SignalKind::ThermalMargin)
            is None,
        cond.values@[2] is None ==> signals::asked(cfg, top, cond, SignalKind::GpuTemp) is None,
        cond.values@[3] is None ==> signals::asked(cfg, top, cond, SignalKind::GpuPower) is None,
        cond.values@[4] is None ==> signals::asked(cfg, top, cond, SignalKind::CpuTemp) is None,
{
}

/// The quotient of two whole numbers that divide is whole.
pub proof fn lemma_whole_quotient(n: nat, d: nat, q: nat)
    requires
        0 < d < TWO_53,
        n < TWO_53,
        n == q * d,
    ensures
        binary64::whole(n).quotient(binary64::whole(d)) == binary64::whole(q),
{
    let one = binary64::one_unit();
    lemma_pow2_pos(1074);
    assert(q <= n) by (nonlinear_arith)
        requires
            n == q * d,
            d >= 1,
    ;
    binary64::lemma_whole_exact(n);
    binary64::lemma_whole_exact(d);
    binary64::lemma_whole_exact(q);
    assert(d * one > 0) by (nonlinear_arith)
        requires
            d > 0,
            one > 0,
    ;
    assert(((n * one) * one) * 1 == (q * one) * (d * one)) by (nonlinear_arith)
        requires
            n == q * d,
    ;
    rounding::lemma_round53_same_quotient((n * one) * one, d * one, q * one, 1);
    rounding::lemma_round53_exact(q, 1074);
}

/// The difference of two whole numbers is whole.
pub proof fn lemma_whole_difference(a: nat, b: nat)
    requires
        b <= a < TWO_53,
    ensures
        binary64::whole(a).difference(binary64::whole(b)) == binary64::whole((a - b) as nat),
{
    let one = binary64::one_unit();
    lemma_pow2_pos(1074);
    binary64::lemma_whole_exact(a);
    binary64::lemma_whole_exact(b);
    binary64::lemma_whole_exact((a - b) as nat);
    assert(a * one - b * one == (a - b) * one) by (nonlinear_arith);
    rounding::lemma_round53_exact((a - b) as nat, 1074);
    if a == b {
        assert(0 * one == 0);
    } else {
        assert((a - b) * one > 0) by (nonlinear_arith)
            requires
                a > b,
                one > 0,
        ;
    }
}

/// The product of two small whole numbers is whole.
pub proof fn lemma_whole_product(a: nat, b: nat)
    requires
        a < TWO_53,
        b < TWO_53,
        a * b < TWO_53,
    ensures
        binary64::whole(a).product(binary64::whole(b)) == binary64::whole(a * b),
{
    let one = binary64::one_unit();
    lemma_pow2_pos(1074);
    binary64::lemma_whole_exact(a);
    binary64::lemma_whole_exact(b);
    binary64::lemma_whole_exact(a * b);
    assert(((a * one) * (b * one)) * 1 == ((a * b) * one) * one) by (nonlinear_arith);
    rounding::lemma_round53_same_quotient((a * one) * (b * one), one, (a * b) * one, 1);
    rounding::lemma_round53_exact(a * b, 1074);
}

/// Where a whole value stands on the curve of its signal: the power in percent of
/// its limit, a hundred at the limit itself; the CPU by its offset lower; the
/// others where they are.
pub proof fn law_inputs_of_whole_values(
    cfg: SignalsConfig,
    limit: Binary64,
    watts: nat,
    limit_watts: nat,
    percent: nat,
    degrees: nat,
    offset: nat,
)
    requires
        limit@ == binary64::whole(limit_watts),
        0 < limit_watts < TWO_53,
        100 * watts < TWO_53,
        100 * watts == percent * limit_watts,
        cfg.cpu_temp.offset_c@ == binary64::whole(offset),
        offset <= degrees < TWO_53,
    ensures
        cfg.gpu_power.unit == PowerUnit::PercentTdp ==> signals::curve_input(
            cfg,
            Some(limit),
            SignalKind::GpuPower,
            binary64::whole(watts),
        ) == Some(binary64::whole(percent)),
        cfg.gpu_power.unit == PowerUnit::Watts ==> signals::curve_input(
            cfg,
            Some(limit),
            SignalKind::GpuPower,
            binary64::whole(watts),
        ) == Some(binary64::whole(watts)),
        signals::curve_input(
            cfg,
            Some(limit),
            SignalKind::CpuTemp,
            binary64::whole(degrees),
        ) == Some(binary64::whole((degrees - offset) as nat)),
{
    binary64::law_naturals_keep_their_order(0, limit_watts);
    lemma_whole_product(100, watts);
    lemma_whole_quotient(100 * watts, limit_watts, percent);
    lemma_whole_difference(degrees, offset);
}

/// Each signal is read from the field of its name.
pub proof fn law_readings_by_name(raw: SignalReadings)
    ensures
        raw.of(SignalKind::MemTemp) == raw.mem_temp_c,
        raw.of(SignalKind::ThermalMargin) == raw.thermal_margin_c,
        raw.of(SignalKind::GpuTemp) == raw.gpu_temp_c,
        raw.of(SignalKind::GpuPower) == raw.gpu_power_w,
        raw.of(SignalKind::CpuTemp) == raw.cpu_temp_c,
{
}

/// What is taken for true: temperatures from 1 to 125 degrees, a power from 1 to
/// 2000 watts, a headroom from 40 degrees too little to 200; the ends belong to
/// it, what lies outside and what is not a number does not.
pub proof fn law_plausible_ranges(k: SignalKind, x: Number)
    ensures
        !(k is GpuPower) && !(k is ThermalMargin) && binary64::whole(1).at_most(x) && x.at_most(
            binary64::whole(125),
        ) ==> signals::believable(k, x),
        !(k is ThermalMargin) && x.below(binary64::whole(1)) ==> !signals::believable(k, x),
        !(k is GpuPower) && !(k is ThermalMargin) && binary64::whole(125).below(x)
            ==> !signals::believable(k, x),
        k is GpuPower && binary64::whole(1).at_most(x) && x.at_most(binary64::whole(2000))
            ==> signals::believable(k, x),
        k is GpuPower && binary64::whole(2000).below(x) ==> !signals::believable(k, x),
        k is ThermalMargin && binary64::whole(40).negated().at_most(x) && x.at_most(
            binary64::whole(200),
        ) ==> signals::believable(k, x),
        k is ThermalMargin && (x.below(binary64::whole(40).negated())
            || binary64::whole(200).below(x)) ==> !signals::believable(k, x),
        !(x is Finite) ==> !signals::believable(k, x),
{
    signals::lemma_believable_is_finite(k, x);
    binary64::lemma_whole_exact(1);
    binary64::lemma_whole_exact(40);
    binary64::lemma_whole_exact(125);
    binary64::lemma_whole_exact(200);
    binary64::lemma_whole_exact(2000);
}

/// A reading that can be true reaches its filter as it is, and any other does
/// not.
pub proof fn law_samples_are_the_readings(raw: SignalReadings, k: SignalKind, v: Binary64)
    requires
        raw.of(k) == Some(v),
    ensures
        signals::believable(k, v@) ==> signals::sample_of(raw, k) == Some(v@),
        !signals::believable(k, v@) ==> signals::sample_of(raw, k) is None,
{
}

/// A filter goes by its rising constant exactly when the sample lies above what
/// it holds, and by its falling constant otherwise; the other one makes no
/// difference. A constant of one takes the sample, a constant of zero keeps what
/// was held.
pub proof fn law_filter_goes_by_direction(f: Smoothing, prev: Number, s: Number, other: Number)
    requires
        f.value == Some(prev),
    ensures
        prev.below(s) ==> (Smoothing { fall: other, ..f }).after(Some(s)).value == f.after(
            Some(s),
        ).value,
        !prev.below(s) ==> (Smoothing { rise: other, ..f }).after(Some(s)).value == f.after(
            Some(s),
        ).value,
        prev.below(s) ==> f.after(Some(s)).value == Some(signals::average(prev, s, f.rise)),
        !prev.below(s) ==> f.after(Some(s)).value == Some(signals::average(prev, s, f.fall)),
        f.after(Some(s)).rise == f.rise,
        f.after(Some(s)).fall == f.fall,
        f.output(Some(s)) == f.after(Some(s)).value,
{
}

/// Units that are a small whole number of a power of two survive rounding.
proof fn lemma_small(m: nat, e: nat)
    requires
        m < TWO_53,
        e <= 1074,
    ensures
        binary64::rounded(false, m * pow2(e), 1) == (Number::Finite {
            negative: false,
            units: m * pow2(e),
        }),
{
    rounding::lemma_round53_exact(m, e);
    binary64::lemma_whole_exact(m);
    lemma_pow2_adds(e, (1074 - e) as nat);
    lemma_pow2_pos((1074 - e) as nat);
    assert(m * pow2(e) <= m * (pow2(e) * pow2((1074 - e) as nat))) by (nonlinear_arith)
        requires
            pow2((1074 - e) as nat) >= 1,
    ;
}

/// The average weighs the sample with the constant and what was before with the
/// rest: for a constant of `k / 2^j` and whole numbers it is exactly
/// `(k * sample + (2^j - k) * prev) / 2^j`.
pub proof fn law_average_is_weighted(prev: nat, sample: nat, k: nat, j: nat)
    requires
        prev < 0x10_0000,
        sample < 0x10_0000,
        j <= 20,
        k <= pow2(j),
    ensures
        signals::average(
            binary64::whole(prev),
            binary64::whole(sample),
            curve_laws::dyadic(k, j),
        ) == curve_laws::dyadic((k * sample + (pow2(j) - k) * prev) as nat, j),
{
    let one = binary64::one_unit();
    let e = (1074 - j) as nat;
    let p = pow2(e);
    let w = pow2(j);
    let rest = (w - k) as nat;
    lemma_pow2_adds(j, e);
    lemma_pow2_pos(j);
    lemma_pow2_pos(e);
    lemma_pow2_pos(1074);
    assert(w <= 0x10_0000) by {
        lemma2_to64();
        if j < 20 {
            lemma_pow2_strictly_increases(j, 20);
        }
    }
    binary64::lemma_whole_exact(1);
    binary64::lemma_whole_exact(prev);
    binary64::lemma_whole_exact(sample);
    let alpha = curve_laws::dyadic(k, j);
    // The sample's part.
    assert(k * sample <= 0x10_0000 * 0x10_0000) by (nonlinear_arith)
        requires
            k <= 0x10_0000,
            sample < 0x10_0000,
    ;
    assert(((k * p) * (sample * one)) * 1 == ((k * sample) * p) * one) by (nonlinear_arith);
    rounding::lemma_round53_same_quotient((k * p) * (sample * one), one, (k * sample) * p, 1);
    lemma_small(k * sample, e);
    let a = alpha.product(binary64::whole(sample));
    assert(a == (Number::Finite { negative: false, units: (k * sample) * p }));
    // What is left of one.
    assert(1 * one == one);
    assert(one - k * p == rest * p) by (nonlinear_arith)
        requires
            one == w * p,
            rest == w - k,
    ;
    lemma_small(rest, e);
    let left = binary64::whole(1).difference(alpha);
    assert(left == (Number::Finite { negative: false, units: rest * p })) by {
        if rest == 0 {
            assert(0 * p == 0);
        } else {
            assert(rest * p > 0) by (nonlinear_arith)
                requires
                    rest > 0,
                    p > 0,
            ;
        }
    }
    // Its part.
    assert(rest * prev <= 0x10_0000 * 0x10_0000) by (nonlinear_arith)
        requires
            rest <= 0x10_0000,
            prev < 0x10_0000,
    ;
    assert(((rest * p) * (prev * one)) * 1 == ((rest * prev) * p) * one) by (nonlinear_arith);
    rounding::lemma_round53_same_quotient((rest * p) * (prev * one), one, (rest * prev) * p, 1);
    lemma_small(rest * prev, e);
    let b = left.product(binary64::whole(prev));
    assert(b == (Number::Finite { negative: false, units: (rest * prev) * p }));
    // Both together.
    let m = k * sample + rest * prev;
    assert((k * sample) * p + (rest * prev) * p == m * p) by (nonlinear_arith)
        requires
            m == k * sample + rest * prev,
    ;
    lemma_small(m, e);
}

/// A latch is set to the whole hold by the flag, and runs down by the seconds
/// without it.
pub proof fn law_latch_runs_down(l: ThrottleLatch, elapsed: u64)
    ensures
        l.after(true, elapsed).remaining_secs == l.hold_secs,
        l.after(true, elapsed).hold_secs == l.hold_secs,
        l.after(false, elapsed).hold_secs == l.hold_secs,
        elapsed <= l.remaining_secs ==> l.after(false, elapsed).remaining_secs + elapsed
            == l.remaining_secs,
        elapsed > l.remaining_secs ==> l.after(false, elapsed).remaining_secs == 0,
{
}

/// Each reason stands for its own flag, and several for any of theirs.
pub proof fn law_reasons_by_name(f: ThrottleFlags, reasons: Seq<ThrottleReason>, r: ThrottleReason)
    ensures
        f.has(ThrottleReason::SwThermal) == f.sw_thermal,
        f.has(ThrottleReason::HwThermal) == f.hw_thermal,
        f.has(ThrottleReason::HwPowerBrake) == f.hw_power_brake,
        f.has(ThrottleReason::SwPowerCap) == f.sw_power_cap,
        f.has_any(reasons.push(r)) <==> f.has_any(reasons) || f.has(r),
        !f.has_any(Seq::<ThrottleReason>::empty()),
{
    let more = reasons.push(r);
    if f.has_any(reasons) {
        let i = choose|i: int| 0 <= i < reasons.len() && f.has(#[trigger] reasons[i]);
        assert(f.has(more[i]));
    }
    if f.has(r) {
        assert(f.has(more[reasons.len() as int]));
    }
    if f.has_any(more) {
        let i = choose|i: int| 0 <= i < more.len() && f.has(#[trigger] more[i]);
        if i < reasons.len() {
            assert(f.has(reasons[i]));
        }
    }
}

/// A fresh filter smooths by the constants of its own section: the power by two,
/// the others by one.
pub proof fn law_filters_are_configured(cfg: SignalsConfig, k: SignalKind)
    ensures
        signals::fresh_filter(cfg, k).value is None,
        !(k is GpuPower) ==> signals::fresh_filter(cfg, k).rise == signals::fresh_filter(
            cfg,
            k,
        ).fall,
        signals::fresh_filter(cfg, SignalKind::MemTemp).rise == cfg.mem_temp.alpha@,
        signals::fresh_filter(cfg, SignalKind::ThermalMargin).rise == cfg.thermal_margin.alpha@,
        signals::fresh_filter(cfg, SignalKind::GpuTemp).rise == cfg.gpu_temp.alpha@,
        signals::fresh_filter(cfg, SignalKind::GpuPower).rise == cfg.gpu_power.rise_alpha@,
        signals::fresh_filter(cfg, SignalKind::GpuPower).fall == cfg.gpu_power.fall_alpha@,
        signals::fresh_filter(cfg, SignalKind::CpuTemp).rise == cfg.cpu_temp.alpha@,
{
}

} // verus!
