//! What holds of every filter and of every fusion.

use crate::binary64;
use crate::binary64::{Binary64, Number};
use crate::config::{CurvePoint, PowerUnit, SignalsConfig};
use crate::config_laws;
use crate::curve_laws;
use crate::rounding;
use crate::signals;
use crate::signals::{
    Candidate, Conditioned, SignalKind, SignalReadings, Smoothing, ThrottleLatch,
};
use crate::validation;
use crate::validation::CurveName;
use vstd::arithmetic::power2::*;
use vstd::prelude::*;

verus! {

/// A reading that cannot be true is treated as one that is missing: the filter
/// keeps what it held.
pub proof fn law_implausible_is_missing(f: Smoothing, raw: SignalReadings, kind: SignalKind)
    requires
        raw.of(kind) matches Some(v) ==> !signals::believable(kind, v@),
    ensures
        f.after(signals::sample_of(raw, kind)) == f,
        f.output(signals::sample_of(raw, kind)) is None,
{
}

/// The first sample is taken as it is.
pub proof fn law_first_sample_seeds(f: Smoothing, s: Number)
    requires
        f.value is None,
    ensures
        f.after(Some(s)).value == Some(s),
        f.output(Some(s)) == Some(s),
{
}

/// A missing sample gives nothing and changes nothing, so the next one
/// continues from where the filter was.
pub proof fn law_missing_sample_holds(f: Smoothing, s: Option<Number>)
    ensures
        f.output(None) is None,
        f.after(None).after(s) == f.after(s),
        f.after(None).output(s) == f.output(s),
{
}

/// The units of a finite number survive rounding.
proof fn lemma_units_exact(x: Binary64)
    requires
        x@ is Finite,
    ensures
        rounding::round53(x@->units, 1) == x@->units,
{
    let a = (x.bits % binary64::SIGN_BIT) as nat;
    assert(x@->units == binary64::magnitude_units(a));
    let t = rounding::TWO_52 as nat;
    if a < t {
        rounding::lemma_round53_exact(a, 0);
        lemma2_to64();
    } else {
        rounding::lemma_round53_exact(t + a % t, (a / t - 1) as nat);
    }
}

/// With a smoothing constant of one, a filter follows its samples exactly.
pub proof fn law_alpha_one_follows(prev: Binary64, sample: Binary64)
    requires
        prev@ is Finite,
        sample@ is Finite,
    ensures
        signals::average(prev@, sample@, binary64::whole(1)).same(sample@),
{
    let one = binary64::one_unit();
    lemma_pow2_pos(1074);
    binary64::lemma_whole_exact(1);
    assert(1 * one == one);
    let u = sample@->units;
    lemma_units_exact(sample);
    assert((one * u) * 1 == u * one) by (nonlinear_arith);
    rounding::lemma_round53_same_quotient(one * u, one, u, 1);
    binary64::lemma_finite_below_overflow(sample);
    let rest = binary64::whole(1).difference(binary64::whole(1));
    rounding::lemma_round53_exact(0, 0);
    lemma2_to64();
    assert(0 * pow2(0) == 0);
    assert(rest == (Number::Finite { negative: false, units: 0 }));
    assert(0 * prev@->units == 0);
    rounding::lemma_round53_same_quotient(0, one, 0, 1);
    assert(rest.product(prev@) is Finite && rest.product(prev@)->units == 0);
    assert(binary64::whole(1).product(sample@) == sample@);
}

/// The seconds of several looks.
pub open spec fn total(looks: Seq<u64>) -> nat
    decreases looks.len(),
{
    if looks.len() == 0 {
        0
    } else {
        total(looks.drop_last()) + looks.last() as nat
    }
}

/// The latch after several looks at a flag that is not set.
pub open spec fn after_quiet(l: ThrottleLatch, looks: Seq<u64>) -> ThrottleLatch
    decreases looks.len(),
{
    if looks.len() == 0 {
        l
    } else {
        after_quiet(l, looks.drop_last()).after(false, looks.last())
    }
}

/// Once the flag was set, the latch holds for the hold and not longer, however
/// the time is cut into looks.
pub proof fn law_latch_holds_for_hold_secs(l: ThrottleLatch, elapsed: u64, looks: Seq<u64>)
    ensures
        ({
            let end = after_quiet(l.after(true, elapsed), looks);
            &&& end.hold_secs == l.hold_secs
            &&& end.remaining_secs == if total(looks) < l.hold_secs {
                l.hold_secs - total(looks)
            } else {
                0
            }
        }),
    decreases looks.len(),
{
    if looks.len() > 0 {
        law_latch_holds_for_hold_secs(l, elapsed, looks.drop_last());
    }
}

/// The target is never less than what any signal asks for, and without the
/// floor it is what one of them asks for.
pub proof fn law_target_covers_every_signal(
    candidates: Seq<Option<Candidate>>,
    floor: Option<u8>,
    i: int,
)
    requires
        0 <= i < candidates.len(),
        candidates[i] is Some,
    ensures
        signals::fused_target(signals::best(candidates), floor) matches Some(t) && t
            >= candidates[i]->0.duty,
        floor is None ==> exists|k: int|
            0 <= k < candidates.len() && (#[trigger] candidates[k]) is Some
                && signals::fused_target(signals::best(candidates), floor) == Some(
                candidates[k]->0.duty,
            ),
{
    lemma_someone_wins(candidates, i);
    let w = choose|w: int| signals::wins(candidates, w);
    assert(signals::wins(candidates, w));
    assert(candidates[w] is Some);
}

/// Whether the candidate at `i` asks for the most of the first `n`, and comes
/// first of those that do.
spec fn leads(candidates: Seq<Option<Candidate>>, n: int, i: int) -> bool {
    signals::wins(candidates.take(n), i)
}

proof fn lemma_leader(candidates: Seq<Option<Candidate>>, n: int, i: int)
    requires
        0 <= i < n <= candidates.len(),
        candidates[i] is Some,
    ensures
        exists|w: int| #[trigger] leads(candidates, n, w),
    decreases n,
{
    let part = candidates.take(n);
    if exists|j: int| 0 <= j < n - 1 && (#[trigger] candidates[j]) is Some {
        let j = choose|j: int| 0 <= j < n - 1 && (#[trigger] candidates[j]) is Some;
        lemma_leader(candidates, n - 1, j);
        let w = choose|w: int| #[trigger] leads(candidates, n - 1, w);
        assert(leads(candidates, n - 1, w));
        let less = candidates.take(n - 1);
        assert(forall|k: int| 0 <= k < n - 1 ==> #[trigger] part[k] == less[k]);
        let v = if part[n - 1] is Some && part[n - 1]->0.duty > part[w]->0.duty {
            n - 1
        } else {
            w
        };
        assert(part[w] == less[w]);
        assert(signals::wins(part, v)) by {
            assert forall|k: int| 0 <= k < part.len() && (#[trigger] part[k]) is Some implies
                part[k]->0.duty <= part[v]->0.duty by {
                if k < n - 1 {
                    assert(part[k] == less[k]);
                }
            }
            assert forall|k: int| 0 <= k < v && (#[trigger] part[k]) is Some implies
                part[k]->0.duty < part[v]->0.duty by {
                assert(part[k] == less[k]);
            }
        }
        assert(leads(candidates, n, v));
    } else {
        assert(i == n - 1);
        assert(signals::wins(part, i)) by {
            assert(forall|k: int| 0 <= k < n ==> #[trigger] part[k] == candidates[k]);
        }
        assert(leads(candidates, n, i));
    }
}

proof fn lemma_someone_wins(candidates: Seq<Option<Candidate>>, i: int)
    requires
        0 <= i < candidates.len(),
        candidates[i] is Some,
    ensures
        exists|w: int| signals::wins(candidates, w),
{
    lemma_leader(candidates, candidates.len() as int, i);
    let w = choose|w: int| #[trigger] leads(candidates, candidates.len() as int, w);
    assert(leads(candidates, candidates.len() as int, w));
    assert(candidates.take(candidates.len() as int) =~= candidates);
    assert(signals::wins(candidates, w));
}

/// No target without a signal or a floor.
pub proof fn law_no_target_from_nothing(candidates: Seq<Option<Candidate>>)
    requires
        forall|i: int| 0 <= i < candidates.len() ==> (#[trigger] candidates[i]) is None,
    ensures
        signals::best(candidates) is None,
        signals::fused_target(signals::best(candidates), None) is None,
{
    if exists|i: int| signals::wins(candidates, i) {
        let i = choose|i: int| signals::wins(candidates, i);
        assert(signals::wins(candidates, i));
    }
}

/// The floor only raises: with it the target is never less than without it,
/// and never less than the floor.
pub proof fn law_floor_only_raises(b: Option<Candidate>, floor: u8)
    ensures
        signals::fused_target(b, Some(floor)) matches Some(t) && t >= floor && (
        signals::fused_target(b, None) matches Some(u) ==> t >= u),
        floor <= signals::baseline(b) && b is Some ==> signals::fused_target(b, Some(floor))
            == signals::fused_target(b, None),
{
}

/// Two winners that ask for the same duty: the earlier signal is named.
pub proof fn law_ties_go_to_the_earlier_signal(
    candidates: Seq<Option<Candidate>>,
    i: int,
    j: int,
)
    requires
        0 <= i < j < candidates.len(),
        candidates[i] is Some,
        candidates[j] is Some,
        candidates[i]->0.duty == candidates[j]->0.duty,
    ensures
        !signals::wins(candidates, j),
{
    assert(candidates[i] is Some);
}

/// A signal that is off, or without a value, asks for nothing; nor does a power
/// in percent without a limit above zero.
pub proof fn law_silent_signals(
    cfg: SignalsConfig,
    top: Seq<CurvePoint>,
    cond: Conditioned,
    kind: SignalKind,
)
    requires
        !signals::switched_on(cfg, kind) || cond.values@[kind.rank()] is None || (kind
            == SignalKind::GpuPower && cfg.gpu_power.unit
            == PowerUnit::PercentTdp && !(cond.gpu_power_limit_w matches Some(l)
            && binary64::whole(0).below(l@))),
    ensures
        signals::asked(cfg, top, cond, kind) is None,
{
}

/// With an accepted configuration, every signal asks for a percentage, and so
/// does the floor.
pub proof fn law_signals_ask_for_percent(
    cfg: SignalsConfig,
    top: Seq<CurvePoint>,
    cond: Conditioned,
    kind: SignalKind,
    latched: bool,
)
    requires
        validation::signals_error(cfg) is None,
        config_laws::sound_curve(top),
    ensures
        signals::asked(cfg, top, cond, kind) matches Some(c) ==> c.duty <= 100,
        signals::active_floor(cfg, latched) matches Some(f) ==> f <= 100,
{
    let points = signals::followed_curve(cfg, top, kind);
    if signals::asked(cfg, top, cond, kind) is Some {
        let value = cond.values@[kind.rank()]->0@;
        let x = signals::curve_input(cfg, cond.gpu_power_limit_w, kind, value)->0;
        config_laws::law_curve_check_is_exact(CurveName::GpuTemp, points);
        config_laws::law_curve_check_is_exact(CurveName::CpuTemp, points);
        config_laws::law_curve_check_is_exact(CurveName::Power, points);
        config_laws::law_curve_check_is_exact(CurveName::Margin, points);
        config_laws::law_curve_check_is_exact(CurveName::MemTemp, points);
        curve_laws::law_interpolate_at_most(points, x, 100);
    }
}

} // verus!
