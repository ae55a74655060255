use unifand::binary64::Binary64;
use unifand::config::{CurvePoint, PowerUnit, SignalsConfig};
use unifand::signals::{
    ewma, fuse, plausible, AsymEwma, Conditioned, SignalConditioner, SignalKind, SignalReadings,
    ThrottleLatch,
};

fn n(x: f64) -> Binary64 {
    Binary64::from_bits(x.to_bits())
}

fn v(x: Binary64) -> f64 {
    f64::from_bits(x.to_bits())
}

fn linear_curve() -> Vec<CurvePoint> {
    vec![
        CurvePoint { temp: n(0.0), duty: 0 },
        CurvePoint {
            temp: n(100.0),
            duty: 100,
        },
    ]
}

// -- ewma / AsymEwma -------------------------------------------------

#[test]
fn ewma_is_weighted_average() {
    assert_eq!(ewma(n(10.0), n(20.0), n(0.25)), n(12.5));
}

#[test]
fn asym_ewma_rises_faster_than_it_falls() {
    // Idle at about 17 W, the peak at 579 W, after the release 21 W.
    let mut f = AsymEwma::new(n(0.5), n(0.1));
    f.update(Some(n(17.0))); // seed
    let risen = v(f.update(Some(n(579.0))).unwrap());
    assert_eq!(risen, 0.5 * 579.0 + 0.5 * 17.0);

    let fallen = v(f.update(Some(n(21.0))).unwrap());
    assert!((fallen - (0.1 * 21.0 + 0.9 * risen)).abs() < 1e-9);

    let rise_frac = (risen - 17.0) / (579.0 - 17.0);
    let fall_frac = (risen - fallen) / (risen - 21.0);
    assert!(
        rise_frac > fall_frac,
        "rise_frac={rise_frac} should exceed fall_frac={fall_frac}"
    );
}

#[test]
fn asym_ewma_first_sample_seeds_directly() {
    let mut f = AsymEwma::new(n(0.5), n(0.1));
    assert_eq!(f.update(Some(n(42.0))), Some(n(42.0)));
    assert_eq!(f.value(), Some(n(42.0)));
}

#[test]
fn asym_ewma_missing_sample_holds_state() {
    let mut f = AsymEwma::new(n(0.5), n(0.1));
    f.update(Some(n(50.0)));
    assert_eq!(f.update(None), None);
    assert_eq!(f.value(), Some(n(50.0))); // held, not reset

    // Continues from the held state, not a cold-start reset.
    let next = v(f.update(Some(n(60.0))).unwrap());
    assert_eq!(next, 0.5 * 60.0 + 0.5 * 50.0);
}

#[test]
fn asym_ewma_reset_clears_state() {
    let mut f = AsymEwma::new(n(0.5), n(0.1));
    f.update(Some(n(50.0)));
    f.reset();
    assert_eq!(f.value(), None);
    // Next sample seeds directly again rather than blending with stale state.
    assert_eq!(f.update(Some(n(10.0))), Some(n(10.0)));
}

// -- plausible ---------------------------------------------------------

#[test]
fn plausible_rejects_zero_memory_temp() {
    assert!(!plausible(SignalKind::MemTemp, n(0.0)));
}

#[test]
fn plausible_rejects_non_finite() {
    assert!(!plausible(SignalKind::GpuTemp, n(f64::NAN)));
    assert!(!plausible(SignalKind::GpuTemp, n(f64::INFINITY)));
    assert!(!plausible(SignalKind::GpuPower, n(f64::NEG_INFINITY)));
}

#[test]
fn plausible_allows_negative_margin() {
    assert!(plausible(SignalKind::ThermalMargin, n(-10.0)));
    assert!(!plausible(SignalKind::ThermalMargin, n(-41.0)));
}

// -- SignalConditioner ---------------------------------------------------

#[test]
fn conditioner_drops_implausible_sample_without_poisoning_filter() {
    let mut cfg = SignalsConfig::default();
    cfg.mem_temp.alpha = n(0.5); // exercise blending explicitly rather than the default passthrough (alpha 1.0)
    let mut cond = SignalConditioner::new(&cfg);

    // Prime with a plausible reading; first sample seeds the filter directly.
    let primed = cond.update(&SignalReadings {
        mem_temp_c: Some(n(40.0)),
        ..Default::default()
    });
    assert_eq!(primed.values[SignalKind::MemTemp.idx()], Some(n(40.0)));

    // A dead sensor that reports a constant 0 instead of an error.
    // plausible() must reject it, and the
    // conditioner must feed the filter `None`, not the bad 0.0 sample —
    // the conditioned value must stay exactly at the primed value, not
    // be dragged toward zero.
    let after_bad_sample = cond.update(&SignalReadings {
        mem_temp_c: Some(n(0.0)),
        ..Default::default()
    });
    assert_eq!(
        after_bad_sample.values[SignalKind::MemTemp.idx()],
        None,
        "an implausible sample must not produce a fresh conditioned reading"
    );

    // Filter state itself must be untouched by the implausible sample:
    // the next *plausible* sample must blend from the primed value
    // (40.0), not from a poisoned/zeroed state.
    let after_good_sample = cond.update(&SignalReadings {
        mem_temp_c: Some(n(50.0)), // rise: 0.5*50 + 0.5*40 = 45.0
        ..Default::default()
    });
    assert_eq!(
        after_good_sample.values[SignalKind::MemTemp.idx()],
        Some(n(45.0))
    );
}

#[test]
fn conditioner_reset_gpu_preserves_cpu_filter() {
    let mut cfg = SignalsConfig::default();
    cfg.cpu_temp.alpha = n(0.5); // exercise blending explicitly rather than the default passthrough (alpha 1.0)
    let mut cond = SignalConditioner::new(&cfg);

    // Prime all five filters (first sample seeds each directly).
    cond.update(&SignalReadings {
        mem_temp_c: Some(n(40.0)),
        thermal_margin_c: Some(n(50.0)),
        gpu_temp_c: Some(n(60.0)),
        gpu_power_w: Some(n(100.0)),
        cpu_temp_c: Some(n(70.0)),
        ..Default::default()
    });

    cond.reset_gpu();

    // Feed a second, distinct sample to every signal. The four
    // GPU-derived filters were reset, so they must seed directly on
    // this new sample (conditioned value == raw sample). CpuTemp was
    // NOT reset, so it must blend from its held state instead.
    let after_reset = cond.update(&SignalReadings {
        mem_temp_c: Some(n(42.0)),
        thermal_margin_c: Some(n(52.0)),
        gpu_temp_c: Some(n(62.0)),
        gpu_power_w: Some(n(105.0)),
        cpu_temp_c: Some(n(75.0)), // rise: 0.5*75 + 0.5*70 = 72.5
        ..Default::default()
    });

    assert_eq!(after_reset.values[SignalKind::MemTemp.idx()], Some(n(42.0)));
    assert_eq!(
        after_reset.values[SignalKind::ThermalMargin.idx()],
        Some(n(52.0))
    );
    assert_eq!(after_reset.values[SignalKind::GpuTemp.idx()], Some(n(62.0)));
    assert_eq!(after_reset.values[SignalKind::GpuPower.idx()], Some(n(105.0)));
    assert_eq!(
        after_reset.values[SignalKind::CpuTemp.idx()],
        Some(n(72.5)),
        "CpuTemp filter must survive reset_gpu() and keep blending from held state"
    );
}

#[test]
fn conditioner_uses_per_signal_alphas() {
    let mut cfg = SignalsConfig::default();
    cfg.gpu_temp.alpha = n(1.0); // passthrough: tracks the raw sample exactly
    cfg.thermal_margin.alpha = n(0.5); // symmetric blend, halfway either direction
    cfg.gpu_power.rise_alpha = n(0.5);
    cfg.gpu_power.fall_alpha = n(0.1); // rises fast, falls slow
    let mut cond = SignalConditioner::new(&cfg);

    // Prime all three filters at the same starting value.
    let primed = cond.update(&SignalReadings {
        gpu_temp_c: Some(n(40.0)),
        thermal_margin_c: Some(n(40.0)),
        gpu_power_w: Some(n(40.0)),
        ..Default::default()
    });
    assert_eq!(primed.values[SignalKind::GpuTemp.idx()], Some(n(40.0)));
    assert_eq!(primed.values[SignalKind::ThermalMargin.idx()], Some(n(40.0)));
    assert_eq!(primed.values[SignalKind::GpuPower.idx()], Some(n(40.0)));

    // Rising edge, same-sized step (40 -> 80) fed to all three:
    // gpu_temp (alpha 1.0) jumps straight to the raw sample; margin
    // (alpha 0.5, symmetric) lands exactly halfway; power's rise_alpha
    // is also 0.5, so it lands at the same halfway point on the rise.
    let risen = cond.update(&SignalReadings {
        gpu_temp_c: Some(n(80.0)),
        thermal_margin_c: Some(n(80.0)),
        gpu_power_w: Some(n(80.0)),
        ..Default::default()
    });
    assert_eq!(
        risen.values[SignalKind::GpuTemp.idx()],
        Some(n(80.0)),
        "gpu_temp alpha=1.0 must track the raw sample exactly"
    );
    assert_eq!(
        risen.values[SignalKind::ThermalMargin.idx()],
        Some(n(60.0)),
        "margin alpha=0.5 must land halfway between old and new"
    );
    assert_eq!(
        risen.values[SignalKind::GpuPower.idx()],
        Some(n(60.0)),
        "power rise_alpha=0.5 must land halfway on the rising edge"
    );

    // Falling edge, same-sized step (80 -> 20) fed to all three:
    // gpu_temp again tracks exactly (alpha 1.0, symmetric); margin again
    // lands halfway (alpha 0.5, symmetric: 0.5*20 + 0.5*60 = 40); power's
    // fall_alpha=0.1 must move far less (0.1*20 + 0.9*60 = 56) than
    // margin's symmetric 0.5 on an identical step — proving power's
    // rise/fall smoothing is genuinely asymmetric, not just reusing one
    // shared config knob.
    let fallen = cond.update(&SignalReadings {
        gpu_temp_c: Some(n(20.0)),
        thermal_margin_c: Some(n(20.0)),
        gpu_power_w: Some(n(20.0)),
        ..Default::default()
    });
    assert_eq!(fallen.values[SignalKind::GpuTemp.idx()], Some(n(20.0)));
    assert_eq!(fallen.values[SignalKind::ThermalMargin.idx()], Some(n(40.0)));
    assert_eq!(fallen.values[SignalKind::GpuPower.idx()], Some(n(56.0)));

    let margin_fall = v(risen.values[SignalKind::ThermalMargin.idx()].unwrap())
        - v(fallen.values[SignalKind::ThermalMargin.idx()].unwrap());
    let power_fall = v(risen.values[SignalKind::GpuPower.idx()].unwrap())
        - v(fallen.values[SignalKind::GpuPower.idx()].unwrap());
    assert!(
        power_fall < margin_fall,
        "power (fall_alpha=0.1) must fall less than margin (alpha=0.5) on an identical step: power_fall={power_fall} margin_fall={margin_fall}"
    );
}

// -- fuse ----------------------------------------------------------------

#[test]
fn fuse_takes_max_of_candidate_duties() {
    let mut cfg = SignalsConfig::default();
    cfg.gpu_temp.enabled = true; // curve empty -> falls back to top_curve
    cfg.cpu_temp.enabled = true;
    cfg.cpu_temp.curve = linear_curve();
    cfg.cpu_temp.offset_c = n(0.0); // isolate max-of-candidates from offset behavior (covered separately below)

    let mut cond = Conditioned::default();
    cond.values[SignalKind::GpuTemp.idx()] = Some(n(40.0));
    cond.values[SignalKind::CpuTemp.idx()] = Some(n(70.0));

    let fusion = fuse(&cfg, &linear_curve(), &cond, false);
    assert_eq!(fusion.target, Some(70));
    assert_eq!(fusion.winner, Some(SignalKind::CpuTemp));
}

#[test]
fn fuse_skips_absent_signals() {
    let mut cfg = SignalsConfig::default();
    cfg.gpu_temp.enabled = true;
    cfg.cpu_temp.enabled = true;
    cfg.cpu_temp.curve = linear_curve();

    let mut cond = Conditioned::default();
    cond.values[SignalKind::GpuTemp.idx()] = Some(n(40.0));
    // cpu_temp left absent (None)

    let fusion = fuse(&cfg, &linear_curve(), &cond, false);
    assert!(fusion.candidates[SignalKind::CpuTemp.idx()].is_none());
    assert_eq!(fusion.target, Some(40));
    assert_eq!(fusion.winner, Some(SignalKind::GpuTemp));
}

#[test]
fn fuse_returns_none_when_no_signal_available() {
    let cfg = SignalsConfig::default(); // nothing enabled
    let cond = Conditioned::default();
    let fusion = fuse(&cfg, &linear_curve(), &cond, false);
    assert_eq!(fusion.target, None);
    assert_eq!(fusion.winner, None);
    assert!(!fusion.floor_applied);
}

#[test]
fn fuse_ties_break_by_declared_precedence() {
    let mut cfg = SignalsConfig::default();
    cfg.mem_temp.enabled = true;
    cfg.mem_temp.curve = linear_curve();
    cfg.gpu_temp.enabled = true; // falls back to top_curve

    let mut cond = Conditioned::default();
    cond.values[SignalKind::MemTemp.idx()] = Some(n(50.0)); // duty 50
    cond.values[SignalKind::GpuTemp.idx()] = Some(n(50.0)); // duty 50, tie

    let fusion = fuse(&cfg, &linear_curve(), &cond, false);
    assert_eq!(fusion.target, Some(50));
    // MemTemp is declared before GpuTemp, so it wins the tie.
    assert_eq!(fusion.winner, Some(SignalKind::MemTemp));
}

#[test]
fn fuse_applies_cpu_offset() {
    let mut cfg = SignalsConfig::default();
    cfg.cpu_temp.enabled = true;
    cfg.cpu_temp.offset_c = n(10.0);
    // curve left empty -> falls back to top_curve

    let mut cond = Conditioned::default();
    cond.values[SignalKind::CpuTemp.idx()] = Some(n(45.0)); // x = 45 - 10 = 35

    let fusion = fuse(&cfg, &linear_curve(), &cond, false);
    assert_eq!(fusion.target, Some(35));
    assert_eq!(fusion.winner, Some(SignalKind::CpuTemp));
}

#[test]
fn fuse_margin_curve_is_inverted() {
    let mut cfg = SignalsConfig::default();
    cfg.thermal_margin.enabled = true;
    cfg.thermal_margin.curve = vec![
        CurvePoint {
            temp: n(5.0),
            duty: 100,
        },
        CurvePoint {
            temp: n(10.0),
            duty: 85,
        },
        CurvePoint {
            temp: n(20.0),
            duty: 60,
        },
        CurvePoint {
            temp: n(35.0),
            duty: 30,
        },
    ];

    let mut cond = Conditioned::default();
    cond.values[SignalKind::ThermalMargin.idx()] = Some(n(5.0)); // hot: little headroom
    let hot = fuse(&cfg, &linear_curve(), &cond, false);
    assert_eq!(hot.target, Some(100));

    cond.values[SignalKind::ThermalMargin.idx()] = Some(n(35.0)); // cool: lots of headroom
    let cool = fuse(&cfg, &linear_curve(), &cond, false);
    assert_eq!(cool.target, Some(30));

    assert!(hot.target.unwrap() > cool.target.unwrap());
}

#[test]
fn fuse_power_percent_tdp_scales_by_limit() {
    let mut cfg = SignalsConfig::default();
    cfg.gpu_power.enabled = true;
    cfg.gpu_power.unit = PowerUnit::PercentTdp;
    cfg.gpu_power.curve = linear_curve(); // duty == percent 1:1

    let mut cond = Conditioned::default();
    cond.values[SignalKind::GpuPower.idx()] = Some(n(300.0));
    cond.gpu_power_limit_w = Some(n(575.0));

    let fusion = fuse(&cfg, &linear_curve(), &cond, false);
    let expected_pct: f64 = 100.0 * 300.0 / 575.0;
    assert_eq!(fusion.target, Some(expected_pct.round() as u8));

    // limit unavailable -> power signal skipped entirely, never
    // reinterpreted as watts.
    cond.gpu_power_limit_w = None;
    let fusion2 = fuse(&cfg, &linear_curve(), &cond, false);
    assert_eq!(fusion2.target, None);
    assert!(fusion2.candidates[SignalKind::GpuPower.idx()].is_none());

    // limit == 0.0 must also skip, not divide-by-zero into an infinite
    // or NaN percentage.
    cond.gpu_power_limit_w = Some(n(0.0));
    let fusion3 = fuse(&cfg, &linear_curve(), &cond, false);
    assert_eq!(fusion3.target, None);
    assert!(fusion3.candidates[SignalKind::GpuPower.idx()].is_none());

    // A negative limit is nonsensical hardware state; must also skip
    // rather than reinterpret as watts or produce a negative percentage.
    cond.gpu_power_limit_w = Some(n(-10.0));
    let fusion4 = fuse(&cfg, &linear_curve(), &cond, false);
    assert_eq!(fusion4.target, None);
    assert!(fusion4.candidates[SignalKind::GpuPower.idx()].is_none());
}

#[test]
fn fuse_throttle_floor_raises_target_and_sets_flag() {
    let mut cfg = SignalsConfig::default();
    cfg.throttle.enabled = true;
    cfg.throttle.floor_duty = 80;

    let cond = Conditioned::default(); // no curve signals at all
    let fusion = fuse(&cfg, &linear_curve(), &cond, true);
    assert_eq!(fusion.target, Some(80));
    assert!(fusion.floor_applied);
    assert_eq!(fusion.winner, None); // floor alone set it

    // Floor below an existing candidate must not lower it, and must not
    // be reported as having applied (raise-only fusion).
    let mut cfg2 = cfg.clone();
    cfg2.throttle.floor_duty = 10;
    cfg2.gpu_temp.enabled = true;
    let mut cond2 = Conditioned::default();
    cond2.values[SignalKind::GpuTemp.idx()] = Some(n(90.0)); // duty 90 via top_curve

    let fusion2 = fuse(&cfg2, &linear_curve(), &cond2, true);
    assert_eq!(fusion2.target, Some(90));
    assert!(!fusion2.floor_applied);
    assert_eq!(fusion2.winner, Some(SignalKind::GpuTemp));

    // Floor exactly EQUAL to the candidate max must not count as having
    // "raised" it — max(90, 90) == 90 is not a strict raise.
    let mut cfg3 = cfg.clone();
    cfg3.throttle.floor_duty = 90;
    cfg3.gpu_temp.enabled = true;
    let mut cond3 = Conditioned::default();
    cond3.values[SignalKind::GpuTemp.idx()] = Some(n(90.0)); // duty 90 via top_curve

    let fusion3 = fuse(&cfg3, &linear_curve(), &cond3, true);
    assert_eq!(fusion3.target, Some(90));
    assert!(!fusion3.floor_applied);
    assert_eq!(fusion3.winner, Some(SignalKind::GpuTemp));
}

// -- ThrottleLatch -----------------------------------------------------

#[test]
fn throttle_latch_holds_after_clear() {
    let mut latch = ThrottleLatch::new(10);
    assert!(latch.update(true, 1));
    assert!(latch.update(false, 5)); // 5s remain of the 10s hold
    assert!(!latch.update(false, 10)); // hold expired
}
