use unifand::binary64::Binary64;
use unifand::config::{CurvePoint, SignalsConfig, ThrottleReason};
use unifand::signals::{
    fuse, plausible, AsymEwma, Conditioned, Fusion, SignalConditioner, SignalKind, SignalReadings,
    ThrottleFlags, ThrottleLatch,
};

fn n(x: f64) -> Binary64 {
    Binary64::from_bits(x.to_bits())
}

#[test]
fn signals_have_their_names_units_and_places() {
    let names = ["mem_temp", "thermal_margin", "gpu_temp", "gpu_power", "cpu_temp"];
    for (i, kind) in SignalKind::ALL.iter().enumerate() {
        assert_eq!(kind.as_str(), names[i]);
        assert_eq!(kind.idx(), i);
        let unit = if *kind == SignalKind::GpuPower { "watts" } else { "celsius" };
        assert_eq!(kind.unit(), unit);
    }
    assert!(SignalKind::MemTemp < SignalKind::CpuTemp);
}

#[test]
fn readings_are_believed_within_their_bounds() {
    for kind in [SignalKind::MemTemp, SignalKind::GpuTemp, SignalKind::CpuTemp] {
        for (x, ok) in [(1.0, true), (125.0, true), (0.99, false), (125.01, false)] {
            assert_eq!(plausible(kind, n(x)), ok);
        }
    }
    for (x, ok) in [(1.0, true), (2000.0, true), (0.5, false), (2000.5, false)] {
        assert_eq!(plausible(SignalKind::GpuPower, n(x)), ok);
    }
    for (x, ok) in [(-40.0, true), (200.0, true), (-40.5, false), (201.0, false)] {
        assert_eq!(plausible(SignalKind::ThermalMargin, n(x)), ok);
    }
}

#[test]
fn a_constant_of_one_follows_every_sample() {
    let mut f = AsymEwma::symmetric(n(1.0));
    for x in [17.0, 0.1, 579.25, -3.0, 1e-300, 1e300] {
        assert_eq!(f.update(Some(n(x))), Some(n(x)));
    }
    assert_eq!(f.update(None), None);
    assert_eq!(f.value(), Some(n(1e300)));
}

#[test]
fn filters_smooth_as_double_arithmetic_does() {
    let mut f = AsymEwma::new(n(0.5), n(0.1));
    let mut want: Option<f64> = None;
    for x in [17.0, 579.0, 21.0, 20.3, 400.7, 400.7, 0.1] {
        want = Some(match want {
            None => x,
            Some(prev) => {
                let a = if x > prev { 0.5 } else { 0.1 };
                a * x + (1.0 - a) * prev
            }
        });
        assert_eq!(f.update(Some(n(x))), want.map(n));
    }
}

#[test]
fn an_unbelievable_reading_is_like_none() {
    let cfg = SignalsConfig::default();
    let mut a = SignalConditioner::new(&cfg);
    let mut b = SignalConditioner::new(&cfg);
    let good = SignalReadings { gpu_power_w: Some(n(100.0)), ..Default::default() };
    let bad = SignalReadings { gpu_power_w: Some(n(0.0)), ..Default::default() };
    a.update(&good);
    b.update(&good);
    a.update(&bad);
    b.update(&SignalReadings::default());
    let next = SignalReadings { gpu_power_w: Some(n(300.0)), ..Default::default() };
    assert_eq!(a.update(&next), b.update(&next));
}

#[test]
fn the_latch_holds_for_its_time_however_it_is_cut() {
    for looks in [vec![10u64], vec![9, 1], vec![1; 10], vec![4, 4, 2]] {
        let mut l = ThrottleLatch::new(10);
        assert!(!l.active());
        assert!(l.update(true, 3));
        let mut passed = 0;
        for s in looks {
            passed += s;
            assert_eq!(l.update(false, s), passed < 10);
            assert_eq!(l.active(), passed < 10);
        }
    }
    let mut l = ThrottleLatch::new(0);
    assert!(l.update(true, 1));
    assert!(!l.update(false, 0));
}

fn line() -> Vec<CurvePoint> {
    vec![
        CurvePoint { temp: n(0.0), duty: 0 },
        CurvePoint { temp: n(100.0), duty: 100 },
    ]
}

#[test]
fn the_target_covers_every_signal_and_the_floor_only_raises() {
    let mut cfg = SignalsConfig::default();
    cfg.mem_temp.enabled = true;
    cfg.mem_temp.curve = line();
    cfg.throttle.enabled = true;
    for floor in [0u8, 40, 62, 63, 100] {
        cfg.throttle.floor_duty = floor;
        let mut cond = Conditioned::default();
        cond.values[SignalKind::MemTemp.idx()] = Some(n(30.0));
        cond.values[SignalKind::GpuTemp.idx()] = Some(n(62.0));
        cond.values[SignalKind::CpuTemp.idx()] = Some(n(50.0));
        let without = fuse(&cfg, &line(), &cond, false);
        let with = fuse(&cfg, &line(), &cond, true);
        for c in without.candidates.iter().flatten() {
            assert!(without.target.unwrap() >= c.duty);
        }
        assert_eq!(without.target, Some(62));
        assert_eq!(with.target, Some(floor.max(62)));
        assert_eq!(with.floor_applied, floor > 62);
        assert_eq!(with.winner, Some(SignalKind::GpuTemp));
    }
}

#[test]
fn nothing_comes_of_nothing() {
    let f = fuse(&SignalsConfig::default(), &line(), &Conditioned::default(), false);
    assert_eq!(f, Fusion::default());
    let empty_top = fuse(
        &SignalsConfig::default(),
        &[],
        &{
            let mut c = Conditioned::default();
            c.values[SignalKind::GpuTemp.idx()] = Some(n(60.0));
            c
        },
        false,
    );
    assert_eq!(empty_top, Fusion::default());
}

#[test]
fn reasons_count_only_if_they_are_asked_for() {
    let f = ThrottleFlags { hw_thermal: true, ..Default::default() };
    assert!(f.any_of(&[ThrottleReason::SwThermal, ThrottleReason::HwThermal]));
    assert!(!f.any_of(&[ThrottleReason::HwPowerBrake]));
    assert!(!f.any_of(&[]));
}
