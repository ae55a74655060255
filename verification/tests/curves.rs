use unifand::binary64::Binary64;
use unifand::config::CurvePoint;
use unifand::curve::{blended, interpolate, Controller};
use unifand::rgb::{bucket, bucket_duty, duty_color, multi_color_packet, ColorStop};

fn n(x: f64) -> Binary64 {
    Binary64::from_bits(x.to_bits())
}

fn straight(points: &[(f64, u8)], t: f64) -> u8 {
    if t <= points[0].0 {
        return points[0].1;
    }
    let last = points[points.len() - 1];
    if t >= last.0 {
        return last.1;
    }
    for w in points.windows(2) {
        if t <= w[1].0 {
            let f = (t - w[0].0) / (w[1].0 - w[0].0);
            return (w[0].1 as f64 + f * (w[1].1 as f64 - w[0].1 as f64)).round() as u8;
        }
    }
    last.1
}

fn curve_of(points: &[(f64, u8)]) -> Vec<CurvePoint> {
    points
        .iter()
        .map(|&(t, duty)| CurvePoint { temp: n(t), duty })
        .collect()
}

#[test]
fn curves_give_what_double_arithmetic_gives() {
    let shapes: [&[(f64, u8)]; 5] = [
        &[(35.0, 30), (55.0, 40), (80.0, 100)],
        &[(0.1, 0), (0.2, 255), (0.7, 3)],
        &[(-40.0, 100), (200.0, 0)],
        &[(12.5, 10), (13.3, 10), (99.9, 90)],
        &[(50.0, 55)],
    ];
    for points in shapes {
        let curve = curve_of(points);
        for k in -500..2500 {
            let t = k as f64 * 0.1;
            assert_eq!(interpolate(&curve, n(t)), straight(points, t), "{points:?} at {t}");
        }
        for t in [f64::NAN, f64::INFINITY, f64::NEG_INFINITY] {
            assert_eq!(interpolate(&curve, n(t)), straight(points, t), "{points:?} at {t}");
        }
    }
}

#[test]
fn curves_with_odd_points_give_what_double_arithmetic_gives() {
    let shapes: [&[(f64, u8)]; 3] = [
        &[(f64::NEG_INFINITY, 10), (50.0, 60), (f64::INFINITY, 90)],
        &[(f64::NAN, 10), (50.0, 60), (70.0, 90)],
        &[(-1.7e308, 20), (1.7e308, 80)],
    ];
    for points in shapes {
        let curve = curve_of(points);
        for t in [-1e308, -5.0, 0.0, 49.9, 50.0, 60.0, 75.0, 1e308, f64::NAN] {
            assert_eq!(interpolate(&curve, n(t)), straight(points, t), "{points:?} at {t}");
        }
    }
}

#[test]
fn rising_curves_never_fall_and_pass_through_their_points() {
    let points = [(35.0, 30), (55.0, 40), (80.0, 100)];
    let curve = curve_of(&points);
    let mut last = 0;
    for k in 0..1200 {
        let duty = interpolate(&curve, n(k as f64 * 0.1));
        assert!(duty >= last && (30..=100).contains(&duty));
        last = duty;
    }
    for (t, duty) in points {
        assert_eq!(interpolate(&curve, n(t)), duty);
    }
}

#[test]
fn blends_stay_between_their_ends() {
    for k in 0..=20 {
        let f = n(k as f64 / 20.0);
        for (x, y) in [(0u8, 255u8), (255, 0), (10, 11), (7, 7)] {
            let b = blended(f, x, y);
            assert!(x.min(y) <= b && b <= x.max(y));
        }
    }
    assert_eq!(blended(n(0.7), 0, 45), 31);
}

#[test]
fn a_ramp_reaches_its_target_in_limited_steps() {
    let mut ctl = Controller::new(n(2.0), 5, 10);
    ctl.force(30);
    let mut last = 30;
    for _ in 0..7 {
        let next = ctl.decide_target(100).unwrap();
        assert!(next - last <= 10);
        last = next;
    }
    assert_eq!(last, 100);
    assert_eq!(ctl.decide_target(100), None);
    assert_eq!(ctl.decide_target(97), None);
}

#[test]
fn hold_keeps_the_old_temperature_and_a_reached_target_takes_the_new_one() {
    let curve = curve_of(&[(35.0, 30), (55.0, 40), (80.0, 100)]);
    let mut ctl = Controller::new(n(2.0), 5, 10);
    assert_eq!(ctl.decide(&curve, n(45.0)), Some(35));
    assert_eq!(ctl.decide(&curve, n(46.0)), None);
    assert_eq!(ctl.last_temp, n(45.0));
    ctl.force(30);
    assert_eq!(ctl.decide(&curve, n(20.0)), None);
    assert_eq!(ctl.last_temp, n(20.0));
}

#[test]
fn gradients_give_what_double_arithmetic_gives() {
    let stops = [
        ColorStop { duty: 30, color: [0, 0, 255] },
        ColorStop { duty: 50, color: [0, 255, 0] },
        ColorStop { duty: 75, color: [255, 255, 0] },
        ColorStop { duty: 90, color: [255, 128, 0] },
        ColorStop { duty: 100, color: [255, 0, 0] },
    ];
    for duty in 0..=255u8 {
        let part = |k: usize| {
            let points: Vec<(f64, u8)> =
                stops.iter().map(|s| (s.duty as f64, s.color[k])).collect();
            straight(&points, duty as f64)
        };
        assert_eq!(duty_color(&stops, duty), (part(0), part(1), part(2)), "{duty}");
    }
}

#[test]
fn bins_hold_their_own_lower_edge_up_to_101_bins() {
    for buckets in 2..=101u8 {
        for b in 0..buckets {
            assert_eq!(bucket(bucket_duty(b, buckets), buckets), b);
        }
    }
    // With 102 bins there are more bins than duties, and one stays empty.
    assert!((0..=100u8).all(|d| bucket(d, 102) != 100));
    assert_eq!(bucket(bucket_duty(100, 102), 102), 101);
    for buckets in [1u8, 2, 8, 102, 255] {
        let mut last = 0;
        for d in 0..=255u8 {
            let b = bucket(d, buckets);
            assert!(last <= b && b < buckets);
            last = b;
        }
    }
}

#[test]
fn one_color_fills_all_leds() {
    let p = multi_color_packet(4, &[(9, 8, 7)]);
    for led in 0..96 {
        assert_eq!(&p[2 + 3 * led..5 + 3 * led], &[9, 7, 8]);
    }
}

#[test]
fn dyadic_parts_of_a_segment_lie_on_the_line() {
    let c = curve_of(&[(35.0, 30), (55.0, 40), (80.0, 100), (96.0, 64)]);
    // 2/4 of the first segment, 15/16 and 1/16 of the last one.
    assert_eq!(interpolate(&c, n(45.0)), 35);
    assert_eq!(interpolate(&c, n(95.0)), 66);
    assert_eq!(interpolate(&c, n(81.0)), 98);
    // A quarter lies halfway between two duties: upwards.
    assert_eq!(interpolate(&c, n(40.0)), 33);
}

#[test]
fn every_temperature_gives_the_line_to_the_nearest() {
    let shape = [(35u64, 30u64), (55, 40), (80, 100), (97, 13)];
    let c = curve_of(&shape.map(|(t, d)| (t as f64, d as u8)));
    // In hundredths of a degree, so that the line can be told in integers.
    for w in shape.windows(2) {
        let width = 100 * (w[1].0 - w[0].0) as i64;
        for along in 1..=width {
            let t = (100 * w[0].0 as i64 + along) as f64 / 100.0;
            let duty = interpolate(&c, n(t)) as i64;
            let line = w[0].1 as i64 * width + (w[1].1 as i64 - w[0].1 as i64) * along;
            assert!(2 * (duty * width - line).abs() <= width, "{t} gives {duty}");
        }
    }
}

#[test]
fn every_duty_gets_the_color_of_the_line() {
    let stops = [
        ColorStop { duty: 0, color: [0, 255, 7] },
        ColorStop { duty: 33, color: [200, 1, 7] },
        ColorStop { duty: 100, color: [13, 90, 8] },
    ];
    for w in stops.windows(2) {
        let width = (w[1].duty - w[0].duty) as i64;
        for duty in w[0].duty + 1..=w[1].duty {
            let (r, g, b) = duty_color(&stops, duty);
            let along = (duty - w[0].duty) as i64;
            for (k, got) in [r, g, b].into_iter().enumerate() {
                let (x, y) = (w[0].color[k] as i64, w[1].color[k] as i64);
                let off = got as i64 * width - (x * width + (y - x) * along);
                assert!(2 * off.abs() <= width);
            }
        }
    }
}

#[test]
fn a_controller_goes_by_the_last_duty_and_the_last_temperature() {
    let c = curve_of(&[(0.0, 0), (100.0, 100)]);
    let mut ctl = Controller::new(n(2.0), 3, 10);
    assert_eq!(ctl.decide(&c, n(50.0)), Some(50));
    // Held: neither moved enough, and nothing is remembered of it.
    assert_eq!(ctl.decide(&c, n(51.0)), None);
    assert_eq!((ctl.last_duty, ctl.last_temp), (Some(50), n(50.0)));
    // Two degrees away from the one that counted.
    assert_eq!(ctl.decide(&c, n(52.0)), Some(52));
    ctl.force(20);
    assert_eq!((ctl.last_duty, ctl.last_temp), (Some(20), n(52.0)));
    // Exactly one full step from what was forced.
    assert_eq!(ctl.decide_target(90), Some(30));
    assert_eq!((ctl.last_duty, ctl.last_temp), (Some(30), n(52.0)));
    // The target is reached: no duty, but the temperature counts.
    assert_eq!(ctl.decide(&c, n(30.0)), None);
    assert_eq!((ctl.last_duty, ctl.last_temp), (Some(30), n(30.0)));
}

#[test]
fn a_step_goes_towards_its_target() {
    let mut ctl = Controller::new(n(2.0), 3, 10);
    assert_eq!(ctl.step_toward(40, None), Some(40));
    assert_eq!(ctl.step_toward(42, None), None);
    assert_eq!(ctl.step_toward(42, Some(n(1.0))), None);
    ctl.last_temp = n(50.0);
    assert_eq!(ctl.step_toward(42, Some(n(48.0))), Some(42));
    assert_eq!(ctl.step_toward(0, None), Some(32));
    assert_eq!(ctl.step_toward(29, None), Some(29));
}
