use unifand::binary64::Binary64;
use unifand::config::CurvePoint;
use unifand::curve::{interpolate, Controller};

fn n(x: f64) -> Binary64 {
    Binary64::from_bits(x.to_bits())
}

fn c() -> Vec<CurvePoint> {
    vec![
        CurvePoint {
            temp: n(35.0),
            duty: 30,
        },
        CurvePoint {
            temp: n(55.0),
            duty: 40,
        },
        CurvePoint {
            temp: n(80.0),
            duty: 100,
        },
    ]
}

#[test]
fn clamps_below_first_point() {
    assert_eq!(interpolate(&c(), n(20.0)), 30);
}

#[test]
fn clamps_above_last_point() {
    assert_eq!(interpolate(&c(), n(95.0)), 100);
}

#[test]
fn exact_point() {
    assert_eq!(interpolate(&c(), n(55.0)), 40);
}

#[test]
fn midpoint_interpolates_linearly() {
    // halfway 35..55 -> halfway 30..40 = 35
    assert_eq!(interpolate(&c(), n(45.0)), 35);
    // halfway 55..80 -> halfway 40..100 = 70
    assert_eq!(interpolate(&c(), n(67.5)), 70);
}

#[test]
fn single_point_curve_is_constant() {
    let one = vec![CurvePoint {
        temp: n(50.0),
        duty: 55,
    }];
    assert_eq!(interpolate(&one, n(10.0)), 55);
    assert_eq!(interpolate(&one, n(90.0)), 55);
}

#[test]
fn first_decision_applies_target_directly() {
    let mut ctl = Controller::new(n(2.0), 5, 10);
    assert_eq!(ctl.decide(&c(), n(45.0)), Some(35));
}

#[test]
fn small_changes_are_held_by_hysteresis() {
    let mut ctl = Controller::new(n(2.0), 5, 10);
    ctl.decide(&c(), n(45.0)); // applied 35
                            // +1C and duty delta < 5: hold
    assert_eq!(ctl.decide(&c(), n(46.0)), None);
}

#[test]
fn big_temp_move_ramps_with_slew_limit() {
    let mut ctl = Controller::new(n(2.0), 5, 10);
    ctl.decide(&c(), n(45.0)); // 35
                            // target at 80C is 100, but slew caps at 35+10
    assert_eq!(ctl.decide(&c(), n(80.0)), Some(45));
    // temp static, ramp continues toward 100
    assert_eq!(ctl.decide(&c(), n(80.0)), Some(55));
}

#[test]
fn ramp_down_is_also_slew_limited() {
    let mut ctl = Controller::new(n(2.0), 5, 10);
    ctl.decide(&c(), n(80.0)); // 100
    assert_eq!(ctl.decide(&c(), n(35.0)), Some(90));
}

#[test]
fn force_updates_state() {
    let mut ctl = Controller::new(n(2.0), 5, 10);
    ctl.force(60);
    // target 35 at 45C; from 60 slew-limited to 50
    assert_eq!(ctl.decide(&c(), n(45.0)), Some(50));
}

// -- decide_target / step_toward ---------------------------------------

#[test]
fn decide_target_first_call_applies_directly() {
    let mut ctl = Controller::new(n(2.0), 5, 10);
    assert_eq!(ctl.decide_target(35), Some(35));
}

#[test]
fn decide_target_holds_within_min_duty_delta() {
    let mut ctl = Controller::new(n(2.0), 5, 10);
    ctl.decide_target(35);
    // duty_gap = |38-35| = 3 < min_duty_delta(5), and temp_moved is
    // always false when temp is None: hold.
    assert_eq!(ctl.decide_target(38), None);
}

#[test]
fn decide_target_is_slew_limited() {
    let mut ctl = Controller::new(n(2.0), 5, 10);
    ctl.decide_target(35);
    assert_eq!(ctl.decide_target(100), Some(45));
    assert_eq!(ctl.decide_target(100), Some(55));
}

#[test]
fn decide_target_duty_gap_zero_does_not_touch_last_temp() {
    // With any positive min_duty_delta, duty_gap == 0 always satisfies
    // `duty_gap < min_duty_delta` (since temp_moved is unconditionally
    // false when temp is None), so the FIRST early return (hysteresis
    // hold) always intercepts before the second (`duty_gap == 0`)
    // branch is ever reached. min_duty_delta 0 is required to reach it:
    // duty_gap (unsigned) can never be < 0.
    let mut ctl = Controller::new(n(2.0), 0, 10);
    assert_eq!(ctl.decide_target(35), Some(35));
    // Same target again: duty_gap == 0, falls through the first branch
    // (0 < 0 is false) and hits the second -- must return None WITHOUT
    // assigning last_temp, since temp is None throughout decide_target.
    assert_eq!(ctl.decide_target(35), None);
    assert!(
        ctl.last_temp.is_nan(),
        "decide_target must never assign last_temp; got {:?}",
        ctl.last_temp
    );
}

#[test]
fn decide_and_decide_target_agree_on_the_same_curve_target() {
    // decide_target() must not read or write last_temp, so a subsequent
    // decide() call sees the temperature of the decide() before it.
    let mut ctl = Controller::new(n(2.0), 5, 10);
    assert_eq!(ctl.decide(&c(), n(45.0)), Some(35)); // last_duty=35, last_temp=45

    let target = interpolate(&c(), n(80.0)); // 100
    assert_eq!(ctl.decide_target(target), Some(45)); // slew-limited 35->45; last_temp untouched

    // last_temp is still 45.0 here (35 apart from 80 -> temp_moved),
    // and last_duty is 45: duty_gap to target 100 is 55, slew-capped
    // at 10 -> 55.
    assert_eq!(ctl.decide(&c(), n(80.0)), Some(55));
}
