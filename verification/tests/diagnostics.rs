use unifand::binary64::Binary64;
use unifand::config::{
    d_channels, d_cpu_offset, d_fallback, d_hysteresis, d_max_step, d_min_delta, d_poll,
    AlertsConfig, Config, CurvePoint, MetricsConfig, PowerUnit, RgbConfig, SignalsConfig,
    ThrottleReason,
};
use unifand::ordered::OrderedMap;
use unifand::report::{Piece, Report};
use unifand::rgb::ColorStop;

fn n(x: f64) -> Binary64 {
    Binary64::from_bits(x.to_bits())
}

fn printed(r: &Report) -> String {
    let mut out = String::new();
    for p in &r.pieces {
        match p {
            Piece::Text(s) => out.push_str(s),
            Piece::Value(x) => out.push_str(&format!("{}", f64::from_bits(x.to_bits()))),
        }
    }
    out
}

fn points(list: &[(f64, u8)]) -> Vec<CurvePoint> {
    list.iter()
        .map(|&(t, duty)| CurvePoint { temp: n(t), duty })
        .collect()
}

fn base() -> Config {
    Config {
        poll_interval_secs: d_poll(),
        channels: d_channels(),
        fallback_duty: d_fallback(),
        cpu_offset: d_cpu_offset(),
        hysteresis_c: d_hysteresis(),
        min_duty_delta: d_min_delta(),
        max_step_per_tick: d_max_step(),
        curve: points(&[(40.0, 50)]),
        metrics: MetricsConfig::default(),
        rgb: RgbConfig::default(),
        signals: SignalsConfig::default(),
    }
}

fn lit() -> Config {
    let mut c = base();
    c.rgb.enabled = true;
    c
}

fn alert() -> Config {
    let mut c = lit();
    c.rgb.alerts.enabled = true;
    c
}

fn fused() -> Config {
    let mut c = base();
    c.signals.enabled = true;
    c
}

fn fans(list: &[(&str, u8)]) -> OrderedMap<String, u8> {
    let mut m = OrderedMap::new();
    for (k, v) in list {
        m.insert(k.to_string(), *v);
    }
    m
}

fn refused(c: &Config) -> String {
    match c.validate() {
        Ok(()) => panic!("accepted"),
        Err(e) => printed(&e.message(c)),
    }
}

fn with(mut c: Config, change: impl Fn(&mut Config)) -> String {
    change(&mut c);
    refused(&c)
}

#[test]
fn base_errors_have_their_sentences() {
    assert_eq!(with(base(), |c| c.curve.clear()), "curve must have at least one point");
    assert_eq!(
        with(base(), |c| c.curve = points(&[(60.0, 50), (60.0, 60)])),
        "curve temps must be strictly increasing"
    );
    assert_eq!(
        with(base(), |c| c.curve = points(&[(40.0, 50), (50.0, 101), (60.0, 102)])),
        "curve duty 101 exceeds 100"
    );
    assert_eq!(with(base(), |c| c.fallback_duty = 101), "fallback_duty exceeds 100");
    assert_eq!(with(base(), |c| c.channels.clear()), "channels must not be empty");
    assert_eq!(
        with(base(), |c| c.channels = vec![1, 0, 9]),
        "channel 0 out of range 1..=4"
    );
    assert_eq!(
        with(base(), |c| c.max_step_per_tick = 0),
        "max_step_per_tick must be nonzero (fans could never move)"
    );
    assert_eq!(
        with(base(), |c| c.poll_interval_secs = 0),
        "poll_interval_secs must be nonzero (busy-loop)"
    );
    assert_eq!(
        with(base(), |c| c.hysteresis_c = n(-0.5)),
        "hysteresis_c must not be negative"
    );
    assert_eq!(with(base(), |c| c.cpu_offset = n(-1.0)), "cpu_offset must not be negative");
}

#[test]
fn led_errors_have_their_sentences() {
    assert_eq!(
        with(lit(), |c| c.rgb.stops.clear()),
        "rgb.stops must have at least one stop when rgb is enabled"
    );
    assert_eq!(
        with(lit(), |c| c.rgb.stops = vec![
            ColorStop { duty: 50, color: [1, 1, 1] },
            ColorStop { duty: 50, color: [2, 2, 2] }
        ]),
        "rgb.stops duties must be strictly increasing"
    );
    assert_eq!(
        with(lit(), |c| c.rgb.stops = vec![ColorStop { duty: 101, color: [1, 1, 1] }]),
        "rgb stop duty 101 exceeds 100"
    );
    assert_eq!(
        with(lit(), |c| c.rgb.fans_per_channel = 7),
        "rgb.fans_per_channel 7 out of range 1..=6"
    );
    assert_eq!(
        with(lit(), |c| c.rgb.fans = fans(&[("fo\"o", 4)])),
        "rgb.fans key \"fo\\\"o\" is not a valid channel number"
    );
    assert_eq!(
        with(lit(), |c| c.rgb.fans = fans(&[("1", 2), ("02", 4)])),
        "rgb.fans key \"02\" must be written as \"2\""
    );
    assert_eq!(
        with(lit(), |c| c.rgb.fans = fans(&[("3", 4)])),
        "rgb.fans key 3 is not one of the configured channels [1, 2]"
    );
    assert_eq!(
        with(lit(), |c| c.rgb.fans = fans(&[("1", 7)])),
        "rgb.fans[1] = 7 out of range 1..=6"
    );
    assert_eq!(with(lit(), |c| c.rgb.buckets = 1), "rgb.buckets must be at least 2");
    assert_eq!(
        with(lit(), |c| c.rgb.brightness = 9),
        "rgb.brightness 9 out of range 0..=8 (0 = 100%)"
    );
    assert_eq!(
        with(alert(), |c| c.rgb.alerts.sustained_after_secs = 0),
        "rgb.alerts.sustained_after_secs must be at least 1"
    );
    assert_eq!(
        with(alert(), |c| c.rgb.alerts.escalate_every_secs = 0),
        "rgb.alerts.escalate_every_secs must be at least 1"
    );
    assert_eq!(
        with(alert(), |c| c.rgb.alerts.cooldown_secs = 0),
        "rgb.alerts.cooldown_secs must be at least 1"
    );
    assert_eq!(
        with(alert(), |c| c.rgb.alerts.near_limit_margin_c = n(-0.1)),
        "rgb.alerts.near_limit_margin_c must not be negative"
    );
}

#[test]
fn signal_errors_have_their_sentences() {
    assert_eq!(
        with(fused(), |c| {
            c.signals.gpu_temp.enabled = false;
            c.signals.cpu_temp.enabled = false;
        }),
        "signals.enabled but no sub-signal (gpu_temp/cpu_temp/power/margin/mem_temp) is enabled"
    );
    assert_eq!(
        with(fused(), |c| c.signals.gpu_temp.alpha = n(1.5)),
        "signals.gpu_temp.alpha 1.5 must be in (0.0, 1.0]"
    );
    assert_eq!(
        with(fused(), |c| c.signals.cpu_temp.alpha = n(0.0)),
        "signals.cpu_temp.alpha 0 must be in (0.0, 1.0]"
    );
    assert_eq!(
        with(fused(), |c| c.signals.cpu_temp.alpha = n(f64::NAN)),
        "signals.cpu_temp.alpha NaN must be in (0.0, 1.0]"
    );
    assert_eq!(
        with(fused(), |c| c.signals.cpu_temp.offset_c = n(-1.0)),
        "signals.cpu_temp.offset_c must not be negative"
    );
    assert_eq!(
        with(fused(), |c| c.signals.gpu_power.enabled = true),
        "signals.power.curve must have at least one point"
    );
    let power = |c: &mut Config| {
        c.signals.gpu_power.enabled = true;
        c.signals.gpu_power.curve = points(&[(120.0, 30), (560.0, 100)]);
    };
    assert_eq!(
        with(fused(), |c| {
            power(c);
            c.signals.gpu_power.rise_alpha = n(-0.25);
        }),
        "signals.power.rise_alpha -0.25 must be in (0.0, 1.0]"
    );
    assert_eq!(
        with(fused(), |c| {
            power(c);
            c.signals.gpu_power.fall_alpha = n(2.0);
        }),
        "signals.power.fall_alpha 2 must be in (0.0, 1.0]"
    );
    assert_eq!(
        with(fused(), |c| {
            power(c);
            c.signals.gpu_power.unit = PowerUnit::PercentTdp;
        }),
        "signals.power.curve has a point > 200 with unit = \"percent_tdp\" \u{2014} likely a watts/percent mixup"
    );
    assert_eq!(
        with(fused(), |c| c.signals.thermal_margin.enabled = true),
        "signals.margin.curve must have at least one point"
    );
    assert_eq!(
        with(fused(), |c| {
            c.signals.thermal_margin.enabled = true;
            c.signals.thermal_margin.curve = points(&[(5.0, 100)]);
            c.signals.thermal_margin.alpha = n(0.0);
        }),
        "signals.margin.alpha 0 must be in (0.0, 1.0]"
    );
    assert_eq!(
        with(fused(), |c| {
            c.signals.mem_temp.enabled = true;
            c.signals.mem_temp.curve = points(&[(60.0, 101)]);
        }),
        "signals.mem_temp.curve duty 101 exceeds 100"
    );
    assert_eq!(
        with(fused(), |c| {
            c.signals.mem_temp.enabled = true;
            c.signals.mem_temp.curve = points(&[(60.0, 40)]);
            c.signals.mem_temp.alpha = n(1.25);
        }),
        "signals.mem_temp.alpha 1.25 must be in (0.0, 1.0]"
    );
    let throttle = |c: &mut Config| c.signals.throttle.enabled = true;
    assert_eq!(
        with(fused(), |c| {
            throttle(c);
            c.signals.throttle.floor_duty = 101;
        }),
        "signals.throttle.floor_duty 101 exceeds 100"
    );
    assert_eq!(
        with(fused(), |c| {
            throttle(c);
            c.signals.throttle.reasons.clear();
        }),
        "signals.throttle.reasons must not be empty when throttle is enabled"
    );
    assert_eq!(
        with(fused(), |c| {
            throttle(c);
            c.signals.throttle.hold_secs = 3601;
        }),
        "signals.throttle.hold_secs 3601 exceeds 3600"
    );
    assert_eq!(
        with(fused(), |c| c.signals.gpu_temp.curve = points(&[(60.0, 40), (50.0, 50)])),
        "signals.gpu_temp.curve temps must be strictly increasing"
    );
    assert_eq!(
        with(fused(), |c| c.signals.cpu_temp.curve = points(&[(60.0, 140)])),
        "signals.cpu_temp.curve duty 140 exceeds 100"
    );
}

#[test]
fn the_first_error_is_the_one_that_is_named() {
    let mut c = lit();
    c.fallback_duty = 200;
    c.channels.clear();
    c.rgb.stops.clear();
    assert_eq!(refused(&c), "fallback_duty exceeds 100");
    c.fallback_duty = 60;
    assert_eq!(refused(&c), "channels must not be empty");
    c.channels = vec![2];
    assert_eq!(refused(&c), "rgb.stops must have at least one stop when rgb is enabled");
    // The keys of rgb.fans are looked at in their order as text.
    let mut c = lit();
    c.rgb.fans = fans(&[("x", 1), ("10", 1), ("1", 9)]);
    assert_eq!(refused(&c), "rgb.fans[1] = 9 out of range 1..=6");
}

#[test]
fn defaults_are_accepted_with_everything_switched_on() {
    let mut c = alert();
    c.signals.enabled = true;
    c.signals.throttle.enabled = true;
    assert!(c.validate().is_ok());
    assert_eq!(c.rgb.alerts.alert_color, AlertsConfig::default().alert_color);
}

#[test]
fn what_is_no_number_is_not_negative_and_not_increasing() {
    // These are only asked not to be negative.
    let mut c = base();
    c.hysteresis_c = n(f64::NAN);
    c.cpu_offset = n(f64::NAN);
    assert!(c.validate().is_ok());
    // Temperatures have to rise, and next to no number nothing does.
    for temps in [[f64::NAN, 50.0], [40.0, f64::NAN], [f64::NAN, f64::NAN]] {
        let mut c = base();
        c.curve = points(&[(temps[0], 30), (temps[1], 50)]);
        assert_eq!(refused(&c), "curve temps must be strictly increasing");
    }
}

#[test]
fn accepted_fan_entries_are_the_declared_numbers() {
    let mut c = lit();
    c.rgb.fans = fans(&[("1", 3), ("2", 5)]);
    c.rgb.fans_per_channel = 4;
    assert!(c.validate().is_ok());
    assert_eq!(c.rgb.fans_for_channel(1), 3);
    assert_eq!(c.rgb.fans_for_channel(2), 5);
    assert_eq!(c.rgb.fans_for_channel(3), 4);
}

#[test]
fn odd_settings_are_warned_of() {
    let mut c = fused();
    assert!(c.warnings(&[]).is_empty());
    c.signals.thermal_margin.enabled = true;
    c.signals.thermal_margin.curve = points(&[(5.0, 30), (35.0, 100)]);
    c.signals.throttle.enabled = true;
    c.signals.throttle.reasons.push(ThrottleReason::SwPowerCap);
    let w = c.warnings(&["fallbackduty".to_string(), "rgb.typo".to_string()]);
    assert_eq!(w.len(), 4);
    assert_eq!(w[0], "ignoring unknown config key: fallbackduty");
    assert_eq!(w[1], "ignoring unknown config key: rgb.typo");
    assert!(w[2].starts_with("signals.margin.curve duty rises with headroom; "));
    assert!(w[2].ends_with("\u{2014} is the curve inverted?"));
    assert!(w[3].starts_with("signals.throttle.reasons includes sw_power_cap, "));
    c.signals.thermal_margin.curve = points(&[(5.0, 100), (35.0, 30)]);
    c.signals.throttle.reasons.pop();
    assert!(c.warnings(&[]).is_empty());
    c.signals.enabled = false;
    c.signals.throttle.reasons.push(ThrottleReason::SwPowerCap);
    assert!(c.warnings(&[]).is_empty());
}
