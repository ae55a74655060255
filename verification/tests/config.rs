use toml::{Table, Value};
use unifand::binary64::Binary64;
use unifand::config::{
    d_alert_color, d_channels, d_cooldown_secs, d_cpu_offset, d_escalate_every_secs, d_fallback,
    d_fault_colors, d_hysteresis, d_max_step, d_min_delta, d_near_limit_margin_c, d_poll,
    d_sustained_after_secs, d_sustained_hot_c, AlertsConfig, Config, CpuTempConfig, CurvePoint,
    GpuPowerConfig, GpuTempConfig, MarginConfig, MemTempConfig, MetricsConfig, PowerUnit,
    RgbConfig, SignalsConfig, ThrottleConfig, ThrottleReason,
};
use unifand::ordered::OrderedMap;
use unifand::rgb::ColorStop;
use unifand::validation::ConfigError;

fn n(x: f64) -> Binary64 {
    Binary64::from_bits(x.to_bits())
}

fn number(v: &Value) -> Binary64 {
    match v {
        Value::Float(x) => n(*x),
        Value::Integer(i) => n(*i as f64),
        other => panic!("not a number: {other:?}"),
    }
}

fn num(t: &Table, key: &str, default: Binary64) -> Binary64 {
    t.get(key).map(number).unwrap_or(default)
}

fn whole(t: &Table, key: &str, default: u64) -> u64 {
    t.get(key)
        .map(|v| v.as_integer().unwrap() as u64)
        .unwrap_or(default)
}

fn flag(t: &Table, key: &str, default: bool) -> bool {
    t.get(key).map(|v| v.as_bool().unwrap()).unwrap_or(default)
}

fn section(t: &Table, key: &str) -> Table {
    t.get(key)
        .map(|v| v.as_table().unwrap().clone())
        .unwrap_or_default()
}

fn bytes(v: &Value) -> Vec<u8> {
    v.as_array()
        .unwrap()
        .iter()
        .map(|x| x.as_integer().unwrap() as u8)
        .collect()
}

fn points(t: &Table) -> Vec<CurvePoint> {
    let Some(v) = t.get("curve") else {
        return Vec::new();
    };
    v.as_array()
        .unwrap()
        .iter()
        .map(|p| {
            let p = p.as_table().unwrap();
            CurvePoint {
                temp: number(p.get("temp").or_else(|| p.get("value")).unwrap()),
                duty: p["duty"].as_integer().unwrap() as u8,
            }
        })
        .collect()
}

fn alerts(t: &Table) -> AlertsConfig {
    AlertsConfig {
        enabled: flag(t, "enabled", false),
        sustained_hot_c: num(t, "sustained_hot_c", d_sustained_hot_c()),
        sustained_after_secs: whole(t, "sustained_after_secs", d_sustained_after_secs()),
        near_limit_margin_c: num(t, "near_limit_margin_c", d_near_limit_margin_c()),
        escalate_every_secs: whole(t, "escalate_every_secs", d_escalate_every_secs()),
        cooldown_secs: whole(t, "cooldown_secs", d_cooldown_secs()),
        alert_color: d_alert_color(),
        fault_colors: d_fault_colors(),
    }
}

fn rgb(t: &Table) -> RgbConfig {
    let d = RgbConfig::default();
    let mut fans = OrderedMap::new();
    for (k, v) in section(t, "fans") {
        fans.insert(k, v.as_integer().unwrap() as u8);
    }
    RgbConfig {
        enabled: flag(t, "enabled", false),
        fans_per_channel: whole(t, "fans_per_channel", d.fans_per_channel as u64) as u8,
        fans,
        brightness: whole(t, "brightness", d.brightness as u64) as u8,
        buckets: whole(t, "buckets", d.buckets as u64) as u8,
        stops: match t.get("stops") {
            None => d.stops,
            Some(v) => v
                .as_array()
                .unwrap()
                .iter()
                .map(|s| {
                    let c = bytes(&s["color"]);
                    ColorStop {
                        duty: s["duty"].as_integer().unwrap() as u8,
                        color: [c[0], c[1], c[2]],
                    }
                })
                .collect(),
        },
        alerts: alerts(&section(t, "alerts")),
    }
}

fn reason(s: &str) -> ThrottleReason {
    match s {
        "sw_thermal" => ThrottleReason::SwThermal,
        "hw_thermal" => ThrottleReason::HwThermal,
        "hw_power_brake" => ThrottleReason::HwPowerBrake,
        "sw_power_cap" => ThrottleReason::SwPowerCap,
        other => panic!("no such reason: {other}"),
    }
}

fn signals(t: &Table) -> SignalsConfig {
    let d = SignalsConfig::default();
    let gpu = section(t, "gpu_temp");
    let cpu = section(t, "cpu_temp");
    let power = section(t, "power");
    let margin = section(t, "margin");
    let mem = section(t, "mem_temp");
    let throttle = section(t, "throttle");
    SignalsConfig {
        enabled: flag(t, "enabled", false),
        rise_alpha: num(t, "rise_alpha", d.rise_alpha),
        fall_alpha: num(t, "fall_alpha", d.fall_alpha),
        gpu_temp: GpuTempConfig {
            enabled: flag(&gpu, "enabled", d.gpu_temp.enabled),
            curve: points(&gpu),
            alpha: num(&gpu, "alpha", d.gpu_temp.alpha),
        },
        cpu_temp: CpuTempConfig {
            enabled: flag(&cpu, "enabled", d.cpu_temp.enabled),
            curve: points(&cpu),
            offset_c: num(&cpu, "offset_c", d.cpu_temp.offset_c),
            alpha: num(&cpu, "alpha", d.cpu_temp.alpha),
        },
        gpu_power: GpuPowerConfig {
            enabled: flag(&power, "enabled", d.gpu_power.enabled),
            curve: points(&power),
            unit: match power.get("unit").map(|u| u.as_str().unwrap()) {
                None => d.gpu_power.unit,
                Some("watts") => PowerUnit::Watts,
                Some("percent_tdp") => PowerUnit::PercentTdp,
                Some(other) => panic!("no such unit: {other}"),
            },
            rise_alpha: num(&power, "rise_alpha", d.gpu_power.rise_alpha),
            fall_alpha: num(&power, "fall_alpha", d.gpu_power.fall_alpha),
        },
        thermal_margin: MarginConfig {
            enabled: flag(&margin, "enabled", d.thermal_margin.enabled),
            curve: points(&margin),
            alpha: num(&margin, "alpha", d.thermal_margin.alpha),
        },
        mem_temp: MemTempConfig {
            enabled: flag(&mem, "enabled", d.mem_temp.enabled),
            curve: points(&mem),
            alpha: num(&mem, "alpha", d.mem_temp.alpha),
        },
        throttle: ThrottleConfig {
            enabled: flag(&throttle, "enabled", d.throttle.enabled),
            floor_duty: whole(&throttle, "floor_duty", d.throttle.floor_duty as u64) as u8,
            hold_secs: whole(&throttle, "hold_secs", d.throttle.hold_secs),
            reasons: match throttle.get("reasons") {
                None => d.throttle.reasons,
                Some(v) => v
                    .as_array()
                    .unwrap()
                    .iter()
                    .map(|r| reason(r.as_str().unwrap()))
                    .collect(),
            },
        },
    }
}

fn parse(s: &str) -> Config {
    let t: Table = s.parse().unwrap();
    Config {
        poll_interval_secs: whole(&t, "poll_interval_secs", d_poll()),
        channels: t.get("channels").map(bytes).unwrap_or_else(d_channels),
        fallback_duty: whole(&t, "fallback_duty", d_fallback() as u64) as u8,
        cpu_offset: num(&t, "cpu_offset", d_cpu_offset()),
        hysteresis_c: num(&t, "hysteresis_c", d_hysteresis()),
        min_duty_delta: whole(&t, "min_duty_delta", d_min_delta() as u64) as u8,
        max_step_per_tick: whole(&t, "max_step_per_tick", d_max_step() as u64) as u8,
        curve: points(&t),
        metrics: match section(&t, "metrics").get("listen") {
            None => MetricsConfig::default(),
            Some(v) => MetricsConfig {
                listen: v.as_str().unwrap().to_string(),
            },
        },
        rgb: rgb(&section(&t, "rgb")),
        signals: signals(&section(&t, "signals")),
    }
}

fn load(s: &str) -> Result<Config, ConfigError> {
    let c = parse(s);
    c.validate()?;
    Ok(c)
}

const FULL: &str = r#"
poll_interval_secs = 5
channels = [1, 2]
fallback_duty = 60
cpu_offset = 10.0

[[curve]]
temp = 35.0
duty = 30
[[curve]]
temp = 55.0
duty = 40
[[curve]]
temp = 80.0
duty = 100

[metrics]
listen = "0.0.0.0:9877"
"#;

#[test]
fn parses_full_config() {
    let c = load(FULL).unwrap();
    assert_eq!(c.poll_interval_secs, 5);
    assert_eq!(c.channels, vec![1, 2]);
    assert_eq!(c.fallback_duty, 60);
    assert_eq!(c.curve.len(), 3);
    assert_eq!(
        c.curve[2],
        CurvePoint {
            temp: n(80.0),
            duty: 100
        }
    );
    assert_eq!(c.metrics.listen, "0.0.0.0:9877");
}

#[test]
fn defaults_apply_when_omitted() {
    let c = load("[[curve]]\ntemp = 40.0\nduty = 50\n").unwrap();
    assert_eq!(c.poll_interval_secs, 5);
    assert_eq!(c.channels, vec![1, 2]);
    assert_eq!(c.fallback_duty, 60);
    assert_eq!(c.cpu_offset, n(10.0));
    assert_eq!(c.hysteresis_c, n(2.0));
    assert_eq!(c.min_duty_delta, 5);
    assert_eq!(c.max_step_per_tick, 10);
    assert_eq!(c.metrics.listen, "0.0.0.0:9877");
}

#[test]
fn rejects_empty_curve() {
    assert!(load("channels = [1]\n").is_err());
}

#[test]
fn rejects_unsorted_curve() {
    let s = "[[curve]]\ntemp = 60.0\nduty = 50\n[[curve]]\ntemp = 40.0\nduty = 30\n";
    assert!(load(s).is_err());
}

#[test]
fn rejects_duty_over_100() {
    assert!(load("[[curve]]\ntemp = 40.0\nduty = 101\n").is_err());
}

#[test]
fn rejects_bad_channel() {
    let s = "channels = [1, 5]\n[[curve]]\ntemp = 40.0\nduty = 50\n";
    assert!(load(s).is_err());
}

#[test]
fn rejects_zero_max_step_per_tick() {
    let s = "max_step_per_tick = 0\n[[curve]]\ntemp = 40.0\nduty = 50\n";
    assert!(load(s).is_err());
}

#[test]
fn rejects_zero_poll_interval() {
    let s = "poll_interval_secs = 0\n[[curve]]\ntemp = 40.0\nduty = 50\n";
    assert!(load(s).is_err());
}

#[test]
fn rejects_negative_hysteresis() {
    let s = "hysteresis_c = -1.0\n[[curve]]\ntemp = 40.0\nduty = 50\n";
    assert!(load(s).is_err());
}

#[test]
fn rejects_negative_cpu_offset() {
    let s = "cpu_offset = -1.0\n[[curve]]\ntemp = 40.0\nduty = 50\n";
    assert!(load(s).is_err());
}

#[test]
fn rgb_defaults_off_and_sane() {
    let c = load("[[curve]]\ntemp = 40.0\nduty = 50\n").unwrap();
    assert!(!c.rgb.enabled);
    assert_eq!(c.rgb.fans_per_channel, 6);
    assert!(c.rgb.fans.is_empty());
    assert_eq!(c.rgb.brightness, 0);
    assert_eq!(c.rgb.buckets, 8);
    assert_eq!(c.rgb.stops.len(), 5);
    assert_eq!(
        c.rgb.stops[0],
        ColorStop {
            duty: 30,
            color: [0, 0, 255]
        }
    );
}

#[test]
fn rgb_section_parses() {
    let s = r#"
[[curve]]
temp = 40.0
duty = 50
[rgb]
enabled = true
fans_per_channel = 2
brightness = 1
buckets = 10
[[rgb.stops]]
duty = 0
color = [0, 0, 255]
[[rgb.stops]]
duty = 100
color = [255, 0, 0]
"#;
    let c = load(s).unwrap();
    assert!(c.rgb.enabled);
    assert_eq!(c.rgb.fans_per_channel, 2);
    assert_eq!(c.rgb.stops.len(), 2);
}

#[test]
fn rgb_validation_rejects_bad_values_when_enabled() {
    let base = "[[curve]]\ntemp = 40.0\nduty = 50\n[rgb]\nenabled = true\n";
    // unsorted stops
    let s1 = format!("{base}[[rgb.stops]]\nduty = 50\ncolor = [1,1,1]\n[[rgb.stops]]\nduty = 30\ncolor = [2,2,2]\n");
    assert!(load(&s1).is_err());
    // fans out of range
    assert!(load(&format!("{base}fans_per_channel = 7\n")).is_err());
    // brightness out of range
    assert!(load(&format!("{base}brightness = 9\n")).is_err());
    // buckets too small
    assert!(load(&format!("{base}buckets = 1\n")).is_err());
}

#[test]
fn rgb_bad_values_ignored_when_disabled() {
    // disabled section skips rgb validation
    let s = "[[curve]]\ntemp = 40.0\nduty = 50\n[rgb]\nenabled = false\nfans_per_channel = 7\n";
    assert!(load(s).is_ok());
}

#[test]
fn alerts_defaults_off() {
    let c = load("[[curve]]\ntemp = 40.0\nduty = 50\n").unwrap();
    assert!(!c.rgb.alerts.enabled);
    assert_eq!(c.rgb.alerts.sustained_hot_c, n(75.0));
    assert_eq!(c.rgb.alerts.sustained_after_secs, 120);
    assert_eq!(c.rgb.alerts.near_limit_margin_c, n(3.0));
    assert_eq!(c.rgb.alerts.escalate_every_secs, 30);
    assert_eq!(c.rgb.alerts.cooldown_secs, 60);
    assert_eq!(c.rgb.alerts.alert_color, [255, 0, 0]);
    assert_eq!(c.rgb.alerts.fault_colors, [[255, 80, 0], [255, 0, 0]]);
}

#[test]
fn alerts_validation_rejects_zero_intervals() {
    let base = "[[curve]]\ntemp = 40.0\nduty = 50\n[rgb]\nenabled = true\n[rgb.alerts]\nenabled = true\n";
    // escalate_every_secs = 0 should fail when enabled
    let s1 = format!("{base}escalate_every_secs = 0\n");
    assert!(load(&s1).is_err());
    // but same value is ok when alerts disabled
    let s2 = "[[curve]]\ntemp = 40.0\nduty = 50\n[rgb]\nenabled = true\n[rgb.alerts]\nenabled = false\nescalate_every_secs = 0\n";
    assert!(load(s2).is_ok());
}

#[test]
fn fans_for_channel_falls_back_to_fans_per_channel() {
    let s = "channels = [1, 2]\n[[curve]]\ntemp = 40.0\nduty = 50\n[rgb]\nenabled = true\nfans_per_channel = 3\n";
    let c = load(s).unwrap();
    assert_eq!(c.rgb.fans_for_channel(1), 3);
    assert_eq!(c.rgb.fans_for_channel(2), 3);
}

#[test]
fn fans_for_channel_uses_per_channel_override() {
    let s = r#"
channels = [1, 2]
[[curve]]
temp = 40.0
duty = 50
[rgb]
enabled = true
fans_per_channel = 6
[rgb.fans]
1 = 3
2 = 6
"#;
    let c = load(s).unwrap();
    assert_eq!(c.rgb.fans_for_channel(1), 3);
    assert_eq!(c.rgb.fans_for_channel(2), 6);
}

#[test]
fn rgb_fans_map_defaults_empty() {
    let c = load("[[curve]]\ntemp = 40.0\nduty = 50\n").unwrap();
    assert!(c.rgb.fans.is_empty());
}

#[test]
fn rgb_fans_validation_rejects_channel_not_in_channels() {
    let s = "channels = [1, 2]\n[[curve]]\ntemp = 40.0\nduty = 50\n[rgb]\nenabled = true\n[rgb.fans]\n3 = 4\n";
    assert!(load(s).is_err());
}

#[test]
fn rgb_fans_validation_rejects_unparseable_key() {
    let s = "channels = [1]\n[[curve]]\ntemp = 40.0\nduty = 50\n[rgb]\nenabled = true\n[rgb.fans]\nfoo = 4\n";
    assert!(load(s).is_err());
}

#[test]
fn rgb_fans_validation_rejects_value_out_of_range() {
    let s = "channels = [1]\n[[curve]]\ntemp = 40.0\nduty = 50\n[rgb]\nenabled = true\n[rgb.fans]\n1 = 7\n";
    assert!(load(s).is_err());
    let s2 = "channels = [1]\n[[curve]]\ntemp = 40.0\nduty = 50\n[rgb]\nenabled = true\n[rgb.fans]\n1 = 0\n";
    assert!(load(s2).is_err());
}

#[test]
fn rgb_fans_validation_rejects_non_canonical_key() {
    // "01" parses to channel 1 fine, but fans_for_channel() looks up
    // channel.to_string() == "1"; a non-canonical key would validate
    // and then silently never apply at runtime, so it must be rejected.
    let s = "channels = [1]\n[[curve]]\ntemp = 40.0\nduty = 50\n[rgb]\nenabled = true\n[rgb.fans]\n\"01\" = 4\n";
    assert!(load(s).is_err());
}

#[test]
fn rgb_fans_bad_values_ignored_when_rgb_disabled() {
    let s = "channels = [1]\n[[curve]]\ntemp = 40.0\nduty = 50\n[rgb]\nenabled = false\n[rgb.fans]\n99 = 200\n";
    assert!(load(s).is_ok());
}

// -- [signals] -----------------------------------------------------------

#[test]
fn signals_defaults_off_and_sane() {
    let c = load("[[curve]]\ntemp = 40.0\nduty = 50\n").unwrap();
    assert!(!c.signals.enabled);
    assert_eq!(c.signals.rise_alpha, n(0.5));
    assert_eq!(c.signals.fall_alpha, n(0.1));

    assert!(c.signals.gpu_temp.enabled);
    assert!(c.signals.gpu_temp.curve.is_empty());
    assert_eq!(c.signals.gpu_temp.alpha, n(1.0));

    assert!(c.signals.cpu_temp.enabled);
    assert_eq!(c.signals.cpu_temp.offset_c, n(10.0));
    assert_eq!(c.signals.cpu_temp.alpha, n(1.0));

    assert!(!c.signals.gpu_power.enabled);
    assert_eq!(c.signals.gpu_power.unit, PowerUnit::Watts);
    assert_eq!(c.signals.gpu_power.rise_alpha, n(0.5));
    assert_eq!(c.signals.gpu_power.fall_alpha, n(0.1));

    assert!(!c.signals.thermal_margin.enabled);
    assert_eq!(c.signals.thermal_margin.alpha, n(0.4));

    assert!(!c.signals.mem_temp.enabled);
    assert_eq!(c.signals.mem_temp.alpha, n(1.0));

    assert!(!c.signals.throttle.enabled);
    assert_eq!(c.signals.throttle.floor_duty, 85);
    assert_eq!(c.signals.throttle.hold_secs, 30);
    assert_eq!(
        c.signals.throttle.reasons,
        vec![
            ThrottleReason::SwThermal,
            ThrottleReason::HwThermal,
            ThrottleReason::HwPowerBrake,
        ]
    );
}

#[test]
fn signals_section_parses() {
    let s = r#"
[[curve]]
temp = 40.0
duty = 50

[signals]
enabled = true

[signals.gpu_temp]
enabled = true

[signals.cpu_temp]
enabled = false
offset_c = 12.0

[signals.power]
enabled = true
unit = "percent_tdp"
[[signals.power.curve]]
temp = 25.0
duty = 30
[[signals.power.curve]]
temp = 95.0
duty = 100

[signals.margin]
enabled = true
[[signals.margin.curve]]
temp = 5.0
duty = 100
[[signals.margin.curve]]
temp = 35.0
duty = 30

[signals.mem_temp]
enabled = true
[[signals.mem_temp.curve]]
temp = 60.0
duty = 40
[[signals.mem_temp.curve]]
temp = 90.0
duty = 100

[signals.throttle]
enabled = true
floor_duty = 90
hold_secs = 45
reasons = ["sw_thermal", "hw_power_brake"]
"#;
    let c = load(s).unwrap();
    assert!(c.signals.enabled);
    assert!(c.signals.gpu_temp.enabled);
    assert!(!c.signals.cpu_temp.enabled);
    assert_eq!(c.signals.cpu_temp.offset_c, n(12.0));
    assert!(c.signals.gpu_power.enabled);
    assert_eq!(c.signals.gpu_power.unit, PowerUnit::PercentTdp);
    assert_eq!(c.signals.gpu_power.curve.len(), 2);
    assert!(c.signals.thermal_margin.enabled);
    assert_eq!(c.signals.thermal_margin.curve.len(), 2);
    assert!(c.signals.mem_temp.enabled);
    assert!(c.signals.throttle.enabled);
    assert_eq!(c.signals.throttle.floor_duty, 90);
    assert_eq!(c.signals.throttle.hold_secs, 45);
    assert_eq!(
        c.signals.throttle.reasons,
        vec![ThrottleReason::SwThermal, ThrottleReason::HwPowerBrake]
    );
}

#[test]
fn curve_point_accepts_value_alias() {
    let s = r#"
[[curve]]
temp = 40.0
duty = 50
[signals]
enabled = true
[signals.power]
enabled = true
unit = "watts"
[[signals.power.curve]]
value = 120.0
duty = 30
[[signals.power.curve]]
value = 560.0
duty = 100
"#;
    let c = load(s).unwrap();
    assert_eq!(c.signals.gpu_power.curve[0].temp, n(120.0));
    assert_eq!(c.signals.gpu_power.curve[1].temp, n(560.0));
}

#[test]
fn rejects_signals_enabled_with_no_signal_enabled() {
    let s = "[[curve]]\ntemp = 40.0\nduty = 50\n[signals]\nenabled = true\n[signals.gpu_temp]\nenabled = false\n[signals.cpu_temp]\nenabled = false\n";
    assert!(load(s).is_err());
}

#[test]
fn rejects_power_enabled_without_curve() {
    let s = "[[curve]]\ntemp = 40.0\nduty = 50\n[signals]\nenabled = true\n[signals.power]\nenabled = true\n";
    assert!(load(s).is_err());
}

#[test]
fn rejects_margin_enabled_without_curve() {
    let s = "[[curve]]\ntemp = 40.0\nduty = 50\n[signals]\nenabled = true\n[signals.margin]\nenabled = true\n";
    assert!(load(s).is_err());
}

#[test]
fn rejects_alpha_out_of_range() {
    let base = "[[curve]]\ntemp = 40.0\nduty = 50\n[signals]\nenabled = true\n[signals.gpu_temp]\nenabled = true\n";
    for bad in ["0.0", "-0.1", "1.5"] {
        let s = format!("{base}alpha = {bad}\n");
        assert!(
            load(&s).is_err(),
            "alpha={bad} should be rejected"
        );
    }
    let ok = format!("{base}alpha = 1.0\n");
    assert!(load(&ok).is_ok());
}

#[test]
fn rejects_percent_tdp_curve_over_200() {
    let s = r#"
[[curve]]
temp = 40.0
duty = 50
[signals]
enabled = true
[signals.power]
enabled = true
unit = "percent_tdp"
[[signals.power.curve]]
temp = 120.0
duty = 30
[[signals.power.curve]]
temp = 560.0
duty = 100
"#;
    assert!(load(s).is_err());
}

#[test]
fn rejects_throttle_floor_over_100() {
    let s = "[[curve]]\ntemp = 40.0\nduty = 50\n[signals]\nenabled = true\n[signals.throttle]\nenabled = true\nfloor_duty = 101\n";
    assert!(load(s).is_err());
}

#[test]
fn rejects_negative_signals_cpu_offset() {
    let s = "[[curve]]\ntemp = 40.0\nduty = 50\n[signals]\nenabled = true\n[signals.cpu_temp]\nenabled = true\noffset_c = -1.0\n";
    assert!(load(s).is_err());
}

#[test]
fn signals_bad_values_ignored_when_disabled() {
    // disabled section skips signals validation entirely
    let s = "[[curve]]\ntemp = 40.0\nduty = 50\n[signals]\nenabled = false\n[signals.throttle]\nenabled = true\nfloor_duty = 200\n";
    assert!(load(s).is_ok());
}

#[test]
fn signals_sub_signal_bad_values_ignored_when_sub_signal_disabled() {
    // gpu_temp stays enabled (its default), so signals.enabled has a
    // live sub-signal; cpu_temp's out-of-range values must be ignored
    // because cpu_temp itself is disabled.
    let s = "[[curve]]\ntemp = 40.0\nduty = 50\n[signals]\nenabled = true\n[signals.cpu_temp]\nenabled = false\noffset_c = -5.0\nalpha = 5.0\n";
    assert!(load(s).is_ok());
}

