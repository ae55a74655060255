use unifand::binary64::Binary64;
use unifand::metrics::{healthz_ok, now_unix_secs, Metrics, VERSION};
use unifand::report::{Piece, Report};
use unifand::signals::{SignalKind, ThrottleFlags};

fn n(x: f64) -> Binary64 {
    Binary64::from_bits(x.to_bits())
}

fn printed(r: &Report) -> String {
    let mut out = String::new();
    for p in &r.pieces {
        match p {
            Piece::Text(s) => out.push_str(s),
            Piece::Value(x) => out.push_str(&format!("{}", f64::from_bits(x.to_bits()))),
        }
    }
    out
}

fn m() -> Metrics {
    Metrics::new(5)
}

#[test]
fn renders_prometheus_text() {
    let mut m = m();
    m.set_temp("gpu", n(71.0));
    m.set_temp("control", n(71.0));
    m.set_duty(1, 65);
    m.set_rpm(1, 1350);
    m.set_degraded(false);
    m.inc_hid_errors_write();
    m.inc_hid_errors_write();
    m.inc_hid_errors_read();
    let out = printed(&m.render());
    assert!(out.contains("# TYPE unifand_temp_celsius gauge"));
    assert!(out.contains("unifand_temp_celsius{source=\"gpu\"} 71"));
    assert!(out.contains("unifand_duty_percent{channel=\"1\"} 65"));
    assert!(out.contains("unifand_fan_rpm{channel=\"1\"} 1350"));
    assert!(out.contains("unifand_degraded 0"));
    assert!(out.contains("unifand_hid_errors_total{kind=\"write\"} 2"));
    assert!(out.contains("unifand_hid_errors_total{kind=\"read\"} 1"));
}

#[test]
fn degraded_flag_renders_one() {
    let mut m = m();
    m.set_degraded(true);
    assert!(printed(&m.render()).contains("unifand_degraded 1"));
}

#[test]
fn fallback_active_renders() {
    let mut m = m();
    assert!(printed(&m.render()).contains("unifand_fallback_active 0"));
    m.set_fallback_active(true);
    let out = printed(&m.render());
    assert!(out.contains("# TYPE unifand_fallback_active gauge"));
    assert!(out.contains("unifand_fallback_active 1"));
}

#[test]
fn hub_present_renders() {
    let mut m = m();
    assert!(printed(&m.render()).contains("unifand_hub_present 0"));
    m.set_hub_present(true);
    assert!(printed(&m.render()).contains("unifand_hub_present 1"));
}

#[test]
fn build_info_renders_crate_version() {
    let out = printed(&m().render());
    assert!(out.contains("# TYPE unifand_build_info gauge"));
    assert!(out.contains(&format!(
        "unifand_build_info{{version=\"{}\"}} 1",
        VERSION
    )));
}

#[test]
fn last_tick_seeded_near_process_start_and_settable() {
    let mut m = m();
    let seeded = now_unix_secs();
    let out = printed(&m.render());
    assert!(out.contains("# TYPE unifand_last_tick_timestamp_seconds gauge"));
    // Seeded value must be close to "now" (within a couple seconds of
    // test execution), not zero.
    let line = out
        .lines()
        .find(|l| l.starts_with("unifand_last_tick_timestamp_seconds "))
        .unwrap();
    let v: u64 = line
        .strip_prefix("unifand_last_tick_timestamp_seconds ")
        .unwrap()
        .trim()
        .parse()
        .unwrap();
    assert!(v.abs_diff(seeded) <= 2);

    m.set_last_tick(1_000);
    assert!(printed(&m.render())
        .contains("unifand_last_tick_timestamp_seconds 1000"));
}

#[test]
fn rgb_errors_counter_renders() {
    let mut m = m();
    m.inc_rgb_errors();
    let out = printed(&m.render());
    assert!(out.contains("# TYPE unifand_rgb_errors_total counter"));
    assert!(out.contains("unifand_rgb_errors_total 1"));
}

#[test]
fn led_state_renders() {
    let mut m = m();
    m.set_led_state(2);
    let out = printed(&m.render());
    assert!(out.contains(
        "# HELP unifand_led_state Alarm ladder state (0 normal, 1 sustained-hot, 2 near-limit, 3 fault)."
    ));
    assert!(out.contains("# TYPE unifand_led_state gauge"));
    assert!(out.contains("unifand_led_state 2"));
}

#[test]
fn healthz_ok_within_3x_poll_interval() {
    assert!(healthz_ok(100, 100, 5)); // exactly now
    assert!(healthz_ok(115, 100, 5)); // exactly at the 3x boundary
    assert!(!healthz_ok(116, 100, 5)); // one second past
}

#[test]
fn healthz_ok_handles_clock_seed_before_now() {
    // last_tick in the future (clock skew) must not panic (saturating_sub).
    assert!(healthz_ok(100, 200, 5));
}

#[test]
fn healthz_ok_zero_poll_interval_requires_exact_match() {
    assert!(healthz_ok(100, 100, 0));
    assert!(!healthz_ok(101, 100, 0));
}

#[test]
fn signal_value_renders_with_unit_label() {
    let mut m = m();
    m.set_signal_value(SignalKind::GpuPower, n(412.5));
    let out = printed(&m.render());
    assert!(out.contains("# HELP unifand_signal_value"));
    assert!(out.contains("# TYPE unifand_signal_value gauge"));
    assert!(out.contains("unifand_signal_value{signal=\"gpu_power\",unit=\"watts\"} 412.5"));
}

#[test]
fn candidate_duty_renders_per_signal() {
    let mut m = m();
    m.set_candidate_duty(SignalKind::GpuTemp, 55);
    m.set_candidate_duty(SignalKind::GpuPower, 80);
    let out = printed(&m.render());
    assert!(out.contains("# TYPE unifand_signal_candidate_duty_percent gauge"));
    assert!(out.contains("unifand_signal_candidate_duty_percent{signal=\"gpu_temp\"} 55"));
    assert!(out.contains("unifand_signal_candidate_duty_percent{signal=\"gpu_power\"} 80"));
}

#[test]
fn control_signal_is_one_hot() {
    let mut m = m();
    // Two available signals (both have a candidate duty); a third
    // (mem_temp) is never registered, i.e. unavailable this run.
    m.set_candidate_duty(SignalKind::GpuPower, 80);
    m.set_candidate_duty(SignalKind::GpuTemp, 55);
    m.set_control_signal(SignalKind::GpuPower);
    let out = printed(&m.render());
    assert!(out.contains("# TYPE unifand_control_signal gauge"));
    assert!(out.contains("unifand_control_signal{signal=\"gpu_power\"} 1"));
    assert!(out.contains("unifand_control_signal{signal=\"gpu_temp\"} 0"));
    assert!(!out.contains("signal=\"mem_temp\""));
}

#[test]
fn absent_signal_emits_no_series() {
    let mut m = m();
    m.set_signal_value(SignalKind::GpuPower, n(100.0));
    m.set_candidate_duty(SignalKind::GpuPower, 60);
    m.set_control_signal(SignalKind::GpuPower);
    let out = printed(&m.render());
    // mem_temp is never touched -> absent, not zero.
    assert!(!out.contains("signal=\"mem_temp\""));
}

#[test]
fn throttle_metrics_render_all_four_reasons() {
    let mut m = m();
    m.set_throttle(ThrottleFlags {
        sw_thermal: true,
        hw_thermal: false,
        hw_power_brake: false,
        sw_power_cap: true,
    });
    let out = printed(&m.render());
    assert!(out.contains("# TYPE unifand_throttle_active gauge"));
    assert!(out.contains("unifand_throttle_active{reason=\"sw_thermal\"} 1"));
    assert!(out.contains("unifand_throttle_active{reason=\"hw_thermal\"} 0"));
    assert!(out.contains("unifand_throttle_active{reason=\"hw_power_brake\"} 0"));
    assert!(out.contains("unifand_throttle_active{reason=\"sw_power_cap\"} 1"));
}

#[test]
fn legacy_render_is_unchanged_when_no_signals_registered() {
    let mut m = m();
    m.set_temp("gpu", n(71.0));
    m.set_duty(1, 65);
    m.set_rpm(1, 1350);
    m.set_degraded(false);
    m.set_led_state(0);
    let out = printed(&m.render());
    // Three of the families do not share the `unifand_signal_` prefix.
    for family in [
        "unifand_signal_value",
        "unifand_signal_candidate_duty_percent",
        "unifand_signal_errors_total",
        "unifand_control_signal",
        "unifand_gpu_power_limit_watts",
        "unifand_throttle_active",
    ] {
        assert!(
            !out.contains(family),
            "legacy render must not emit {family}, got:\n{out}"
        );
    }
    // The one family of the signals that is always there.
    assert!(out.contains("unifand_throttle_floor_active 0"));
}
