use nvml_wrapper::bitmasks::device::ThrottleReasons;
use unifand::binary64::Binary64;
use unifand::config::ThrottleReason;
use unifand::probe::{field_ids, field_margin_text, format_probe, threshold_names, ProbeSnapshot};
use unifand::report::{Piece, Report};
use unifand::sensors::{
    control_temp, margin_from_threshold, sample_to_f64, should_reprobe, throttle_flags, GpuCaps,
    MarginSource, Sample, POWER_LIMIT_REFRESH_TICKS,
};
use unifand::signals::ThrottleFlags;

fn n(x: f64) -> Binary64 {
    Binary64::from_bits(x.to_bits())
}

fn printed(r: &Report) -> String {
    let mut out = String::new();
    for p in &r.pieces {
        match p {
            Piece::Text(s) => out.push_str(s),
            Piece::Value(x) => out.push_str(&format!("{}", f64::from_bits(x.to_bits()))),
        }
    }
    out
}

fn dump_of(s: &ProbeSnapshot) -> String {
    let margin = field_margin_text(s)
        .and_then(|t| t.parse::<f64>().ok())
        .map(n);
    printed(&format_probe(s, margin))
}

#[test]
fn control_temp_takes_hotter_of_gpu_and_offset_cpu() {
    assert_eq!(
        control_temp(Some(n(70.0)), Some(n(60.0)), n(10.0)),
        (Some(n(70.0)), false)
    );
    assert_eq!(
        control_temp(Some(n(40.0)), Some(n(85.0)), n(10.0)),
        (Some(n(75.0)), false)
    );
}

#[test]
fn control_temp_degrades_gracefully() {
    // GPU missing: raw CPU temp, degraded
    assert_eq!(control_temp(None, Some(n(60.0)), n(10.0)), (Some(n(60.0)), true));
    // CPU missing: GPU only, not degraded
    assert_eq!(control_temp(Some(n(70.0)), None, n(10.0)), (Some(n(70.0)), false));
    // both missing
    assert_eq!(control_temp(None, None, n(10.0)), (None, true));
}

#[test]
fn should_reprobe_only_when_missing_and_interval_elapsed() {
    assert!(!should_reprobe(false, 100, 12)); // healthy: never reprobe
    assert!(!should_reprobe(true, 11, 12)); // missing, but too soon
    assert!(should_reprobe(true, 12, 12)); // missing, interval reached
    assert!(should_reprobe(true, 20, 12)); // missing, well past interval
}

#[test]
fn should_reprobe_at_tick_zero_when_never_probed() {
    // A sensor missing from the first tick (ticks_since_probe starts at
    // 0) must wait a full interval before the first reprobe, not retry
    // every tick.
    assert!(!should_reprobe(true, 0, 12));
}

fn absent<T>() -> Result<T, String> {
    Err("NotSupported".to_string())
}

fn absent_snapshot() -> ProbeSnapshot {
    ProbeSnapshot {
        nvml_version: absent(),
        driver_version: absent(),
        device_name: absent(),
        power_usage_mw: absent(),
        enforced_power_limit_mw: absent(),
        power_management_limit_mw: absent(),
        power_limit_constraints_mw: absent(),
        temperature_gpu_c: absent(),
        thresholds: threshold_names()
            .iter()
            .map(|&name| (name, absent()))
            .collect(),
        fields: field_ids()
            .iter()
            .map(|&(id, name)| (id, name, absent()))
            .collect(),
        throttle_raw: absent(),
        throttle_reasons: absent(),
    }
}

#[test]
fn format_probe_renders_all_absent_signals() {
    let snap = absent_snapshot();
    let out = dump_of(&snap);

    assert!(!out.is_empty());
    for key in [
        "nvml_version=",
        "driver_version=",
        "device_name=",
        "power_usage_mw=",
        "enforced_power_limit_mw=",
        "power_management_limit_mw=",
        "power_limit_constraints_mw=",
        "temperature_gpu_c=",
        "throttle_raw=",
        "throttle_reasons=",
    ] {
        assert!(out.contains(key), "missing line for {key}");
    }
    for &name in threshold_names().iter() {
        let key = format!("threshold.{name}=");
        assert!(out.contains(&key), "missing line for {key}");
    }
    for &(id, name) in field_ids().iter() {
        let key = format!("field.{id}.{name}=");
        assert!(out.contains(&key), "missing line for {key}");
    }
    // Every input is absent, so neither derived margin can be computed.
    assert!(!out.contains("derived.margin"));
}

#[test]
fn format_probe_renders_sample_variants() {
    let mut snap = absent_snapshot();
    snap.fields = vec![
        (185, "POWER_AVERAGE", Ok("U32(579310)".to_string())),
        (186, "POWER_INSTANT", Ok("F64(583.2)".to_string())),
        (82, "MEMORY_TEMP", Ok("U64(0)".to_string())),
        (193, "SHUTDOWN_TLIMIT", absent()),
        (194, "SLOWDOWN_TLIMIT", absent()),
        (195, "MEM_MAX_TLIMIT", absent()),
        (196, "GPU_MAX_TLIMIT", Ok("I64(-3)".to_string())),
    ];

    let out = dump_of(&snap);
    for variant in ["U32(579310)", "F64(583.2)", "U64(0)", "I64(-3)"] {
        assert!(out.contains(variant), "missing rendered variant {variant}");
    }
    // GPU_MAX_TLIMIT (field 196) is I64(-3): the derived margin line
    // should surface that negative headroom directly.
    assert!(out.contains("derived.margin_via_field196_c=-3"));
}

#[test]
fn sample_to_f64_handles_all_variants() {
    assert_eq!(sample_to_f64(Sample::F64(n(1.5))), n(1.5));
    assert_eq!(sample_to_f64(Sample::U32(42)), n(42.0));
    assert_eq!(sample_to_f64(Sample::U64(99)), n(99.0));
    assert_eq!(sample_to_f64(Sample::I64(-3)), n(-3.0));
}

#[test]
fn throttle_flags_maps_each_bit() {
    assert_eq!(
        throttle_flags(ThrottleReasons::SW_THERMAL_SLOWDOWN.bits()),
        ThrottleFlags {
            sw_thermal: true,
            hw_thermal: false,
            hw_power_brake: false,
            sw_power_cap: false,
        }
    );
    assert_eq!(
        throttle_flags(ThrottleReasons::HW_THERMAL_SLOWDOWN.bits()),
        ThrottleFlags {
            sw_thermal: false,
            hw_thermal: true,
            hw_power_brake: false,
            sw_power_cap: false,
        }
    );
    assert_eq!(
        throttle_flags(ThrottleReasons::HW_POWER_BRAKE_SLOWDOWN.bits()),
        ThrottleFlags {
            sw_thermal: false,
            hw_thermal: false,
            hw_power_brake: true,
            sw_power_cap: false,
        }
    );
    assert_eq!(
        throttle_flags(ThrottleReasons::SW_POWER_CAP.bits()),
        ThrottleFlags {
            sw_thermal: false,
            hw_thermal: false,
            hw_power_brake: false,
            sw_power_cap: true,
        }
    );

    // Untracked bits (GPU_IDLE, SYNC_BOOST) must not leak into any
    // tracked flag.
    let untracked = ThrottleReasons::GPU_IDLE | ThrottleReasons::SYNC_BOOST;
    assert_eq!(throttle_flags(untracked.bits()), ThrottleFlags::default());
}

#[test]
fn throttle_flags_any_of_matches_configured_reasons() {
    let flags = throttle_flags(ThrottleReasons::SW_POWER_CAP.bits());
    // sw_power_cap is set on the raw flags, but not in the configured
    // reason list -> any_of must be false.
    assert!(!flags.any_of(&[ThrottleReason::SwThermal, ThrottleReason::HwThermal]));
    assert!(flags.any_of(&[ThrottleReason::SwPowerCap]));
}

#[test]
fn power_limit_refresh_cadence() {
    assert!(!should_reprobe(true, 59, POWER_LIMIT_REFRESH_TICKS));
    assert!(should_reprobe(true, 60, POWER_LIMIT_REFRESH_TICKS));
}

#[test]
fn gpu_caps_default_is_all_unavailable() {
    let caps = GpuCaps::default();
    assert_eq!(
        caps,
        GpuCaps {
            power: false,
            margin: MarginSource::Unavailable,
            mem_temp: false,
            throttle: false,
            power_limit_w: None,
        }
    );
}

#[test]
fn margin_from_threshold_computes_headroom() {
    assert_eq!(margin_from_threshold(n(90.0), Some(n(39.0))), Some(n(51.0)));
    assert_eq!(margin_from_threshold(n(90.0), None), None);
}
