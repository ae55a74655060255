use nvml_wrapper::bitmasks::device::ThrottleReasons;
use unifand::binary64::Binary64;
use unifand::sensors::{
    caps_from, celsius_from_milli, classify_read, control_temp, is_cpu_sensor,
    refreshed_power_limit, sample_to_f64, signals_from, throttle_flags, CapReads, GpuCaps,
    GpuReads, MarginSource, ReadError, Sample, SignalErrors, HW_POWER_BRAKE_SLOWDOWN,
    HW_THERMAL_SLOWDOWN, SW_POWER_CAP, SW_THERMAL_SLOWDOWN,
};
use unifand::signals::{SignalReadings, ThrottleFlags};

fn n(x: f64) -> Binary64 {
    Binary64::from_bits(x.to_bits())
}

#[test]
fn the_bits_are_those_of_the_driver() {
    assert_eq!(SW_POWER_CAP, ThrottleReasons::SW_POWER_CAP.bits());
    assert_eq!(SW_THERMAL_SLOWDOWN, ThrottleReasons::SW_THERMAL_SLOWDOWN.bits());
    assert_eq!(HW_THERMAL_SLOWDOWN, ThrottleReasons::HW_THERMAL_SLOWDOWN.bits());
    assert_eq!(HW_POWER_BRAKE_SLOWDOWN, ThrottleReasons::HW_POWER_BRAKE_SLOWDOWN.bits());
    for bits in [0u64, 1, 4, 0x20, 0x24, 0x60, 0xe4, 0x1ff, u64::MAX, !0x20] {
        let r = ThrottleReasons::from_bits_retain(bits);
        assert_eq!(
            throttle_flags(bits),
            ThrottleFlags {
                sw_thermal: r.contains(ThrottleReasons::SW_THERMAL_SLOWDOWN),
                hw_thermal: r.contains(ThrottleReasons::HW_THERMAL_SLOWDOWN),
                hw_power_brake: r.contains(ThrottleReasons::HW_POWER_BRAKE_SLOWDOWN),
                sw_power_cap: r.contains(ThrottleReasons::SW_POWER_CAP),
            }
        );
    }
}

#[test]
fn absence_is_not_a_failure() {
    let mut flag = false;
    assert_eq!(classify_read(Ok(7), &mut flag), Some(7));
    assert_eq!(classify_read::<u8>(Err(ReadError::NotSupported), &mut flag), None);
    assert!(!flag);
    assert_eq!(classify_read::<u8>(Err(ReadError::Failed), &mut flag), None);
    assert!(flag);
    assert_eq!(classify_read(Ok(1), &mut flag), Some(1));
    assert!(flag);
}

#[test]
fn capabilities_follow_the_answers() {
    assert_eq!(caps_from(&None), GpuCaps::default());
    let all = CapReads {
        power: true,
        gpu_max_c: Some(90),
        mem_temp: Some(vec![true]),
        throttle: true,
        power_limit_mw: Some(575_000),
    };
    assert_eq!(
        caps_from(&Some(all.clone())),
        GpuCaps {
            power: true,
            margin: MarginSource::GpuMaxMinusTemp { threshold_c: n(90.0) },
            mem_temp: true,
            throttle: true,
            power_limit_w: Some(n(575.0)),
        }
    );
    for mem_temp in [None, Some(vec![]), Some(vec![false, true])] {
        let c = caps_from(&Some(CapReads { mem_temp, ..all.clone() }));
        assert!(!c.mem_temp);
    }
}

#[test]
fn the_power_limit_is_refreshed_only_by_a_gpu_that_answers() {
    let mut caps = GpuCaps { power_limit_w: Some(n(575.0)), ..GpuCaps::default() };
    refreshed_power_limit(&mut caps, false, None);
    assert_eq!(caps.power_limit_w, Some(n(575.0)));
    refreshed_power_limit(&mut caps, true, Some(400_500));
    assert_eq!(caps.power_limit_w, Some(n(400.5)));
    refreshed_power_limit(&mut caps, true, None);
    assert_eq!(caps.power_limit_w, None);
}

fn full_caps() -> GpuCaps {
    GpuCaps {
        power: true,
        margin: MarginSource::GpuMaxMinusTemp { threshold_c: n(90.0) },
        mem_temp: true,
        throttle: true,
        power_limit_w: Some(n(575.0)),
    }
}

#[test]
fn answers_become_readings() {
    let reads = GpuReads {
        power_mw: Ok(412_500),
        gpu_temp_c: Ok(39),
        mem_temp: Ok(vec![Ok(Sample::U32(70))]),
        throttle_bits: Ok(0x24),
    };
    let (r, e) = signals_from(&full_caps(), &Some(reads));
    assert_eq!(
        r,
        SignalReadings {
            gpu_temp_c: None,
            cpu_temp_c: None,
            gpu_power_w: Some(n(412.5)),
            gpu_power_limit_w: Some(n(575.0)),
            thermal_margin_c: Some(n(51.0)),
            mem_temp_c: Some(n(70.0)),
            throttle: ThrottleFlags {
                sw_thermal: true,
                hw_thermal: false,
                hw_power_brake: false,
                sw_power_cap: true
            },
        }
    );
    assert_eq!(e, SignalErrors::default());
}

#[test]
fn failures_are_told_apart_from_absence() {
    let reads = GpuReads {
        power_mw: Err(ReadError::NotSupported),
        gpu_temp_c: Err(ReadError::Failed),
        mem_temp: Ok(vec![]),
        throttle_bits: Err(ReadError::Failed),
    };
    let (r, e) = signals_from(&full_caps(), &Some(reads));
    assert_eq!(r, SignalReadings { gpu_power_limit_w: Some(n(575.0)), ..Default::default() });
    assert_eq!(
        e,
        SignalErrors { power: false, margin: true, mem_temp: true, throttle: true }
    );
    let (r, e) = signals_from(&full_caps(), &None);
    assert_eq!((r, e), (SignalReadings::default(), SignalErrors::default()));
}

#[test]
fn what_the_gpu_cannot_report_is_not_read() {
    let reads = GpuReads {
        power_mw: Ok(1),
        gpu_temp_c: Err(ReadError::Failed),
        mem_temp: Err(ReadError::Failed),
        throttle_bits: Ok(u64::MAX),
    };
    let (r, e) = signals_from(&GpuCaps::default(), &Some(reads));
    assert_eq!((r, e), (SignalReadings::default(), SignalErrors::default()));
}

#[test]
fn samples_become_the_nearest_number() {
    for u in [0u64, 9007199254740993, u64::MAX] {
        assert_eq!(sample_to_f64(Sample::U64(u)), n(u as f64));
    }
    assert_eq!(sample_to_f64(Sample::I64(i64::MIN)), n(i64::MIN as f64));
}

#[test]
fn the_cpu_sensor_is_known_by_its_name() {
    assert!(is_cpu_sensor("k10temp\n"));
    assert!(is_cpu_sensor(" k10temp"));
    assert!(!is_cpu_sensor("nvme\n"));
    assert!(!is_cpu_sensor("k10temp2"));
    assert!(!is_cpu_sensor(""));
    assert_eq!(celsius_from_milli(n(64250.0)), n(64.25));
}

#[test]
fn the_control_temperature_is_never_below_either_part() {
    for g in [20.0, 55.5, 80.0, f64::NAN] {
        for c in [20.0, 65.5, 95.0] {
            let (t, degraded) = control_temp(Some(n(g)), Some(n(c)), n(10.0));
            let t = f64::from_bits(t.unwrap().to_bits());
            assert!(!(t < g) && !(t < c - 10.0));
            assert_eq!(t, g.max(c - 10.0));
            assert!(!degraded);
        }
    }
}

#[test]
fn unknown_throttle_bits_change_nothing() {
    for known in [0u64, 0x4, 0x20, 0x40, 0x80, 0xE4] {
        assert_eq!(
            throttle_flags(known | 0xFFFF_FFFF_FFFF_FF1B),
            throttle_flags(known)
        );
    }
    assert_ne!(throttle_flags(0xE4), throttle_flags(0));
}
