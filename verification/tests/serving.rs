use unifand::binary64::Binary64;
use unifand::metrics::{
    asks_for_health, health_response, now_unix_secs, response, seconds_or_zero, Metrics,
    VERSION,
};
use unifand::report::{Piece, Report};
use unifand::signals::{SignalKind, ThrottleFlags};

fn n(x: f64) -> Binary64 {
    Binary64::from_bits(x.to_bits())
}

fn printed(r: &Report) -> String {
    let mut out = String::new();
    for p in &r.pieces {
        match p {
            Piece::Text(s) => out.push_str(s),
            Piece::Value(x) => out.push_str(&format!("{}", f64::from_bits(x.to_bits()))),
        }
    }
    out
}

const HEAD: &str = "# HELP unifand_temp_celsius Sensor and control temperatures.
# TYPE unifand_temp_celsius gauge
";

#[test]
fn a_fresh_page_has_the_families_that_are_always_there() {
    let m = Metrics::new_at(5, 1700000000);
    let want = format!(
        "{HEAD}# HELP unifand_duty_percent Last duty written per channel.
# TYPE unifand_duty_percent gauge
# HELP unifand_fan_rpm Fan speed per channel.
# TYPE unifand_fan_rpm gauge
# HELP unifand_degraded 1 when GPU sensor unavailable.
# TYPE unifand_degraded gauge
unifand_degraded 0
# HELP unifand_fallback_active 1 when all sensors are lost and fallback_duty is being forced.
# TYPE unifand_fallback_active gauge
unifand_fallback_active 0
# HELP unifand_hub_present 1 when the SL V2 hub is currently open and initialized.
# TYPE unifand_hub_present gauge
unifand_hub_present 0
# HELP unifand_hid_errors_total HID write/read failures, by kind.
# TYPE unifand_hid_errors_total counter
unifand_hid_errors_total{{kind=\"write\"}} 0
unifand_hid_errors_total{{kind=\"read\"}} 0
# HELP unifand_rgb_errors_total RGB write failures.
# TYPE unifand_rgb_errors_total counter
unifand_rgb_errors_total 0
# HELP unifand_led_state Alarm ladder state (0 normal, 1 sustained-hot, 2 near-limit, 3 fault).
# TYPE unifand_led_state gauge
unifand_led_state 0
# HELP unifand_throttle_floor_active 1 while the throttle floor is raising applied duty (including hold window).
# TYPE unifand_throttle_floor_active gauge
unifand_throttle_floor_active 0
# HELP unifand_last_tick_timestamp_seconds Unix time the control loop last completed a tick (or startup hub-wait progress).
# TYPE unifand_last_tick_timestamp_seconds gauge
unifand_last_tick_timestamp_seconds 1700000000
# HELP unifand_build_info Build metadata, value is always 1.
# TYPE unifand_build_info gauge
unifand_build_info{{version=\"{VERSION}\"}} 1
"
    );
    assert_eq!(printed(&m.render()), want);
}

#[test]
fn families_come_in_order_with_sorted_labels() {
    let mut m = Metrics::new_at(5, 0);
    m.set_temp("gpu", n(71.5));
    m.set_temp("control", n(71.0));
    m.set_temp("gpu", n(72.25));
    m.set_duty(2, 40);
    m.set_duty(1, 65);
    m.set_rpm(1, 1350);
    m.set_signal_value(SignalKind::ThermalMargin, n(-3.0));
    m.set_signal_value(SignalKind::GpuPower, n(412.5));
    m.set_candidate_duty(SignalKind::ThermalMargin, 90);
    m.set_candidate_duty(SignalKind::CpuTemp, 30);
    m.set_control_signal(SignalKind::ThermalMargin);
    m.set_gpu_power_limit_watts(n(575.0));
    m.set_throttle(ThrottleFlags { hw_thermal: true, ..Default::default() });
    m.set_throttle_floor_active(true);
    m.inc_signal_error(SignalKind::GpuPower);
    m.inc_signal_error(SignalKind::GpuPower);
    m.inc_signal_error(SignalKind::CpuTemp);
    let out = printed(&m.render());
    let lines: Vec<&str> = out.lines().filter(|l| !l.starts_with('#')).collect();
    assert_eq!(
        lines,
        vec![
            "unifand_temp_celsius{source=\"control\"} 71",
            "unifand_temp_celsius{source=\"gpu\"} 72.25",
            "unifand_duty_percent{channel=\"1\"} 65",
            "unifand_duty_percent{channel=\"2\"} 40",
            "unifand_fan_rpm{channel=\"1\"} 1350",
            "unifand_degraded 0",
            "unifand_fallback_active 0",
            "unifand_hub_present 0",
            "unifand_hid_errors_total{kind=\"write\"} 0",
            "unifand_hid_errors_total{kind=\"read\"} 0",
            "unifand_rgb_errors_total 0",
            "unifand_led_state 0",
            "unifand_signal_value{signal=\"gpu_power\",unit=\"watts\"} 412.5",
            "unifand_signal_value{signal=\"thermal_margin\",unit=\"celsius\"} -3",
            "unifand_signal_candidate_duty_percent{signal=\"cpu_temp\"} 30",
            "unifand_signal_candidate_duty_percent{signal=\"thermal_margin\"} 90",
            "unifand_control_signal{signal=\"cpu_temp\"} 0",
            "unifand_control_signal{signal=\"thermal_margin\"} 1",
            "unifand_gpu_power_limit_watts 575",
            "unifand_throttle_active{reason=\"sw_thermal\"} 0",
            "unifand_throttle_active{reason=\"hw_thermal\"} 1",
            "unifand_throttle_active{reason=\"hw_power_brake\"} 0",
            "unifand_throttle_active{reason=\"sw_power_cap\"} 0",
            "unifand_throttle_floor_active 1",
            "unifand_signal_errors_total{signal=\"cpu_temp\"} 1",
            "unifand_signal_errors_total{signal=\"gpu_power\"} 2",
            "unifand_last_tick_timestamp_seconds 0",
            "unifand_build_info{version=\"0.6.3\"} 1",
        ]
    );
}

#[test]
fn health_is_asked_for_at_one_address() {
    assert!(asks_for_health("/healthz"));
    assert!(!asks_for_health("/healthz/"));
    assert!(!asks_for_health("/metrics"));
    assert_eq!(health_response(true), (200, "ok\n"));
    assert_eq!(health_response(false), (500, "stale\n"));
}

#[test]
fn health_lasts_three_polls_after_a_tick() {
    let mut m = Metrics::new_at(5, 1000);
    assert!(m.healthz_at(1015));
    assert!(!m.healthz_at(1016));
    m.set_last_tick(1010);
    assert!(m.healthz_at(1025));
    assert!(m.healthz_at(0));
    assert!(Metrics::new(5).healthz());
    let mut old = Metrics::new(5);
    old.set_last_tick(1000);
    assert!(!old.healthz());
}

#[test]
fn the_clock_is_the_machine_clock() {
    let before = std::time::SystemTime::now()
        .duration_since(std::time::UNIX_EPOCH)
        .unwrap()
        .as_secs();
    let now = now_unix_secs();
    assert!(now >= before && now - before <= 5);
    assert_eq!(seconds_or_zero(Some(7)), 7);
    assert_eq!(seconds_or_zero(None), 0);
}

#[test]
fn a_label_is_served_exactly_when_something_is_known() {
    let kinds = [
        SignalKind::MemTemp,
        SignalKind::ThermalMargin,
        SignalKind::GpuTemp,
        SignalKind::GpuPower,
        SignalKind::CpuTemp,
    ];
    for set in kinds {
        for way in 0..3 {
            let mut m = Metrics::new_at(5, 100);
            m.set_temp("control", n(40.0));
            m.set_duty(1, 30);
            m.set_rpm(1, 900);
            m.set_control_signal(set);
            m.set_throttle(ThrottleFlags::default());
            for k in kinds {
                assert!(!printed(&m.render()).contains(&format!("signal=\"{}\"", k.as_str())));
            }
            match way {
                0 => m.set_signal_value(set, n(1.5)),
                1 => m.set_candidate_duty(set, 40),
                _ => m.inc_signal_error(set),
            }
            for k in kinds {
                let label = format!("signal=\"{}\"", k.as_str());
                assert_eq!(printed(&m.render()).contains(&label), k == set, "{label} {way}");
            }
        }
    }
}

#[test]
fn a_source_can_spell_a_label() {
    let mut m = Metrics::new_at(5, 100);
    m.set_temp("x\",signal=\"gpu_temp", n(40.0));
    assert!(printed(&m.render()).contains("signal=\"gpu_temp\""));
}

#[test]
fn every_address_but_the_health_gives_the_metrics() {
    let m = Metrics::new_at(5, 100);
    let (status, kind, body) = response(&m, "/healthz", 115);
    assert_eq!((status, kind, printed(&body).as_str()), (200, None, "ok\n"));
    let (status, kind, body) = response(&m, "/healthz", 116);
    assert_eq!((status, kind, printed(&body).as_str()), (500, None, "stale\n"));
    for url in ["/metrics", "/", "", "/healthz/", "/Healthz"] {
        let (status, kind, body) = response(&m, url, 1000);
        assert_eq!((status, kind), (200, Some("text/plain; version=0.0.4")));
        assert_eq!(printed(&body), printed(&m.render()));
    }
}

#[test]
fn each_candidate_has_one_line_that_says_whether_it_is_followed() {
    let kinds = [
        SignalKind::MemTemp,
        SignalKind::ThermalMargin,
        SignalKind::GpuTemp,
        SignalKind::GpuPower,
        SignalKind::CpuTemp,
    ];
    for mask in 1u32..32 {
        for winner in kinds {
            let mut m = Metrics::new_at(5, 100);
            m.set_control_signal(SignalKind::MemTemp);
            m.set_control_signal(winner);
            for (i, k) in kinds.into_iter().enumerate() {
                m.set_signal_value(k, n(1.0));
                m.inc_signal_error(k);
                if mask >> i & 1 == 1 {
                    m.set_candidate_duty(k, 40);
                    m.set_candidate_duty(k, 41);
                }
            }
            let page = printed(&m.render());
            for (i, k) in kinds.into_iter().enumerate() {
                let start = format!("unifand_control_signal{{signal=\"{}\"}} ", k.as_str());
                let found: Vec<&str> = page.lines().filter(|l| l.contains(&start)).collect();
                if mask >> i & 1 == 1 {
                    let value = if k == winner { "1" } else { "0" };
                    assert_eq!(found, vec![format!("{start}{value}")]);
                } else {
                    assert!(found.is_empty());
                }
            }
        }
    }
}
