use unifand::alarm::{AlarmInputs, AlarmMachine, LedCommand};
use unifand::binary64::Binary64;
use unifand::config::AlertsConfig;

fn n(x: f64) -> Binary64 {
    Binary64::from_bits(x.to_bits())
}

fn cfg() -> AlertsConfig {
    AlertsConfig {
        enabled: true,
        sustained_hot_c: n(75.0),
        sustained_after_secs: 120,
        near_limit_margin_c: n(3.0),
        escalate_every_secs: 30,
        cooldown_secs: 60,
        alert_color: [255, 0, 0],
        fault_colors: [[255, 80, 0], [255, 0, 0]],
    }
}
fn inp(t: f64, duty: u8) -> AlarmInputs {
    AlarmInputs {
        control_temp: Some(n(t)),
        duty,
        fallback_active: false,
    }
}

#[test]
fn stays_normal_below_thresholds() {
    let mut m = AlarmMachine::new(&cfg(), n(80.0));
    assert_eq!(m.tick(&inp(60.0, 40), 5), None);
    assert!(m.led().is_none());
    assert_eq!(m.state_code(), 0);
}

#[test]
fn sustained_hot_needs_dwell_time() {
    let mut m = AlarmMachine::new(&cfg(), n(80.0));
    m.tick(&inp(76.0, 70), 5);
    assert_eq!(m.state_code(), 0); // hot but not yet sustained
    m.tick(&inp(76.0, 70), 119);
    assert_eq!(m.state_code(), 1); // 124s >= 120s
    assert!(matches!(
        m.led(),
        Some(LedCommand::Breathing { speed_idx: 0, .. })
    ));
}

#[test]
fn near_limit_triggers_immediately_and_escalates() {
    let mut m = AlarmMachine::new(&cfg(), n(80.0));
    assert!(m.tick(&inp(78.0, 95), 5).is_some()); // 78 >= 80-3
    assert_eq!(m.state_code(), 2);
    assert!(matches!(
        m.led(),
        Some(LedCommand::Breathing { speed_idx: 1, .. })
    ));
    m.tick(&inp(78.5, 100), 30);
    assert!(matches!(
        m.led(),
        Some(LedCommand::Breathing { speed_idx: 2, .. })
    ));
    m.tick(&inp(79.0, 100), 60);
    assert!(matches!(
        m.led(),
        Some(LedCommand::Breathing { speed_idx: 4, .. })
    ));
    m.tick(&inp(79.0, 100), 600);
    assert!(matches!(
        m.led(),
        Some(LedCommand::Breathing { speed_idx: 4, .. })
    )); // caps
}

#[test]
fn duty_pinned_triggers_near_limit_even_when_cooler() {
    let mut m = AlarmMachine::new(&cfg(), n(80.0));
    m.tick(&inp(70.0, 100), 5);
    assert_eq!(m.state_code(), 2);
}

#[test]
fn fault_overrides_everything() {
    let mut m = AlarmMachine::new(&cfg(), n(80.0));
    m.tick(&inp(79.0, 100), 5);
    assert_eq!(m.state_code(), 2);
    let f = AlarmInputs {
        control_temp: None,
        duty: 60,
        fallback_active: true,
    };
    m.tick(&f, 5);
    assert_eq!(m.state_code(), 3);
    assert!(matches!(
        m.led(),
        Some(LedCommand::Runway { speed_idx: 2, .. })
    ));
}

#[test]
fn deescalation_requires_cooldown() {
    let mut m = AlarmMachine::new(&cfg(), n(80.0));
    m.tick(&inp(78.0, 100), 5);
    assert_eq!(m.state_code(), 2);
    m.tick(&inp(60.0, 50), 30);
    assert_eq!(m.state_code(), 2); // cleared only 30s < 60s cooldown
    m.tick(&inp(60.0, 50), 35);
    assert_eq!(m.state_code(), 0); // 65s clear -> drops; sustained not held -> Normal
    assert!(m.led().is_none());
}

#[test]
fn near_limit_drops_to_sustained_when_still_hot() {
    let mut m = AlarmMachine::new(&cfg(), n(80.0));
    m.tick(&inp(76.0, 70), 130); // SustainedHot
    assert_eq!(m.state_code(), 1);
    m.tick(&inp(79.0, 100), 5); // escalate
    assert_eq!(m.state_code(), 2);
    m.tick(&inp(76.0, 80), 65); // near-limit clear past cooldown, still >= 75
    assert_eq!(m.state_code(), 1);
}

#[test]
fn none_temp_freezes_timers() {
    let mut m = AlarmMachine::new(&cfg(), n(80.0));
    m.tick(&inp(76.0, 70), 60);
    let gap = AlarmInputs {
        control_temp: None,
        duty: 70,
        fallback_active: false,
    };
    m.tick(&gap, 600); // sensor gap must not count as dwell
    assert_eq!(m.state_code(), 0);
    m.tick(&inp(76.0, 70), 65); // 60+65 >= 120 across the gap
    assert_eq!(m.state_code(), 1);
}
