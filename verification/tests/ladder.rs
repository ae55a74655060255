use unifand::alarm::{state_name, AlarmInputs, AlarmMachine, LedCommand};
use unifand::binary64::Binary64;
use unifand::config::AlertsConfig;

fn n(x: f64) -> Binary64 {
    Binary64::from_bits(x.to_bits())
}

fn machine() -> AlarmMachine {
    let mut cfg = AlertsConfig::default();
    cfg.enabled = true;
    AlarmMachine::new(&cfg, n(80.0))
}

fn at(t: Option<f64>, duty: u8, fallback_active: bool) -> AlarmInputs {
    AlarmInputs {
        control_temp: t.map(n),
        duty,
        fallback_active,
    }
}

#[test]
fn going_up_is_immediate_and_named() {
    let mut m = machine();
    assert_eq!(m.tick(&at(Some(76.0), 50, false), 120), Some("SustainedHot"));
    assert_eq!(m.tick(&at(Some(77.0), 50, false), 1), Some("NearLimit"));
    assert_eq!(m.tick(&at(None, 60, true), 1), Some("Fault"));
    assert_eq!(m.tick(&at(None, 60, true), 1), None);
    assert_eq!(state_name(0), "Normal");
    assert_eq!(
        m.led(),
        Some(LedCommand::Runway {
            colors: [(255, 80, 0), (255, 0, 0)],
            speed_idx: 2
        })
    );
}

#[test]
fn going_down_waits_for_the_whole_cooldown_and_lands_on_what_is_asked() {
    let mut m = machine();
    m.tick(&at(None, 60, true), 1);
    for _ in 0..59 {
        assert_eq!(m.tick(&at(Some(30.0), 10, false), 1), None);
    }
    // A fault in between starts the cooldown over.
    m.tick(&at(None, 60, true), 1);
    for _ in 0..59 {
        assert_eq!(m.tick(&at(Some(79.0), 10, false), 1), None);
    }
    assert_eq!(m.tick(&at(Some(79.0), 10, false), 1), Some("NearLimit"));
}

#[test]
fn a_gap_leaves_the_heat_as_it_was() {
    let mut m = machine();
    m.tick(&at(Some(75.0), 10, false), 100);
    m.tick(&at(None, 10, false), 1000);
    assert_eq!(m.hot_secs, 100);
    m.tick(&at(Some(74.9), 10, false), 5);
    assert_eq!(m.hot_secs, 0);
}

#[test]
fn a_ladder_that_is_off_never_moves() {
    let mut m = AlarmMachine::new(&AlertsConfig::default(), n(80.0));
    assert_eq!(m.tick(&at(None, 100, true), 1000), None);
    assert_eq!(m.state_code(), 0);
    assert!(m.led().is_none());
}

#[test]
fn the_pulse_quickens_up_to_the_fastest() {
    let mut m = machine();
    m.tick(&at(Some(79.0), 100, false), 1);
    let mut last = 0;
    for _ in 0..10 {
        m.tick(&at(Some(79.0), 100, false), 20);
        let Some(LedCommand::Breathing { speed_idx, .. }) = m.led() else {
            panic!("no pulse");
        };
        assert!(speed_idx >= last && (1..=4).contains(&speed_idx));
        last = speed_idx;
    }
    assert_eq!(last, 4);
}

#[test]
fn an_escalation_interval_of_zero_counts_as_one() {
    let mut cfg = AlertsConfig::default();
    cfg.enabled = true;
    cfg.escalate_every_secs = 0;
    let mut m = AlarmMachine::new(&cfg, n(80.0));
    m.tick(&at(Some(79.0), 100, false), 1);
    m.tick(&at(Some(79.0), 100, false), u64::MAX);
    assert!(matches!(m.led(), Some(LedCommand::Breathing { speed_idx: 4, .. })));
}
