use unifand::alarm::LedCommand;
use unifand::binary64::Binary64;
use unifand::config::{
    d_channels, d_cpu_offset, d_fallback, d_hysteresis, d_max_step, d_min_delta, d_poll, Config,
    CurvePoint, MetricsConfig, RgbConfig, SignalsConfig,
};
use unifand::control::{
    alerts_are_inert, default_config_path, duty_writes, next_slice, oneshot, parse_args,
    read_temps, record_duty, record_leds, record_rpms, should_warn_of_hub, shutdown_writes,
    ArgsError, SensorRead, HUB_RETRY_MS, HUB_WAIT_SLICE_MS, SLEEP_SLICE_MS,
};
use unifand::daemon::{action_writes, record_tick, LedAction};
use unifand::metrics::Metrics;
use unifand::rgb::{commit_packet, duty_color, MODE_BREATHING, SPEEDS};
use unifand::tick::{Event, Request, TickMachine};

fn n(x: f64) -> Binary64 {
    Binary64::from_bits(x.to_bits())
}

fn config() -> Config {
    Config {
        poll_interval_secs: d_poll(),
        channels: d_channels(),
        fallback_duty: d_fallback(),
        cpu_offset: d_cpu_offset(),
        hysteresis_c: d_hysteresis(),
        min_duty_delta: d_min_delta(),
        max_step_per_tick: d_max_step(),
        curve: [(35.0, 30), (55.0, 40), (80.0, 100)]
            .iter()
            .map(|&(t, duty)| CurvePoint { temp: n(t), duty })
            .collect(),
        metrics: MetricsConfig::default(),
        rgb: RgbConfig::default(),
        signals: SignalsConfig::default(),
    }
}

fn lit() -> Config {
    let mut c = config();
    c.rgb.enabled = true;
    c.rgb.alerts.enabled = true;
    assert!(c.validate().is_ok());
    c
}

fn strings(v: &[&str]) -> Vec<String> {
    v.iter().map(|s| s.to_string()).collect()
}

fn at(gpu: f64) -> Event {
    Event::Sensors {
        cpu: SensorRead::Absent,
        gpu: SensorRead::Value(n(gpu)),
    }
}

/// Answers everything well until the tick rests, and gives what was asked.
fn settle(m: &mut TickMachine, cfg: &Config, first: Event, secs: u64) -> Vec<Request> {
    let mut asked = vec![m.advance(cfg, &first)];
    loop {
        let event = match asked[asked.len() - 1] {
            Request::WriteDuty { .. } | Request::WriteLeds { .. } | Request::Reassert { .. } => {
                Event::Written { all_ok: true }
            }
            Request::MeasureElapsed => Event::Elapsed { secs },
            Request::ReadSpeeds => Event::SpeedsRead { failed: false },
            Request::ReopenHub => Event::Reopened { ok: true },
            Request::FindCpu | Request::FindGpu => Event::Looked { found: false },
            Request::Rest => {
                m.advance(cfg, &Event::Rested);
                return asked;
            }
            Request::ReadSensors => panic!("asked twice"),
        };
        asked.push(m.advance(cfg, &event));
    }
}

fn duties(asked: &[Request]) -> Vec<u8> {
    asked
        .iter()
        .filter_map(|r| match r {
            Request::WriteDuty { duty } => Some(*duty),
            _ => None,
        })
        .collect()
}

fn lights(asked: &[Request]) -> Vec<LedAction> {
    asked
        .iter()
        .filter_map(|r| match r {
            Request::WriteLeds { action } => Some(*action),
            _ => None,
        })
        .collect()
}

#[test]
fn command_lines_are_read_in_order() {
    let a = parse_args(&[]).unwrap();
    assert_eq!((a.config, a.oneshot), (default_config_path(), false));
    let a = parse_args(&strings(&["--oneshot", "--config", "a", "--config", "--oneshot"])).unwrap();
    assert_eq!((a.config.as_str(), a.oneshot), ("--oneshot", true));
    assert_eq!(
        parse_args(&strings(&["--oneshot", "--wat", "--config"])).unwrap_err(),
        ArgsError::Unknown { index: 1 }
    );
    assert_eq!(
        parse_args(&strings(&["--oneshot", "--config"])).unwrap_err(),
        ArgsError::NoPath
    );
}

#[test]
fn one_look_gives_the_duty_of_the_curve() {
    let temps = read_temps(SensorRead::Value(n(60.0)), SensorRead::Failed);
    assert!(temps.gpu_read_failed && !temps.cpu_read_failed);
    assert_eq!(oneshot(&config(), &temps), (Some(n(60.0)), true, Some(52)));
    let none = read_temps(SensorRead::Absent, SensorRead::Absent);
    assert!(!none.gpu_read_failed);
    assert_eq!(oneshot(&config(), &none), (None, true, None));
}

#[test]
fn sleeping_is_cut_into_slices() {
    let mut left = 1100;
    let mut slices = Vec::new();
    while left > 0 {
        let s = next_slice(left, SLEEP_SLICE_MS);
        slices.push(s);
        left -= s;
    }
    assert_eq!(slices, vec![200, 200, 200, 200, 200, 100]);
    assert_eq!(next_slice(HUB_RETRY_MS, HUB_WAIT_SLICE_MS), 1000);
    assert!(!should_warn_of_hub(29));
    assert!(should_warn_of_hub(30));
}

#[test]
fn alerts_without_leds_are_inert() {
    let mut c = lit();
    assert!(!alerts_are_inert(&c));
    c.rgb.enabled = false;
    assert!(alerts_are_inert(&c));
}

#[test]
fn stopping_writes_the_fallback_everywhere() {
    let c = config();
    let w = shutdown_writes(&c);
    assert_eq!(w.len(), 2);
    assert_eq!(w[0].bytes, vec![224, 32, 0, 65]);
    assert_eq!(w[1].what, "set duty ch2 60%");
    assert_eq!(duty_writes(&vec![4], 100)[0].bytes, vec![224, 35, 0, 100]);
}

#[test]
fn bookkeeping_follows_what_succeeded() {
    let c = config();
    let mut m = Metrics::new_at(5, 0);
    assert!(record_duty(&c.channels, 40, &vec![true, true], &mut m));
    assert!(!record_duty(&c.channels, 50, &vec![false, true], &mut m));
    assert_eq!((m.duty.get(&1), m.duty.get(&2)), (Some(&40), Some(&50)));
    assert_eq!(m.hid_errors_write, 1);
    assert!(!record_leds(&vec![false, true, false], &mut m));
    assert!(record_leds(&vec![true], &mut m));
    assert_eq!(m.rgb_errors, 2);
    assert!(!record_rpms(&c.channels, &vec![Some(900), Some(1000)], &mut m));
    assert!(record_rpms(&c.channels, &vec![Some(950), None], &mut m));
    assert_eq!((m.rpm.get(&1), m.rpm.get(&2)), (Some(&950), Some(&1000)));
    assert_eq!(m.hid_errors_read, 1);
}

#[test]
fn temperatures_of_a_tick_are_taken_over() {
    let c = config();
    let mut m = Metrics::new_at(5, 0);
    let mut t = TickMachine::new(&c);
    let cpu = SensorRead::Value(n(70.0));
    t.advance(&c, &Event::Sensors { cpu, gpu: SensorRead::Absent });
    record_tick(&read_temps(cpu, SensorRead::Absent), &t.tick, &mut m);
    assert_eq!(m.temps.get(&"cpu".to_string()), Some(&n(70.0)));
    assert_eq!(m.temps.get(&"control".to_string()), Some(&n(70.0)));
    assert_eq!(m.temps.get(&"gpu".to_string()), None);
    assert!(m.degraded && !m.fallback_active);
}

#[test]
fn lost_sensors_write_the_fallback_at_once() {
    let c = config();
    let mut t = TickMachine::new(&c);
    assert_eq!(duties(&settle(&mut t, &c, at(80.0), 5)), vec![100]);
    for lost in [SensorRead::Absent, SensorRead::Failed] {
        let asked = settle(&mut t, &c, Event::Sensors { cpu: lost, gpu: lost }, 5);
        assert_eq!(duties(&asked), vec![60]);
        assert!(t.tick.fallback_active);
    }
    // From the fallback on, the slew limit holds again.
    assert_eq!(duties(&settle(&mut t, &c, at(80.0), 5)), vec![70]);
}

#[test]
fn a_quiet_tick_only_reads() {
    let c = lit();
    let mut t = TickMachine::new(&c);
    let first = settle(&mut t, &c, at(45.0), 5);
    assert_eq!(duties(&first), vec![35]);
    assert_eq!(lights(&first).len(), 1);
    for _ in 0..3 {
        let asked = settle(&mut t, &c, at(45.5), 5);
        assert!(duties(&asked).is_empty() && lights(&asked).is_empty());
        assert!(matches!(asked[0], Request::MeasureElapsed));
        assert!(matches!(asked[1], Request::ReadSpeeds));
        assert!(matches!(asked[asked.len() - 1], Request::Rest));
    }
}

#[test]
fn a_failed_duty_write_leaves_the_leds_alone() {
    let c = lit();
    let mut t = TickMachine::new(&c);
    assert!(matches!(t.advance(&c, &at(45.0)), Request::WriteDuty { duty: 35 }));
    let next = t.advance(&c, &Event::Written { all_ok: false });
    assert!(matches!(next, Request::MeasureElapsed));
    assert_eq!(t.state.consecutive_errors, 1);
}

#[test]
fn failed_leds_are_tried_again_and_count_nothing() {
    let c = lit();
    let mut t = TickMachine::new(&c);
    t.advance(&c, &at(45.0));
    let want = t.advance(&c, &Event::Written { all_ok: true });
    let Request::WriteLeds { action: LedAction::Gradient { bucket: 2, color } } = want else {
        panic!("{want:?}");
    };
    assert_eq!(color, duty_color(&c.rgb.stops, 35));
    t.advance(&c, &Event::Written { all_ok: false });
    assert_eq!(t.state.consecutive_errors, 0);
    t.advance(&c, &Event::Elapsed { secs: 5 });
    t.advance(&c, &Event::SpeedsRead { failed: false });
    t.advance(&c, &Event::Rested);
    assert_eq!(lights(&settle(&mut t, &c, at(45.0), 5)).len(), 1);
    assert!(lights(&settle(&mut t, &c, at(45.0), 5)).is_empty());
}

#[test]
fn the_alarm_takes_over_the_leds_and_gives_them_back() {
    let c = lit();
    let mut t = TickMachine::new(&c);
    t.state.ctl.max_step = 100;
    settle(&mut t, &c, at(79.0), 5);
    assert_eq!(t.state.led_state(), 2);
    // Shown from the next tick on, a pulse in the alert color.
    let l = lights(&settle(&mut t, &c, at(79.0), 5));
    assert!(matches!(
        l[..],
        [LedAction::Animate {
            command: LedCommand::Breathing { color: (255, 0, 0), speed_idx: 1 },
            speed_only: false
        }]
    ));
    settle(&mut t, &c, at(79.0), 30);
    let l = lights(&settle(&mut t, &c, at(79.0), 0));
    assert!(matches!(
        l[..],
        [LedAction::Animate {
            command: LedCommand::Breathing { speed_idx: 2, .. },
            speed_only: true
        }]
    ));
    // Cool again: after the cooldown the gradient returns.
    settle(&mut t, &c, at(30.0), 30);
    settle(&mut t, &c, at(30.0), 30);
    assert_eq!(t.state.led_state(), 0);
    let l = lights(&settle(&mut t, &c, at(30.0), 5));
    assert!(matches!(l[..], [LedAction::Gradient { bucket: 2, .. }]), "{l:?}");
    assert!(t.state.last_led.is_none());
}

#[test]
fn sustained_heat_breathes_in_the_color_of_the_bin() {
    let mut c = lit();
    c.rgb.alerts.sustained_hot_c = n(40.0);
    c.rgb.alerts.sustained_after_secs = 1;
    let mut t = TickMachine::new(&c);
    settle(&mut t, &c, at(60.0), 5);
    assert_eq!(t.state.led_state(), 1);
    let l = lights(&settle(&mut t, &c, at(60.0), 5));
    let [LedAction::Animate { command: LedCommand::Breathing { color, speed_idx: 0 }, .. }] = l[..]
    else {
        panic!("{l:?}");
    };
    // A duty of 52 lies in bin 3 of 8, which starts at 43.
    assert_eq!(color, duty_color(&c.rgb.stops, 43));
    assert!(lights(&settle(&mut t, &c, at(61.0), 5)).is_empty());
}

#[test]
fn a_hub_that_stops_answering_is_found_and_told_its_duty() {
    let c = lit();
    let mut t = TickMachine::new(&c);
    settle(&mut t, &c, at(45.0), 5);
    for k in 0..3 {
        t.advance(&c, &at(45.0));
        t.advance(&c, &Event::Elapsed { secs: 5 });
        let r = t.advance(&c, &Event::SpeedsRead { failed: true });
        assert_eq!(matches!(r, Request::ReopenHub), k == 2);
        if k < 2 {
            t.advance(&c, &Event::Rested);
        }
    }
    // Not there yet: tried again in the next tick.
    assert!(matches!(t.advance(&c, &Event::Reopened { ok: false }), Request::Rest));
    t.advance(&c, &Event::Rested);
    t.advance(&c, &at(45.0));
    t.advance(&c, &Event::Elapsed { secs: 5 });
    assert!(matches!(
        t.advance(&c, &Event::SpeedsRead { failed: false }),
        Request::ReopenHub
    ));
    assert!(matches!(
        t.advance(&c, &Event::Reopened { ok: true }),
        Request::Reassert { duty: 35 }
    ));
    t.advance(&c, &Event::Written { all_ok: true });
    assert_eq!(t.state.consecutive_errors, 0);
    t.advance(&c, &Event::Rested);
    // The fresh hub has forgotten its color.
    assert_eq!(lights(&settle(&mut t, &c, at(45.0), 5)).len(), 1);
}

#[test]
fn missing_sensors_are_looked_for_now_and_then() {
    let c = config();
    let mut t = TickMachine::new(&c);
    let mut looked = Vec::new();
    for k in 0..30 {
        let asked = settle(&mut t, &c, at(45.0), 5);
        if asked.iter().any(|r| matches!(r, Request::FindCpu)) {
            looked.push(k);
        }
        assert!(!asked.iter().any(|r| matches!(r, Request::FindGpu)));
    }
    assert_eq!(looked, vec![12, 25]);
}

#[test]
fn a_failing_sensor_is_looked_for_after_three_reads() {
    let c = config();
    let mut t = TickMachine::new(&c);
    let failing = Event::Sensors {
        cpu: SensorRead::Failed,
        gpu: SensorRead::Value(n(50.0)),
    };
    for _ in 0..20 {
        settle(&mut t, &c, at(50.0), 5);
    }
    settle(&mut t, &c, Event::Sensors { cpu: SensorRead::Value(n(40.0)), gpu: SensorRead::Value(n(50.0)) }, 5);
    assert_eq!(t.state.cpu_fail_streak, 0);
    let mut ticks = 0;
    loop {
        ticks += 1;
        let asked = settle(&mut t, &c, failing, 5);
        if asked.iter().any(|r| matches!(r, Request::FindCpu)) {
            break;
        }
    }
    assert!(ticks >= 3);
    assert_eq!(t.state.cpu_fail_streak, ticks);
    assert!(t.state.can_step());
}

#[test]
fn actions_become_writes() {
    let c = lit();
    let breathing = LedCommand::Breathing { color: (1, 2, 3), speed_idx: 4 };
    let full = action_writes(&c, &LedAction::Animate { command: breathing, speed_only: false }, 2);
    assert_eq!(full.len(), 3);
    assert_eq!(full[0].bytes[3], 0x16);
    let speed = action_writes(&c, &LedAction::Animate { command: breathing, speed_only: true }, 2);
    assert_eq!(speed.len(), 1);
    assert_eq!(speed[0].bytes, commit_packet(2, MODE_BREATHING, SPEEDS[4], 0).to_vec());
    let runway = LedCommand::Runway { colors: [(255, 80, 0), (255, 0, 0)], speed_idx: 2 };
    let r = action_writes(&c, &LedAction::Animate { command: runway, speed_only: false }, 1);
    assert_eq!(&r[1].bytes[2..8], &[255, 0, 80, 255, 0, 0]);
    assert_eq!(&r[2].bytes[..6], &[0xE0, 0x10, 0x1C, 0x00, 0x00, 0x00]);
    let g = action_writes(&c, &LedAction::Gradient { bucket: 0, color: (9, 8, 7) }, 1);
    assert_eq!(&g[1].bytes[2..5], &[9, 7, 8]);
    assert!(action_writes(&c, &LedAction::Nothing, 1).is_empty());
}

#[test]
fn one_look_foretells_the_first_tick() {
    let c = config();
    for gpu in [20.0, 45.0, 60.0, 99.5] {
        let temps = read_temps(SensorRead::Absent, SensorRead::Value(n(gpu)));
        let foretold = oneshot(&c, &temps).2.unwrap();
        let mut t = TickMachine::new(&c);
        assert_eq!(duties(&settle(&mut t, &c, at(gpu), 5)), vec![foretold]);
    }
}

#[test]
fn the_ladder_of_a_machine_is_the_configured_one() {
    let mut c = lit();
    c.rgb.alerts.sustained_hot_c = n(61.5);
    c.rgb.alerts.sustained_after_secs = 7;
    c.rgb.alerts.near_limit_margin_c = n(3.0);
    c.rgb.alerts.escalate_every_secs = 0;
    c.rgb.alerts.cooldown_secs = 11;
    c.rgb.alerts.alert_color = [1, 2, 3];
    c.rgb.alerts.fault_colors = [[4, 5, 6], [7, 8, 9]];
    let mut t = TickMachine::new(&c);
    for gpu in [40.0, 70.0, 70.0] {
        let a = t.state.alarm.as_ref().unwrap();
        assert!(a.enabled);
        assert_eq!((a.sustained_hot_c, a.near_limit_temp), (n(61.5), n(77.0)));
        assert_eq!((a.sustained_after_secs, a.cooldown_secs), (7, 11));
        assert_eq!(a.escalate_every_secs, 1);
        assert_eq!(a.alert_color, (1, 2, 3));
        assert_eq!(a.fault_colors, [(4, 5, 6), (7, 8, 9)]);
        settle(&mut t, &c, at(gpu), 5);
    }
    // Ten seconds of heat are more than the seven that were asked for.
    assert_eq!(t.state.alarm.as_ref().unwrap().state, 1);
    assert!(TickMachine::new(&config()).state.alarm.is_none());
}
