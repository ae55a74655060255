use unifand::control::record_reopening;
use unifand::hub_wait::{record_hub_wait, HubWait, HubWaitAction, HubWaitEvent};
use unifand::metrics::Metrics;

const SLEPT: HubWaitEvent = HubWaitEvent::Slept { stopping: false };

fn missing(secs_since_warning: Option<u64>) -> HubWaitEvent {
    HubWaitEvent::Missing { secs_since_warning }
}

#[test]
fn a_missing_hub_is_retried_every_five_seconds() {
    let mut w = HubWait::new();
    let mut event = missing(None);
    for _ in 0..3 {
        let mut slept = 0;
        loop {
            match w.step(&event) {
                HubWaitAction::Sleep { ms, .. } => {
                    assert!(ms <= 1000);
                    slept += ms;
                    event = SLEPT;
                }
                HubWaitAction::Retry => break,
                other => panic!("{other:?}"),
            }
        }
        assert_eq!(slept, 5000);
        event = missing(Some(5));
    }
    assert_eq!(w.step(&HubWaitEvent::Found), HubWaitAction::Connected);
}

#[test]
fn warnings_come_at_once_and_then_every_half_minute() {
    for (since, due) in [(None, true), (Some(0), false), (Some(29), false), (Some(30), true)] {
        assert_eq!(
            HubWait::new().step(&missing(since)),
            HubWaitAction::Sleep { ms: 1000, warn: due }
        );
    }
    let mut w = HubWait::new();
    w.step(&missing(None));
    assert_eq!(w.step(&SLEPT), HubWaitAction::Sleep { ms: 1000, warn: false });
}

#[test]
fn stopping_ends_the_wait() {
    let mut w = HubWait::new();
    w.step(&missing(None));
    assert_eq!(
        w.step(&HubWaitEvent::Slept { stopping: true }),
        HubWaitAction::Stop
    );
}

#[test]
fn waiting_keeps_the_daemon_healthy() {
    let mut m = Metrics::new_at(1, 100);
    m.set_hub_present(true);
    record_hub_wait(&missing(None), 200, &mut m);
    assert_eq!((m.hub_present, m.last_tick), (false, 200));
    assert!(m.healthz_at(203));
    record_hub_wait(&SLEPT, 201, &mut m);
    assert!(m.healthz_at(204));
    record_hub_wait(&HubWaitEvent::Slept { stopping: true }, 300, &mut m);
    assert_eq!(m.last_tick, 201);
    record_hub_wait(&HubWaitEvent::Found, 300, &mut m);
    assert_eq!((m.hub_present, m.last_tick), (true, 201));
}

#[test]
fn a_reopened_hub_counts_as_present() {
    let mut m = Metrics::new_at(5, 100);
    record_reopening(true, &mut m);
    assert!(m.hub_present);
    record_reopening(false, &mut m);
    assert!(!m.hub_present);
}
