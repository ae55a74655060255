//! Waiting for a hub that is not there when the daemon starts.
//!
//! The hub is tried, and after a failure tried again once the retry time has
//! passed. The time is slept in slices, and after each of them the daemon shows
//! that it is alive.

use crate::control::{next_slice, should_warn_of_hub, HUB_RETRY_MS, HUB_WAIT_SLICE_MS};
use crate::metrics::Metrics;
use vstd::prelude::*;

verus! {

/// What came of the last action.
#[derive(Debug, Clone, Copy)]
pub enum HubWaitEvent {
    /// The hub is there and was set up.
    Found,
    /// The hub could not be found, opened or set up. With the seconds since this
    /// was last warned of, if it was.
    Missing { secs_since_warning: Option<u64> },
    /// A sleep is over, or was cut short because stopping is requested.
    Slept { stopping: bool },
}

/// What to do next.
#[derive(Debug, Clone, Copy, PartialEq, Eq, Structural)]
pub enum HubWaitAction {
    /// Use the hub.
    Connected,
    /// Sleep, after a warning if one is due.
    Sleep { ms: u64, warn: bool },
    /// Try again.
    Retry,
    /// Stop without a hub.
    Stop,
}

/// A wait for the hub.
pub struct HubWait {
    /// What is left to sleep before the hub is tried again, after the sleep
    /// that was asked for last.
    pub left_ms: u64,
}

/// Whether to warn of a missing hub: at once, then again after half a minute.
pub open spec fn warning_due(secs_since_warning: Option<u64>) -> bool {
    match secs_since_warning {
        None => true,
        Some(secs) => secs >= 30,
    }
}

/// The slice to sleep out of what is left.
pub open spec fn slice_of(left_ms: u64) -> u64 {
    if left_ms < HUB_WAIT_SLICE_MS {
        left_ms
    } else {
        HUB_WAIT_SLICE_MS
    }
}

impl HubWait {
    /// What an event leads to.
    pub open spec fn action(self, event: HubWaitEvent) -> HubWaitAction {
        match event {
            HubWaitEvent::Found => HubWaitAction::Connected,
            HubWaitEvent::Missing { secs_since_warning } => HubWaitAction::Sleep {
                ms: slice_of(HUB_RETRY_MS),
                warn: warning_due(secs_since_warning),
            },
            HubWaitEvent::Slept { stopping } => if stopping {
                HubWaitAction::Stop
            } else if self.left_ms > 0 {
                HubWaitAction::Sleep { ms: slice_of(self.left_ms), warn: false }
            } else {
                HubWaitAction::Retry
            },
        }
    }

    /// The wait after an event.
    pub open spec fn after(self, event: HubWaitEvent) -> HubWait {
        match event {
            HubWaitEvent::Found => self,
            HubWaitEvent::Missing { .. } => HubWait {
                left_ms: (HUB_RETRY_MS - slice_of(HUB_RETRY_MS)) as u64,
            },
            HubWaitEvent::Slept { stopping } => if stopping {
                self
            } else {
                HubWait { left_ms: (self.left_ms - slice_of(self.left_ms)) as u64 }
            },
        }
    }

    /// A wait before the first try.
    pub fn new() -> (w: HubWait)
        ensures
            w.left_ms == 0,
    {
        HubWait { left_ms: 0 }
    }

    /// Takes an event and gives what to do next.
    pub fn step(&mut self, event: &HubWaitEvent) -> (a: HubWaitAction)
        ensures
            a == old(self).action(*event),
            *final(self) == old(self).after(*event),
    {
        match event {
            HubWaitEvent::Found => HubWaitAction::Connected,
            HubWaitEvent::Missing { secs_since_warning } => {
                let warn: bool = match secs_since_warning {
                    None => true,
                    Some(secs) => should_warn_of_hub(*secs),
                };
                let ms: u64 = next_slice(HUB_RETRY_MS, HUB_WAIT_SLICE_MS);
                self.left_ms = HUB_RETRY_MS - ms;
                HubWaitAction::Sleep { ms, warn }
            },
            HubWaitEvent::Slept { stopping } => {
                if *stopping {
                    return HubWaitAction::Stop;
                }
                if self.left_ms > 0 {
                    let ms: u64 = next_slice(self.left_ms, HUB_WAIT_SLICE_MS);
                    self.left_ms = self.left_ms - ms;
                    HubWaitAction::Sleep { ms, warn: false }
                } else {
                    HubWaitAction::Retry
                }
            },
        }
    }

    /// How long is slept before the hub is tried again, if nothing asks to
    /// stop.
    pub open spec fn sleep_ahead(self) -> nat
        decreases self.left_ms,
    {
        match self.action(HubWaitEvent::Slept { stopping: false }) {
            HubWaitAction::Sleep { ms, .. } => if 0 < ms <= self.left_ms {
                ms as nat + self.after(HubWaitEvent::Slept { stopping: false }).sleep_ahead()
            } else {
                0
            },
            _ => 0,
        }
    }
}

/// The metrics after an event at a given time.
pub open spec fn metrics_after(m: Metrics, event: HubWaitEvent, now_secs: u64) -> Metrics {
    match event {
        HubWaitEvent::Found => Metrics { hub_present: true, ..m },
        HubWaitEvent::Missing { .. } => Metrics { hub_present: false, last_tick: now_secs, ..m },
        HubWaitEvent::Slept { stopping } => if stopping {
            m
        } else {
            Metrics { last_tick: now_secs, ..m }
        },
    }
}

/// Takes an event over into the metrics: whether the hub is there, and that the
/// daemon is alive.
pub fn record_hub_wait(event: &HubWaitEvent, now_secs: u64, m: &mut Metrics)
    ensures
        *final(m) == metrics_after(*old(m), *event, now_secs),
{
    match event {
        HubWaitEvent::Found => {
            m.set_hub_present(true);
        },
        HubWaitEvent::Missing { .. } => {
            m.set_hub_present(false);
            m.set_last_tick(now_secs);
        },
        HubWaitEvent::Slept { stopping } => {
            if !*stopping {
                m.set_last_tick(now_secs);
            }
        },
    }
}

proof fn lemma_sleep_ahead(w: HubWait)
    ensures
        w.sleep_ahead() == w.left_ms,
    decreases w.left_ms,
{
    if w.left_ms > 0 {
        lemma_sleep_ahead(w.after(HubWaitEvent::Slept { stopping: false }));
    }
}

/// A missing hub is tried again after exactly the retry time, if nothing asks
/// to stop.
pub proof fn law_missing_hub_is_retried_in_time(w: HubWait, secs_since_warning: Option<u64>)
    ensures
        ({
            let event = HubWaitEvent::Missing { secs_since_warning };
            w.action(event) matches HubWaitAction::Sleep { ms, .. } && ms + w.after(
                event,
            ).sleep_ahead() == HUB_RETRY_MS
        }),
{
    lemma_sleep_ahead(w.after(HubWaitEvent::Missing { secs_since_warning }));
}

/// No sleep is longer than a slice, and a request to stop ends the wait.
pub proof fn law_waiting_never_sleeps_long(w: HubWait, event: HubWaitEvent)
    ensures
        w.action(event) matches HubWaitAction::Sleep { ms, .. } ==> 0 < ms <= HUB_WAIT_SLICE_MS,
        event matches HubWaitEvent::Slept { stopping } && stopping ==> w.action(event) is Stop,
        w.action(event) is Connected <==> event is Found,
{
}

/// While it waits, the daemon is healthy: for three poll intervals after every
/// failed try and every slice of sleep, whatever went before.
pub proof fn law_waiting_is_healthy(
    w: HubWait,
    m: Metrics,
    event: HubWaitEvent,
    now_secs: u64,
    later_secs: u64,
)
    requires
        w.action(event) is Sleep || w.action(event) is Retry,
        later_secs <= now_secs + 3 * m.poll_interval_secs,
    ensures
        metrics_after(m, event, now_secs).alive_at(later_secs),
{
}

} // verus!
