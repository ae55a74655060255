//! Gauges and counters, and the text in which they are served.

use crate::binary64::Binary64;
use crate::ordered::OrderedMap;
use crate::report;
use crate::report::{Glyph, Report};
use crate::signals::{SignalKind, ThrottleFlags};
use crate::text::same_text;
use std::time::UNIX_EPOCH;
use vstd::prelude::*;

verus! {

/// The version that is reported.
pub const VERSION: &'static str = "0.6.3";

/// `SystemTime::elapsed` of std on the start of Unix time: how long ago that
/// was by the machine's clock, in whole seconds, or nothing if the clock stands
/// before it. What the clock shows is left open.
#[verifier::external_body]
fn clock_secs() -> (secs: Option<u64>) {
    match UNIX_EPOCH.elapsed() {
        Ok(d) => Some(d.as_secs()),
        Err(_) => None,
    }
}

/// A time in whole seconds, with zero for a clock that stands too early.
pub fn seconds_or_zero(elapsed: Option<u64>) -> (n: u64)
    ensures
        n == match elapsed {
            Some(s) => s,
            None => 0,
        },
{
    match elapsed {
        Some(s) => s,
        None => 0,
    }
}

/// The Unix time in whole seconds, by the machine's clock. It is zero before
/// 1970.
pub fn now_unix_secs() -> (n: u64) {
    seconds_or_zero(clock_secs())
}

/// Whether the control loop came round within the last three poll intervals. A
/// time that lies ahead counts as now.
pub fn healthz_ok(now_secs: u64, last_tick_secs: u64, poll_secs: u64) -> (b: bool)
    requires
        3 * poll_secs <= u64::MAX,
    ensures
        b == (now_secs - last_tick_secs <= 3 * poll_secs),
{
    now_secs.saturating_sub(last_tick_secs) <= 3 * poll_secs
}

/// Whether a request asks for the health of the daemon.
pub fn asks_for_health(url: &str) -> (b: bool)
    ensures
        b == (url@ == "/healthz"@),
{
    same_text(url, "/healthz")
}

/// The status and the body that answer a question for the health.
pub fn health_response(ok: bool) -> (r: (u16, &'static str))
    ensures
        ok ==> r.0 == 200 && r.1@ == "ok\n"@,
        !ok ==> r.0 == 500 && r.1@ == "stale\n"@,
{
    if ok {
        (200, "ok\n")
    } else {
        (500, "stale\n")
    }
}

/// Everything that is served. What was never set is not served.
#[derive(Debug, Clone)]
pub struct Metrics {
    pub temps: OrderedMap<String, Binary64>,
    pub duty: OrderedMap<u8, u8>,
    pub rpm: OrderedMap<u8, u16>,
    pub degraded: bool,
    pub fallback_active: bool,
    pub hub_present: bool,
    pub hid_errors_write: u64,
    pub hid_errors_read: u64,
    pub rgb_errors: u64,
    pub led_state: u8,
    pub last_tick: u64,
    pub signal_values: OrderedMap<String, (Binary64, SignalKind)>,
    pub signal_candidate_duty: OrderedMap<String, u8>,
    pub control_signal: Option<SignalKind>,
    pub gpu_power_limit_w: Option<Binary64>,
    pub throttle: Option<ThrottleFlags>,
    pub throttle_floor_active: bool,
    pub signal_errors: OrderedMap<String, u64>,
    pub poll_interval_secs: u64,
}

/// Text, as glyphs.
pub open spec fn plain(s: Seq<char>) -> Seq<Glyph> {
    report::plain(s)
}

/// 1 for true and 0 for false, as glyphs.
pub open spec fn flag(b: bool) -> Seq<Glyph> {
    report::count(
        if b {
            1
        } else {
            0
        },
    )
}

/// A family with one value, and no labels.
pub open spec fn scalar(head: Seq<char>, name: Seq<char>, value: Seq<Glyph>) -> Seq<Glyph> {
    plain(head) + plain(name) + value + plain("\n"@)
}

fn write_scalar(out: &mut Report, head: &str, name: &str, value: u64)
    ensures
        final(out)@ == old(out)@ + scalar(head@, name@, report::count(value as nat)),
{
    out.text(head);
    out.text(name);
    out.count(value);
    out.text("\n");
    assert(out@ =~= old(out)@ + scalar(head@, name@, report::count(value as nat)));
}

/// The lines of several entries, one after the other.
pub open spec fn lines<T>(entries: Seq<T>, f: spec_fn(T) -> Seq<Glyph>) -> Seq<Glyph>
    decreases entries.len(),
{
    if entries.len() == 0 {
        Seq::empty()
    } else {
        lines(entries.drop_last(), f) + f(entries.last())
    }
}

proof fn lemma_lines_step<T>(entries: Seq<T>, f: spec_fn(T) -> Seq<Glyph>, i: int)
    requires
        0 <= i < entries.len(),
    ensures
        lines(entries.take(i + 1), f) == lines(entries.take(i), f) + f(entries[i]),
{
    assert(entries.take(i + 1).drop_last() =~= entries.take(i));
}

/// One temperature.
pub open spec fn temp_line(e: (Seq<char>, Binary64)) -> Seq<Glyph> {
    plain("unifand_temp_celsius{source=\""@) + plain(e.0) + plain("\"} "@) + report::value(e.1@)
        + plain("\n"@)
}

/// The sensor and control temperatures.
pub open spec fn temps_part(m: Metrics) -> Seq<Glyph> {
    plain("# HELP unifand_temp_celsius Sensor and control temperatures.\n# TYPE unifand_temp_celsius gauge\n"@)
        + lines(m.temps.entries(), |e| temp_line(e))
}

/// The duty of one channel.
pub open spec fn duty_line(e: (u8, u8)) -> Seq<Glyph> {
    plain("unifand_duty_percent{channel=\""@) + report::count(e.0 as nat) + plain("\"} "@)
        + report::count(e.1 as nat) + plain("\n"@)
}

/// The duty last written to each channel.
pub open spec fn duty_part(m: Metrics) -> Seq<Glyph> {
    plain("# HELP unifand_duty_percent Last duty written per channel.\n# TYPE unifand_duty_percent gauge\n"@)
        + lines(m.duty.entries(), |e| duty_line(e))
}

/// The speed of one channel.
pub open spec fn rpm_line(e: (u8, u16)) -> Seq<Glyph> {
    plain("unifand_fan_rpm{channel=\""@) + report::count(e.0 as nat) + plain("\"} "@)
        + report::count(e.1 as nat) + plain("\n"@)
}

/// The speed of each channel.
pub open spec fn rpm_part(m: Metrics) -> Seq<Glyph> {
    plain("# HELP unifand_fan_rpm Fan speed per channel.\n# TYPE unifand_fan_rpm gauge\n"@)
        + lines(m.rpm.entries(), |e| rpm_line(e))
}

/// The value of one signal.
pub open spec fn value_line(e: (Seq<char>, (Binary64, SignalKind))) -> Seq<Glyph> {
    plain("unifand_signal_value{signal=\""@) + plain(e.0) + plain("\",unit=\""@)
        + plain((e.1).1.unit_name()) + plain("\"} "@) + report::value((e.1).0@) + plain("\n"@)
}

/// The value of each signal that has one.
pub open spec fn values_part(m: Metrics) -> Seq<Glyph> {
    if m.signal_values.entries().len() == 0 {
        Seq::empty()
    } else {
        plain("# HELP unifand_signal_value Conditioned (smoothed) value of each available input signal.\n# TYPE unifand_signal_value gauge\n"@)
            + lines(m.signal_values.entries(), |e| value_line(e))
    }
}

/// How often one signal failed.
pub open spec fn error_line(e: (Seq<char>, u64)) -> Seq<Glyph> {
    plain("unifand_signal_errors_total{signal=\""@) + plain(e.0) + plain("\"} "@)
        + report::count(e.1 as nat) + plain("\n"@)
}

/// How often each signal failed to be read.
pub open spec fn errors_by_signal_part(m: Metrics) -> Seq<Glyph> {
    if m.signal_errors.entries().len() == 0 {
        Seq::empty()
    } else {
        plain("# HELP unifand_signal_errors_total Real read failures per signal; NotSupported is not counted (it means the signal is absent).\n# TYPE unifand_signal_errors_total counter\n"@)
            + lines(m.signal_errors.entries(), |e| error_line(e))
    }
}

/// What one signal asks for.
pub open spec fn candidate_line(e: (Seq<char>, u8)) -> Seq<Glyph> {
    plain("unifand_signal_candidate_duty_percent{signal=\""@) + plain(e.0) + plain("\"} "@)
        + report::count(e.1 as nat) + plain("\n"@)
}

/// Whether one signal is the one that is followed.
pub open spec fn control_line(e: (Seq<char>, u8), winner: Option<SignalKind>) -> Seq<Glyph> {
    plain("unifand_control_signal{signal=\""@) + plain(e.0) + plain("\"} "@) + flag(
        winner matches Some(k) && k.name() == e.0,
    ) + plain("\n"@)
}

/// What each signal asks for, and which of them is followed.
pub open spec fn candidates_part(m: Metrics) -> Seq<Glyph> {
    if m.signal_candidate_duty.entries().len() == 0 {
        Seq::empty()
    } else {
        plain("# HELP unifand_signal_candidate_duty_percent Duty each available signal's curve commands this tick.\n# TYPE unifand_signal_candidate_duty_percent gauge\n"@)
            + lines(m.signal_candidate_duty.entries(), |e| candidate_line(e))
            + plain("# HELP unifand_control_signal One-hot: 1 for the signal driving the applied duty, 0 for other available signals.\n# TYPE unifand_control_signal gauge\n"@)
            + lines(m.signal_candidate_duty.entries(), |e| control_line(e, m.control_signal))
    }
}

/// The enforced power limit, once it is known.
pub open spec fn limit_part(m: Metrics) -> Seq<Glyph> {
    match m.gpu_power_limit_w {
        Some(limit) => plain("# HELP unifand_gpu_power_limit_watts Enforced GPU power limit; enables percent-of-limit dashboards regardless of curve unit.\n# TYPE unifand_gpu_power_limit_watts gauge\n"@)
            + plain("unifand_gpu_power_limit_watts "@) + report::value(limit@) + plain("\n"@),
        None => Seq::empty(),
    }
}

/// Whether one throttle reason is given.
pub open spec fn reason_line(reason: Seq<char>, active: bool) -> Seq<Glyph> {
    plain("unifand_throttle_active{reason=\""@) + plain(reason) + plain("\"} "@) + flag(active)
        + plain("\n"@)
}

/// The throttle reasons, once they are known.
pub open spec fn throttle_part(m: Metrics) -> Seq<Glyph> {
    match m.throttle {
        Some(t) => plain("# HELP unifand_throttle_active NVML throttle reason currently asserted.\n# TYPE unifand_throttle_active gauge\n"@)
            + reason_line("sw_thermal"@, t.sw_thermal)
            + reason_line("hw_thermal"@, t.hw_thermal)
            + reason_line("hw_power_brake"@, t.hw_power_brake)
            + reason_line("sw_power_cap"@, t.sw_power_cap),
        None => Seq::empty(),
    }
}

/// Whether the control is degraded, whether the fallback holds, whether the hub is there.
pub open spec fn flags_part(m: Metrics) -> Seq<Glyph> {
    scalar(
        "# HELP unifand_degraded 1 when GPU sensor unavailable.\n# TYPE unifand_degraded gauge\n"@,
        "unifand_degraded "@,
        flag(m.degraded),
    )
        + scalar(
            "# HELP unifand_fallback_active 1 when all sensors are lost and fallback_duty is being forced.\n# TYPE unifand_fallback_active gauge\n"@,
            "unifand_fallback_active "@,
            flag(m.fallback_active),
        )
        + scalar(
            "# HELP unifand_hub_present 1 when the SL V2 hub is currently open and initialized.\n# TYPE unifand_hub_present gauge\n"@,
            "unifand_hub_present "@,
            flag(m.hub_present),
        )
}

/// How often writing, reading and lighting failed, and the step of the alarm ladder.
pub open spec fn errors_part(m: Metrics) -> Seq<Glyph> {
    plain("# HELP unifand_hid_errors_total HID write/read failures, by kind.\n# TYPE unifand_hid_errors_total counter\n"@)
        + plain("unifand_hid_errors_total{kind=\"write\"} "@)
        + report::count(m.hid_errors_write as nat)
        + plain("\n"@)
        + plain("unifand_hid_errors_total{kind=\"read\"} "@)
        + report::count(m.hid_errors_read as nat)
        + plain("\n"@)
        + scalar(
            "# HELP unifand_rgb_errors_total RGB write failures.\n# TYPE unifand_rgb_errors_total counter\n"@,
            "unifand_rgb_errors_total "@,
            report::count(m.rgb_errors as nat),
        )
        + scalar(
            "# HELP unifand_led_state Alarm ladder state (0 normal, 1 sustained-hot, 2 near-limit, 3 fault).\n# TYPE unifand_led_state gauge\n"@,
            "unifand_led_state "@,
            report::count(m.led_state as nat),
        )
}

/// Whether the throttle floor raises the duty.
pub open spec fn floor_part(m: Metrics) -> Seq<Glyph> {
    scalar(
        "# HELP unifand_throttle_floor_active 1 while the throttle floor is raising applied duty (including hold window).\n# TYPE unifand_throttle_floor_active gauge\n"@,
        "unifand_throttle_floor_active "@,
        flag(m.throttle_floor_active),
    )
}

/// When the control loop last came round, and what was built.
pub open spec fn tail_part(m: Metrics) -> Seq<Glyph> {
    scalar(
        "# HELP unifand_last_tick_timestamp_seconds Unix time the control loop last completed a tick (or startup hub-wait progress).\n# TYPE unifand_last_tick_timestamp_seconds gauge\n"@,
        "unifand_last_tick_timestamp_seconds "@,
        report::count(m.last_tick as nat),
    )
        + plain("# HELP unifand_build_info Build metadata, value is always 1.\n# TYPE unifand_build_info gauge\n"@)
        + plain("unifand_build_info{version=\""@)
        + plain(VERSION@)
        + plain("\"} 1\n"@)
}

/// Everything that is served, in its order.
pub open spec fn rendered(m: Metrics) -> Seq<Glyph> {
    temps_part(m) + duty_part(m) + rpm_part(m) + flags_part(m) + errors_part(m) + values_part(m)
        + candidates_part(m) + limit_part(m) + throttle_part(m) + floor_part(m)
        + errors_by_signal_part(m) + tail_part(m)
}

/// Whether a name is that of a signal.
pub open spec fn is_signal(name: Seq<char>) -> bool {
    exists|k: SignalKind| #[trigger] k.name() == name
}

/// Whether all names are those of signals.
pub open spec fn only_signals(names: Set<Seq<char>>) -> bool {
    forall|name: Seq<char>| #[trigger] names.contains(name) ==> is_signal(name)
}

impl Metrics {
    /// What holds of all metrics: the maps are in order, and those by signal
    /// hold signals alone.
    pub open spec fn wf(self) -> bool {
        &&& self.temps.wf()
        &&& self.duty.wf()
        &&& self.rpm.wf()
        &&& self.signal_values.wf()
        &&& self.signal_candidate_duty.wf()
        &&& self.signal_errors.wf()
        &&& only_signals(self.signal_values@.dom())
        &&& only_signals(self.signal_candidate_duty@.dom())
        &&& only_signals(self.signal_errors@.dom())
    }

    /// Nothing has been set yet; the control loop is taken to have come round
    /// at `now_secs`.
    pub open spec fn is_fresh(self, poll_interval_secs: u64, now_secs: u64) -> bool {
        &&& self.wf()
        &&& self.temps.entries().len() == 0
        &&& self.duty.entries().len() == 0
        &&& self.rpm.entries().len() == 0
        &&& self.signal_values.entries().len() == 0
        &&& self.signal_candidate_duty.entries().len() == 0
        &&& self.signal_errors.entries().len() == 0
        &&& self.temps@.dom() =~= Set::empty()
        &&& self.duty@.dom() =~= Set::empty()
        &&& self.rpm@.dom() =~= Set::empty()
        &&& self.signal_values@.dom() =~= Set::empty()
        &&& self.signal_candidate_duty@.dom() =~= Set::empty()
        &&& self.signal_errors@.dom() =~= Set::empty()
        &&& !self.degraded
        &&& !self.fallback_active
        &&& !self.hub_present
        &&& self.hid_errors_write == 0
        &&& self.hid_errors_read == 0
        &&& self.rgb_errors == 0
        &&& self.led_state == 0
        &&& self.last_tick == now_secs
        &&& self.control_signal is None
        &&& self.gpu_power_limit_w is None
        &&& self.throttle is None
        &&& !self.throttle_floor_active
        &&& self.poll_interval_secs == poll_interval_secs
    }

    /// Metrics that start at a given time.
    pub fn new_at(poll_interval_secs: u64, now_secs: u64) -> (m: Metrics)
        ensures
            m.is_fresh(poll_interval_secs, now_secs),
    {
        Metrics {
            temps: OrderedMap::new(),
            duty: OrderedMap::new(),
            rpm: OrderedMap::new(),
            degraded: false,
            fallback_active: false,
            hub_present: false,
            hid_errors_write: 0,
            hid_errors_read: 0,
            rgb_errors: 0,
            led_state: 0,
            last_tick: now_secs,
            signal_values: OrderedMap::new(),
            signal_candidate_duty: OrderedMap::new(),
            control_signal: None,
            gpu_power_limit_w: None,
            throttle: None,
            throttle_floor_active: false,
            signal_errors: OrderedMap::new(),
            poll_interval_secs,
        }
    }

    /// Metrics that start now, so that the daemon counts as healthy until the
    /// first tick is overdue.
    pub fn new(poll_interval_secs: u64) -> (m: Metrics)
        ensures
            m.is_fresh(poll_interval_secs, m.last_tick),
    {
        Self::new_at(poll_interval_secs, now_unix_secs())
    }

    /// Takes over a temperature.
    pub fn set_temp(&mut self, source: &str, v: Binary64)
        requires
            old(self).wf(),
        ensures
            final(self).wf(),
            final(self).temps@ == old(self).temps@.insert(source@, v),
            *final(self) == (Metrics { temps: final(self).temps, ..*old(self) }),
    {
        self.temps.insert(source.to_owned(), v);
    }

    /// Takes over the duty of a channel.
    pub fn set_duty(&mut self, ch: u8, v: u8)
        requires
            old(self).wf(),
        ensures
            final(self).wf(),
            final(self).duty@ == old(self).duty@.insert(ch, v),
            *final(self) == (Metrics { duty: final(self).duty, ..*old(self) }),
    {
        self.duty.insert(ch, v);
    }

    /// Takes over the speed of a channel.
    pub fn set_rpm(&mut self, ch: u8, v: u16)
        requires
            old(self).wf(),
        ensures
            final(self).wf(),
            final(self).rpm@ == old(self).rpm@.insert(ch, v),
            *final(self) == (Metrics { rpm: final(self).rpm, ..*old(self) }),
    {
        self.rpm.insert(ch, v);
    }

    /// Takes over whether the GPU is missing.
    pub fn set_degraded(&mut self, v: bool)
        ensures
            *final(self) == (Metrics { degraded: v, ..*old(self) }),
    {
        self.degraded = v;
    }

    /// Takes over whether every sensor is lost.
    pub fn set_fallback_active(&mut self, v: bool)
        ensures
            *final(self) == (Metrics { fallback_active: v, ..*old(self) }),
    {
        self.fallback_active = v;
    }

    /// Takes over whether the hub is there.
    pub fn set_hub_present(&mut self, v: bool)
        ensures
            *final(self) == (Metrics { hub_present: v, ..*old(self) }),
    {
        self.hub_present = v;
    }

    /// Counts a failed write.
    pub fn inc_hid_errors_write(&mut self)
        requires
            old(self).hid_errors_write < u64::MAX,
        ensures
            *final(self) == (Metrics { hid_errors_write: (old(self).hid_errors_write + 1) as u64, ..*old(self) }),
    {
        self.hid_errors_write = self.hid_errors_write + 1;
    }

    /// Counts a failed read.
    pub fn inc_hid_errors_read(&mut self)
        requires
            old(self).hid_errors_read < u64::MAX,
        ensures
            *final(self) == (Metrics { hid_errors_read: (old(self).hid_errors_read + 1) as u64, ..*old(self) }),
    {
        self.hid_errors_read = self.hid_errors_read + 1;
    }

    /// Counts a failed LED write.
    pub fn inc_rgb_errors(&mut self)
        requires
            old(self).rgb_errors < u64::MAX,
        ensures
            *final(self) == (Metrics { rgb_errors: (old(self).rgb_errors + 1) as u64, ..*old(self) }),
    {
        self.rgb_errors = self.rgb_errors + 1;
    }

    /// Takes over the step of the alarm ladder.
    pub fn set_led_state(&mut self, v: u8)
        ensures
            *final(self) == (Metrics { led_state: v, ..*old(self) }),
    {
        self.led_state = v;
    }

    /// Takes over when the control loop last came round.
    pub fn set_last_tick(&mut self, v: u64)
        ensures
            *final(self) == (Metrics { last_tick: v, ..*old(self) }),
    {
        self.last_tick = v;
    }

    /// Takes over the value of a signal.
    pub fn set_signal_value(&mut self, signal: SignalKind, v: Binary64)
        requires
            old(self).wf(),
        ensures
            final(self).wf(),
            final(self).signal_values@ == old(self).signal_values@.insert(signal.name(), (v, signal)),
            *final(self) == (Metrics { signal_values: final(self).signal_values, ..*old(self) }),
    {
        self.signal_values.insert(signal.as_str().to_owned(), (v, signal));
    }

    /// Takes over what a signal asks for.
    pub fn set_candidate_duty(&mut self, signal: SignalKind, duty: u8)
        requires
            old(self).wf(),
        ensures
            final(self).wf(),
            final(self).signal_candidate_duty@ == old(self).signal_candidate_duty@.insert(signal.name(), duty),
            *final(self) == (Metrics { signal_candidate_duty: final(self).signal_candidate_duty, ..*old(self) }),
    {
        self.signal_candidate_duty.insert(signal.as_str().to_owned(), duty);
    }

    /// Takes over which signal is followed.
    pub fn set_control_signal(&mut self, winner: SignalKind)
        ensures
            *final(self) == (Metrics { control_signal: Some(winner), ..*old(self) }),
    {
        self.control_signal = Some(winner);
    }

    /// Takes over the enforced power limit.
    pub fn set_gpu_power_limit_watts(&mut self, v: Binary64)
        ensures
            *final(self) == (Metrics { gpu_power_limit_w: Some(v), ..*old(self) }),
    {
        self.gpu_power_limit_w = Some(v);
    }

    /// Takes over the throttle reasons.
    pub fn set_throttle(&mut self, flags: ThrottleFlags)
        ensures
            *final(self) == (Metrics { throttle: Some(flags), ..*old(self) }),
    {
        self.throttle = Some(flags);
    }

    /// Takes over whether the throttle floor raises the duty.
    pub fn set_throttle_floor_active(&mut self, v: bool)
        ensures
            *final(self) == (Metrics { throttle_floor_active: v, ..*old(self) }),
    {
        self.throttle_floor_active = v;
    }

    /// How often a signal failed so far.
    pub open spec fn errors_of(self, signal: SignalKind) -> u64 {
        if self.signal_errors@.contains_key(signal.name()) {
            self.signal_errors@[signal.name()]
        } else {
            0
        }
    }

    /// Counts a failed read of a signal.
    pub fn inc_signal_error(&mut self, signal: SignalKind)
        requires
            old(self).wf(),
            old(self).errors_of(signal) < u64::MAX,
        ensures
            final(self).wf(),
            final(self).signal_errors@ == old(self).signal_errors@.insert(
                signal.name(),
                (old(self).errors_of(signal) + 1) as u64,
            ),
            *final(self) == (Metrics { signal_errors: final(self).signal_errors, ..*old(self) }),
    {
        let name: String = signal.as_str().to_owned();
        let n: u64 = match self.signal_errors.get(&name) {
            Some(n) => *n,
            None => 0,
        };
        self.signal_errors.insert(name, n + 1);
    }

    /// Whether the control loop came round within the three poll intervals
    /// before a given time.
    pub open spec fn alive_at(self, now_secs: u64) -> bool {
        now_secs - self.last_tick <= 3 * self.poll_interval_secs
    }

    /// Whether the daemon is healthy at a given time.
    pub fn healthz_at(&self, now_secs: u64) -> (b: bool)
        requires
            3 * self.poll_interval_secs <= u64::MAX,
        ensures
            b == self.alive_at(now_secs),
    {
        healthz_ok(now_secs, self.last_tick, self.poll_interval_secs)
    }

    /// Whether the daemon is healthy by the machine's clock.
    pub fn healthz(&self) -> (b: bool)
        requires
            3 * self.poll_interval_secs <= u64::MAX,
        ensures
            exists|now_secs: u64| b == #[trigger] self.alive_at(now_secs),
    {
        let now_secs: u64 = now_unix_secs();
        self.healthz_at(now_secs)
    }

    fn write_temps_part(&self, out: &mut Report)
        requires
            self.wf(),
        ensures
            final(out)@ == old(out)@ + temps_part(*self),
    {
        out.text("# HELP unifand_temp_celsius Sensor and control temperatures.\n# TYPE unifand_temp_celsius gauge\n");
        let ghost start = out@;
        let ghost entries = self.temps.entries();
        let ghost f = |e| temp_line(e);
        let mut i: usize = 0;
        proof {
            assert(entries.take(0) =~= Seq::empty());
            assert(start + lines(entries.take(0), f) =~= start);
        }
        while i < self.temps.len()
            invariant
                self.temps.wf(),
                entries == self.temps.entries(),
                f == (|e| temp_line(e)),
                i <= entries.len(),
                out@ == start + lines(entries.take(i as int), f),
            decreases entries.len() - i,
        {
            let ghost before = out@;
            out.text("unifand_temp_celsius{source=\"");
            out.text(self.temps.key_at(i).as_str());
            out.text("\"} ");
            out.value(*self.temps.value_at(i));
            out.text("\n");
            proof {
                lemma_lines_step(entries, f, i as int);
                assert(out@ =~= before + temp_line(entries[i as int]));
                assert(out@ =~= start + lines(entries.take(i + 1), f));
            }
            i = i + 1;
        }
        assert(entries.take(i as int) =~= entries);
        assert(out@ =~= old(out)@ + temps_part(*self));
    }

    fn write_duty_part(&self, out: &mut Report)
        requires
            self.wf(),
        ensures
            final(out)@ == old(out)@ + duty_part(*self),
    {
        out.text("# HELP unifand_duty_percent Last duty written per channel.\n# TYPE unifand_duty_percent gauge\n");
        let ghost start = out@;
        let ghost entries = self.duty.entries();
        let ghost f = |e| duty_line(e);
        let mut i: usize = 0;
        proof {
            assert(entries.take(0) =~= Seq::empty());
            assert(start + lines(entries.take(0), f) =~= start);
        }
        while i < self.duty.len()
            invariant
                self.duty.wf(),
                entries == self.duty.entries(),
                f == (|e| duty_line(e)),
                i <= entries.len(),
                out@ == start + lines(entries.take(i as int), f),
            decreases entries.len() - i,
        {
            let ghost before = out@;
            out.text("unifand_duty_percent{channel=\"");
            out.count(*self.duty.key_at(i) as u64);
            out.text("\"} ");
            out.count(*self.duty.value_at(i) as u64);
            out.text("\n");
            proof {
                lemma_lines_step(entries, f, i as int);
                assert(out@ =~= before + duty_line(entries[i as int]));
                assert(out@ =~= start + lines(entries.take(i + 1), f));
            }
            i = i + 1;
        }
        assert(entries.take(i as int) =~= entries);
        assert(out@ =~= old(out)@ + duty_part(*self));
    }

    fn write_rpm_part(&self, out: &mut Report)
        requires
            self.wf(),
        ensures
            final(out)@ == old(out)@ + rpm_part(*self),
    {
        out.text("# HELP unifand_fan_rpm Fan speed per channel.\n# TYPE unifand_fan_rpm gauge\n");
        let ghost start = out@;
        let ghost entries = self.rpm.entries();
        let ghost f = |e| rpm_line(e);
        let mut i: usize = 0;
        proof {
            assert(entries.take(0) =~= Seq::empty());
            assert(start + lines(entries.take(0), f) =~= start);
        }
        while i < self.rpm.len()
            invariant
                self.rpm.wf(),
                entries == self.rpm.entries(),
                f == (|e| rpm_line(e)),
                i <= entries.len(),
                out@ == start + lines(entries.take(i as int), f),
            decreases entries.len() - i,
        {
            let ghost before = out@;
            out.text("unifand_fan_rpm{channel=\"");
            out.count(*self.rpm.key_at(i) as u64);
            out.text("\"} ");
            out.count(*self.rpm.value_at(i) as u64);
            out.text("\n");
            proof {
                lemma_lines_step(entries, f, i as int);
                assert(out@ =~= before + rpm_line(entries[i as int]));
                assert(out@ =~= start + lines(entries.take(i + 1), f));
            }
            i = i + 1;
        }
        assert(entries.take(i as int) =~= entries);
        assert(out@ =~= old(out)@ + rpm_part(*self));
    }

    fn write_values_part(&self, out: &mut Report)
        requires
            self.wf(),
        ensures
            final(out)@ == old(out)@ + values_part(*self),
    {
        if self.signal_values.is_empty() {
            assert(out@ =~= old(out)@ + values_part(*self));
            return;
        }
        out.text("# HELP unifand_signal_value Conditioned (smoothed) value of each available input signal.\n# TYPE unifand_signal_value gauge\n");
        let ghost start = out@;
        let ghost entries = self.signal_values.entries();
        let ghost f = |e| value_line(e);
        let mut i: usize = 0;
        proof {
            assert(entries.take(0) =~= Seq::empty());
            assert(start + lines(entries.take(0), f) =~= start);
        }
        while i < self.signal_values.len()
            invariant
                self.signal_values.wf(),
                entries == self.signal_values.entries(),
                f == (|e| value_line(e)),
                i <= entries.len(),
                out@ == start + lines(entries.take(i as int), f),
            decreases entries.len() - i,
        {
            let ghost before = out@;
            out.text("unifand_signal_value{signal=\"");
            out.text(self.signal_values.key_at(i).as_str());
            out.text("\",unit=\"");
            out.text(self.signal_values.value_at(i).1.unit());
            out.text("\"} ");
            out.value(self.signal_values.value_at(i).0);
            out.text("\n");
            proof {
                lemma_lines_step(entries, f, i as int);
                assert(out@ =~= before + value_line(entries[i as int]));
                assert(out@ =~= start + lines(entries.take(i + 1), f));
            }
            i = i + 1;
        }
        assert(entries.take(i as int) =~= entries);
        assert(out@ =~= old(out)@ + values_part(*self));
    }

    fn write_errors_by_signal_part(&self, out: &mut Report)
        requires
            self.wf(),
        ensures
            final(out)@ == old(out)@ + errors_by_signal_part(*self),
    {
        if self.signal_errors.is_empty() {
            assert(out@ =~= old(out)@ + errors_by_signal_part(*self));
            return;
        }
        out.text("# HELP unifand_signal_errors_total Real read failures per signal; NotSupported is not counted (it means the signal is absent).\n# TYPE unifand_signal_errors_total counter\n");
        let ghost start = out@;
        let ghost entries = self.signal_errors.entries();
        let ghost f = |e| error_line(e);
        let mut i: usize = 0;
        proof {
            assert(entries.take(0) =~= Seq::empty());
            assert(start + lines(entries.take(0), f) =~= start);
        }
        while i < self.signal_errors.len()
            invariant
                self.signal_errors.wf(),
                entries == self.signal_errors.entries(),
                f == (|e| error_line(e)),
                i <= entries.len(),
                out@ == start + lines(entries.take(i as int), f),
            decreases entries.len() - i,
        {
            let ghost before = out@;
            out.text("unifand_signal_errors_total{signal=\"");
            out.text(self.signal_errors.key_at(i).as_str());
            out.text("\"} ");
            out.count(*self.signal_errors.value_at(i));
            out.text("\n");
            proof {
                lemma_lines_step(entries, f, i as int);
                assert(out@ =~= before + error_line(entries[i as int]));
                assert(out@ =~= start + lines(entries.take(i + 1), f));
            }
            i = i + 1;
        }
        assert(entries.take(i as int) =~= entries);
        assert(out@ =~= old(out)@ + errors_by_signal_part(*self));
    }

    fn write_candidates(&self, out: &mut Report)
        requires
            self.wf(),
        ensures
            final(out)@ == old(out)@ + lines(
                self.signal_candidate_duty.entries(),
                |e| candidate_line(e),
            ),
    {
        let ghost start = out@;
        let ghost entries = self.signal_candidate_duty.entries();
        let ghost f = |e| candidate_line(e);
        let mut i: usize = 0;
        proof {
            assert(entries.take(0) =~= Seq::empty());
            assert(start + lines(entries.take(0), f) =~= start);
        }
        while i < self.signal_candidate_duty.len()
            invariant
                self.signal_candidate_duty.wf(),
                entries == self.signal_candidate_duty.entries(),
                f == (|e| candidate_line(e)),
                i <= entries.len(),
                out@ == start + lines(entries.take(i as int), f),
            decreases entries.len() - i,
        {
            let ghost before = out@;
            out.text("unifand_signal_candidate_duty_percent{signal=\"");
            out.text(self.signal_candidate_duty.key_at(i).as_str());
            out.text("\"} ");
            out.count(*self.signal_candidate_duty.value_at(i) as u64);
            out.text("\n");
            proof {
                lemma_lines_step(entries, f, i as int);
                assert(out@ =~= before + candidate_line(entries[i as int]));
                assert(out@ =~= start + lines(entries.take(i + 1), f));
            }
            i = i + 1;
        }
        assert(entries.take(i as int) =~= entries);
    }

    fn is_followed(&self, name: &str) -> (b: bool)
        ensures
            b == (self.control_signal matches Some(k) && k.name() == name@),
    {
        match self.control_signal {
            Some(k) => same_text(k.as_str(), name),
            None => false,
        }
    }

    fn write_control(&self, out: &mut Report)
        requires
            self.wf(),
        ensures
            final(out)@ == old(out)@ + lines(
                self.signal_candidate_duty.entries(),
                |e| control_line(e, self.control_signal),
            ),
    {
        let ghost start = out@;
        let ghost entries = self.signal_candidate_duty.entries();
        let ghost f = |e| control_line(e, self.control_signal);
        let mut i: usize = 0;
        proof {
            assert(entries.take(0) =~= Seq::empty());
            assert(start + lines(entries.take(0), f) =~= start);
        }
        while i < self.signal_candidate_duty.len()
            invariant
                self.signal_candidate_duty.wf(),
                entries == self.signal_candidate_duty.entries(),
                f == (|e| control_line(e, self.control_signal)),
                i <= entries.len(),
                out@ == start + lines(entries.take(i as int), f),
            decreases entries.len() - i,
        {
            let ghost before = out@;
            out.text("unifand_control_signal{signal=\"");
            out.text(self.signal_candidate_duty.key_at(i).as_str());
            out.text("\"} ");
            out.flag(self.is_followed(self.signal_candidate_duty.key_at(i).as_str()));
            out.text("\n");
            proof {
                lemma_lines_step(entries, f, i as int);
                assert(out@ =~= before + control_line(entries[i as int], self.control_signal));
                assert(out@ =~= start + lines(entries.take(i + 1), f));
            }
            i = i + 1;
        }
        assert(entries.take(i as int) =~= entries);
    }

    fn write_candidates_part(&self, out: &mut Report)
        requires
            self.wf(),
        ensures
            final(out)@ == old(out)@ + candidates_part(*self),
    {
        if self.signal_candidate_duty.is_empty() {
            assert(out@ =~= old(out)@ + candidates_part(*self));
            return;
        }
        out.text("# HELP unifand_signal_candidate_duty_percent Duty each available signal's curve commands this tick.\n# TYPE unifand_signal_candidate_duty_percent gauge\n");
        self.write_candidates(out);
        out.text("# HELP unifand_control_signal One-hot: 1 for the signal driving the applied duty, 0 for other available signals.\n# TYPE unifand_control_signal gauge\n");
        self.write_control(out);
        assert(out@ =~= old(out)@ + candidates_part(*self));
    }

    fn write_limit_part(&self, out: &mut Report)
        ensures
            final(out)@ == old(out)@ + limit_part(*self),
    {
        match self.gpu_power_limit_w {
            Some(limit) => {
                out.text("# HELP unifand_gpu_power_limit_watts Enforced GPU power limit; enables percent-of-limit dashboards regardless of curve unit.\n# TYPE unifand_gpu_power_limit_watts gauge\n");
                out.text("unifand_gpu_power_limit_watts ");
                out.value(limit);
                out.text("\n");
            },
            None => {},
        }
        assert(out@ =~= old(out)@ + limit_part(*self));
    }

    fn write_reason(out: &mut Report, reason: &str, active: bool)
        ensures
            final(out)@ == old(out)@ + reason_line(reason@, active),
    {
        out.text("unifand_throttle_active{reason=\"");
        out.text(reason);
        out.text("\"} ");
        out.flag(active);
        out.text("\n");
        assert(out@ =~= old(out)@ + reason_line(reason@, active));
    }

    fn write_throttle_part(&self, out: &mut Report)
        ensures
            final(out)@ == old(out)@ + throttle_part(*self),
    {
        match self.throttle {
            Some(t) => {
                out.text("# HELP unifand_throttle_active NVML throttle reason currently asserted.\n# TYPE unifand_throttle_active gauge\n");
                Self::write_reason(out, "sw_thermal", t.sw_thermal);
                Self::write_reason(out, "hw_thermal", t.hw_thermal);
                Self::write_reason(out, "hw_power_brake", t.hw_power_brake);
                Self::write_reason(out, "sw_power_cap", t.sw_power_cap);
            },
            None => {},
        }
        assert(out@ =~= old(out)@ + throttle_part(*self));
    }

    fn write_flags_part(&self, out: &mut Report)
        ensures
            final(out)@ == old(out)@ + flags_part(*self),
    {
        write_scalar(
            out,
            "# HELP unifand_degraded 1 when GPU sensor unavailable.\n# TYPE unifand_degraded gauge\n",
            "unifand_degraded ",
            if self.degraded { 1 } else { 0 },
        );
        write_scalar(
            out,
            "# HELP unifand_fallback_active 1 when all sensors are lost and fallback_duty is being forced.\n# TYPE unifand_fallback_active gauge\n",
            "unifand_fallback_active ",
            if self.fallback_active { 1 } else { 0 },
        );
        write_scalar(
            out,
            "# HELP unifand_hub_present 1 when the SL V2 hub is currently open and initialized.\n# TYPE unifand_hub_present gauge\n",
            "unifand_hub_present ",
            if self.hub_present { 1 } else { 0 },
        );
        assert(out@ =~= old(out)@ + flags_part(*self));
    }

    fn write_errors_part(&self, out: &mut Report)
        ensures
            final(out)@ == old(out)@ + errors_part(*self),
    {
        out.text("# HELP unifand_hid_errors_total HID write/read failures, by kind.\n# TYPE unifand_hid_errors_total counter\n");
        out.text("unifand_hid_errors_total{kind=\"write\"} ");
        out.count(self.hid_errors_write);
        out.text("\n");
        out.text("unifand_hid_errors_total{kind=\"read\"} ");
        out.count(self.hid_errors_read);
        out.text("\n");
        write_scalar(
            out,
            "# HELP unifand_rgb_errors_total RGB write failures.\n# TYPE unifand_rgb_errors_total counter\n",
            "unifand_rgb_errors_total ",
            self.rgb_errors,
        );
        write_scalar(
            out,
            "# HELP unifand_led_state Alarm ladder state (0 normal, 1 sustained-hot, 2 near-limit, 3 fault).\n# TYPE unifand_led_state gauge\n",
            "unifand_led_state ",
            self.led_state as u64,
        );
        assert(out@ =~= old(out)@ + errors_part(*self));
    }

    fn write_floor_part(&self, out: &mut Report)
        ensures
            final(out)@ == old(out)@ + floor_part(*self),
    {
        write_scalar(
            out,
            "# HELP unifand_throttle_floor_active 1 while the throttle floor is raising applied duty (including hold window).\n# TYPE unifand_throttle_floor_active gauge\n",
            "unifand_throttle_floor_active ",
            if self.throttle_floor_active { 1 } else { 0 },
        );
        assert(out@ =~= old(out)@ + floor_part(*self));
    }

    fn write_tail_part(&self, out: &mut Report)
        ensures
            final(out)@ == old(out)@ + tail_part(*self),
    {
        write_scalar(
            out,
            "# HELP unifand_last_tick_timestamp_seconds Unix time the control loop last completed a tick (or startup hub-wait progress).\n# TYPE unifand_last_tick_timestamp_seconds gauge\n",
            "unifand_last_tick_timestamp_seconds ",
            self.last_tick,
        );
        out.text("# HELP unifand_build_info Build metadata, value is always 1.\n# TYPE unifand_build_info gauge\n");
        out.text("unifand_build_info{version=\"");
        out.text(VERSION);
        out.text("\"} 1\n");
        assert(out@ =~= old(out)@ + tail_part(*self));
    }

    /// Everything, in the text format of Prometheus.
    pub fn render(&self) -> (out: Report)
        requires
            self.wf(),
        ensures
            out@ == rendered(*self),
    {
        let mut out: Report = Report::new();
        self.write_temps_part(&mut out);
        self.write_duty_part(&mut out);
        self.write_rpm_part(&mut out);
        self.write_flags_part(&mut out);
        self.write_errors_part(&mut out);
        self.write_values_part(&mut out);
        self.write_candidates_part(&mut out);
        self.write_limit_part(&mut out);
        self.write_throttle_part(&mut out);
        self.write_floor_part(&mut out);
        self.write_errors_by_signal_part(&mut out);
        self.write_tail_part(&mut out);
        assert(Seq::<Glyph>::empty() + temps_part(*self) =~= temps_part(*self));
        out
    }
}

/// The content type of the metrics.
pub const METRICS_TYPE: &'static str = "text/plain; version=0.0.4";

/// The answer to a request: the status, the content type if one is given, and
/// the body. The health of the daemon has an address of its own; every other
/// one gives the metrics.
pub fn response(m: &Metrics, url: &str, now_secs: u64) -> (r: (u16, Option<&'static str>, Report))
    requires
        m.wf(),
        3 * m.poll_interval_secs <= u64::MAX,
    ensures
        url@ == "/healthz"@ && m.alive_at(now_secs) ==> r.0 == 200 && r.1 is None && r.2@ == plain(
            "ok\n"@,
        ),
        url@ == "/healthz"@ && !m.alive_at(now_secs) ==> r.0 == 500 && r.1 is None && r.2@ == plain(
            "stale\n"@,
        ),
        url@ != "/healthz"@ ==> r.0 == 200 && (r.1 matches Some(t) && t@
            == "text/plain; version=0.0.4"@) && r.2@ == rendered(*m),
{
    if asks_for_health(url) {
        let (status, body) = health_response(m.healthz_at(now_secs));
        let mut out: Report = Report::new();
        out.text(body);
        assert(out@ =~= plain(body@));
        (status, None, out)
    } else {
        (200, Some(METRICS_TYPE), m.render())
    }
}

/// Until a signal, a limit or a throttle reason is known, nothing is served of
/// the signals but that the floor does not hold.
pub proof fn law_unset_families_are_not_served(m: Metrics, poll_interval_secs: u64, now_secs: u64)
    requires
        m.is_fresh(poll_interval_secs, now_secs),
    ensures
        values_part(m) == Seq::<Glyph>::empty(),
        candidates_part(m) == Seq::<Glyph>::empty(),
        limit_part(m) == Seq::<Glyph>::empty(),
        throttle_part(m) == Seq::<Glyph>::empty(),
        errors_by_signal_part(m) == Seq::<Glyph>::empty(),
{
}

/// A daemon whose clock does not run back stays healthy for three poll
/// intervals after each tick, and not longer.
pub proof fn law_health_lasts_three_polls(m: Metrics, now_secs: u64)
    requires
        m.last_tick <= now_secs,
    ensures
        m.alive_at(now_secs) <==> now_secs <= m.last_tick + 3 * m.poll_interval_secs,
{
}

} // verus!
