//! That everything known is served, under its own name.

use crate::metrics;
use crate::metrics::Metrics;
use crate::metrics_laws;
use crate::report;
use crate::report::Glyph;
use crate::signals::{SignalKind, ThrottleFlags};
use vstd::prelude::*;

verus! {

pub proof fn lemma_in_front(a: Seq<Glyph>, b: Seq<Glyph>, p: Seq<Glyph>)
    requires
        metrics_laws::occurs(a, p),
    ensures
        metrics_laws::occurs(a + b, p),
{
    let i = choose|i: int| metrics_laws::occurs_at(a, p, i);
    assert(metrics_laws::occurs_at(a + b, p, i));
}

pub proof fn lemma_behind(a: Seq<Glyph>, b: Seq<Glyph>, p: Seq<Glyph>)
    requires
        metrics_laws::occurs(b, p),
    ensures
        metrics_laws::occurs(a + b, p),
{
    let i = choose|i: int| metrics_laws::occurs_at(b, p, i);
    let s = a + b;
    assert forall|j: int| 0 <= j < p.len() implies s[a.len() + i + j] == #[trigger] p[j] by {
        assert(s[a.len() + (i + j)] == b[i + j]);
    }
    assert(metrics_laws::occurs_at(s, p, a.len() + i));
}

pub proof fn lemma_itself(p: Seq<Glyph>)
    ensures
        metrics_laws::occurs(p, p),
{
    assert(metrics_laws::occurs_at(p, p, 0));
}

proof fn lemma_in_lines<T>(entries: Seq<T>, f: spec_fn(T) -> Seq<Glyph>, i: int)
    requires
        0 <= i < entries.len(),
    ensures
        metrics_laws::occurs(metrics::lines(entries, f), f(entries[i])),
    decreases entries.len(),
{
    let rest = metrics::lines(entries.drop_last(), f);
    if i < entries.len() - 1 {
        lemma_in_lines(entries.drop_last(), f, i);
        lemma_in_front(rest, f(entries.last()), f(entries[i]));
    } else {
        lemma_itself(f(entries.last()));
        lemma_behind(rest, f(entries.last()), f(entries[i]));
    }
}

proof fn lemma_part_is_served(m: Metrics, p: Seq<Glyph>)
    requires
        ({
            ||| metrics_laws::occurs(metrics::temps_part(m), p)
            ||| metrics_laws::occurs(metrics::duty_part(m), p)
            ||| metrics_laws::occurs(metrics::rpm_part(m), p)
            ||| metrics_laws::occurs(metrics::flags_part(m), p)
            ||| metrics_laws::occurs(metrics::errors_part(m), p)
            ||| metrics_laws::occurs(metrics::values_part(m), p)
            ||| metrics_laws::occurs(metrics::candidates_part(m), p)
            ||| metrics_laws::occurs(metrics::limit_part(m), p)
            ||| metrics_laws::occurs(metrics::throttle_part(m), p)
            ||| metrics_laws::occurs(metrics::floor_part(m), p)
            ||| metrics_laws::occurs(metrics::errors_by_signal_part(m), p)
            ||| metrics_laws::occurs(metrics::tail_part(m), p)
        }),
    ensures
        metrics_laws::occurs(metrics::rendered(m), p),
{
    let s0 = metrics::temps_part(m);
    let s1 = s0 + metrics::duty_part(m);
    let s2 = s1 + metrics::rpm_part(m);
    let s3 = s2 + metrics::flags_part(m);
    let s4 = s3 + metrics::errors_part(m);
    let s5 = s4 + metrics::values_part(m);
    let s6 = s5 + metrics::candidates_part(m);
    let s7 = s6 + metrics::limit_part(m);
    let s8 = s7 + metrics::throttle_part(m);
    let s9 = s8 + metrics::floor_part(m);
    let s10 = s9 + metrics::errors_by_signal_part(m);
    let o = |s: Seq<Glyph>| metrics_laws::occurs(s, p);
    if o(metrics::duty_part(m)) {
        lemma_behind(s0, metrics::duty_part(m), p);
    }
    if o(s0) {
        lemma_in_front(s0, metrics::duty_part(m), p);
    }
    if o(metrics::rpm_part(m)) {
        lemma_behind(s1, metrics::rpm_part(m), p);
    }
    if o(s1) {
        lemma_in_front(s1, metrics::rpm_part(m), p);
    }
    if o(metrics::flags_part(m)) {
        lemma_behind(s2, metrics::flags_part(m), p);
    }
    if o(s2) {
        lemma_in_front(s2, metrics::flags_part(m), p);
    }
    if o(metrics::errors_part(m)) {
        lemma_behind(s3, metrics::errors_part(m), p);
    }
    if o(s3) {
        lemma_in_front(s3, metrics::errors_part(m), p);
    }
    if o(metrics::values_part(m)) {
        lemma_behind(s4, metrics::values_part(m), p);
    }
    if o(s4) {
        lemma_in_front(s4, metrics::values_part(m), p);
    }
    if o(metrics::candidates_part(m)) {
        lemma_behind(s5, metrics::candidates_part(m), p);
    }
    if o(s5) {
        lemma_in_front(s5, metrics::candidates_part(m), p);
    }
    if o(metrics::limit_part(m)) {
        lemma_behind(s6, metrics::limit_part(m), p);
    }
    if o(s6) {
        lemma_in_front(s6, metrics::limit_part(m), p);
    }
    if o(metrics::throttle_part(m)) {
        lemma_behind(s7, metrics::throttle_part(m), p);
    }
    if o(s7) {
        lemma_in_front(s7, metrics::throttle_part(m), p);
    }
    if o(metrics::floor_part(m)) {
        lemma_behind(s8, metrics::floor_part(m), p);
    }
    if o(s8) {
        lemma_in_front(s8, metrics::floor_part(m), p);
    }
    if o(metrics::errors_by_signal_part(m)) {
        lemma_behind(s9, metrics::errors_by_signal_part(m), p);
    }
    if o(s9) {
        lemma_in_front(s9, metrics::errors_by_signal_part(m), p);
    }
    if o(metrics::tail_part(m)) {
        lemma_behind(s10, metrics::tail_part(m), p);
    }
    if o(s10) {
        lemma_in_front(s10, metrics::tail_part(m), p);
    }
}

/// Whether a line stands in what is served: a name, with its labels and a blank
/// after it, and a value.
pub open spec fn serves(m: Metrics, name: Seq<char>, value: Seq<Glyph>) -> bool {
    metrics_laws::occurs(
        metrics::rendered(m),
        report::plain(name) + value + report::plain("\n"@),
    )
}

proof fn lemma_regrouped(h: Seq<Glyph>, n: Seq<Glyph>, v: Seq<Glyph>, e: Seq<Glyph>)
    ensures
        h + n + v + e == h + (n + v + e),
{
    assert(h + n + v + e =~= h + (n + v + e));
}

proof fn lemma_scalar(head: Seq<char>, name: Seq<char>, value: Seq<Glyph>)
    ensures
        metrics_laws::occurs(
            metrics::scalar(head, name, value),
            report::plain(name) + value + report::plain("\n"@),
        ),
{
    let p = report::plain(name) + value + report::plain("\n"@);
    lemma_regrouped(report::plain(head), report::plain(name), value, report::plain("\n"@));
    lemma_itself(p);
    lemma_behind(report::plain(head), p, p);
}

/// A flag, as it is served: one if it is set, zero if not.
pub open spec fn bit(b: bool) -> Seq<Glyph> {
    report::count(
        if b {
            1
        } else {
            0
        },
    )
}

/// The four flags are served, each under its own name.
pub proof fn law_flags_are_served(m: Metrics)
    ensures
        serves(m, "unifand_degraded "@, bit(m.degraded)),
        serves(m, "unifand_fallback_active "@, bit(m.fallback_active)),
        serves(m, "unifand_hub_present "@, bit(m.hub_present)),
        serves(m, "unifand_throttle_floor_active "@, bit(m.throttle_floor_active)),
{
    let end = report::plain("\n"@);
    let d = report::plain("unifand_degraded "@) + bit(m.degraded) + end;
    let f = report::plain("unifand_fallback_active "@) + bit(m.fallback_active) + end;
    let h = report::plain("unifand_hub_present "@) + bit(m.hub_present) + end;
    let t = report::plain("unifand_throttle_floor_active "@) + bit(m.throttle_floor_active) + end;
    let d_head = "# HELP unifand_degraded 1 when GPU sensor unavailable.\n# TYPE unifand_degraded gauge\n"@;
    let f_head = "# HELP unifand_fallback_active 1 when all sensors are lost and fallback_duty is being forced.\n# TYPE unifand_fallback_active gauge\n"@;
    let h_head = "# HELP unifand_hub_present 1 when the SL V2 hub is currently open and initialized.\n# TYPE unifand_hub_present gauge\n"@;
    let t_head = "# HELP unifand_throttle_floor_active 1 while the throttle floor is raising applied duty (including hold window).\n# TYPE unifand_throttle_floor_active gauge\n"@;
    lemma_scalar(d_head, "unifand_degraded "@, bit(m.degraded));
    lemma_scalar(f_head, "unifand_fallback_active "@, bit(m.fallback_active));
    lemma_scalar(h_head, "unifand_hub_present "@, bit(m.hub_present));
    lemma_scalar(t_head, "unifand_throttle_floor_active "@, bit(m.throttle_floor_active));
    let a = metrics::scalar(d_head, "unifand_degraded "@, bit(m.degraded));
    let b = metrics::scalar(f_head, "unifand_fallback_active "@, bit(m.fallback_active));
    let c = metrics::scalar(h_head, "unifand_hub_present "@, bit(m.hub_present));
    lemma_in_front(a, b, d);
    lemma_in_front(a + b, c, d);
    lemma_behind(a, b, f);
    lemma_in_front(a + b, c, f);
    lemma_behind(a + b, c, h);
    assert(metrics::flags_part(m) == a + b + c);
    lemma_part_is_served(m, d);
    lemma_part_is_served(m, f);
    lemma_part_is_served(m, h);
    lemma_part_is_served(m, t);
}

/// The counters, the step of the ladder and the time of the last tick are served,
/// each under its own name.
pub proof fn law_counters_are_served(m: Metrics)
    ensures
        serves(
            m,
            "unifand_hid_errors_total{kind=\"write\"} "@,
            report::count(m.hid_errors_write as nat),
        ),
        serves(
            m,
            "unifand_hid_errors_total{kind=\"read\"} "@,
            report::count(m.hid_errors_read as nat),
        ),
        serves(m, "unifand_rgb_errors_total "@, report::count(m.rgb_errors as nat)),
        serves(m, "unifand_led_state "@, report::count(m.led_state as nat)),
        serves(m, "unifand_last_tick_timestamp_seconds "@, report::count(m.last_tick as nat)),
{
    let end = report::plain("\n"@);
    let w = report::plain("unifand_hid_errors_total{kind=\"write\"} "@) + report::count(
        m.hid_errors_write as nat,
    ) + end;
    let r = report::plain("unifand_hid_errors_total{kind=\"read\"} "@) + report::count(
        m.hid_errors_read as nat,
    ) + end;
    let g = report::plain("unifand_rgb_errors_total "@) + report::count(m.rgb_errors as nat) + end;
    let l = report::plain("unifand_led_state "@) + report::count(m.led_state as nat) + end;
    let t = report::plain("unifand_last_tick_timestamp_seconds "@) + report::count(
        m.last_tick as nat,
    ) + end;
    let head = report::plain(
        "# HELP unifand_hid_errors_total HID write/read failures, by kind.\n# TYPE unifand_hid_errors_total counter\n"@,
    );
    let g_head = "# HELP unifand_rgb_errors_total RGB write failures.\n# TYPE unifand_rgb_errors_total counter\n"@;
    let l_head = "# HELP unifand_led_state Alarm ladder state (0 normal, 1 sustained-hot, 2 near-limit, 3 fault).\n# TYPE unifand_led_state gauge\n"@;
    let t_head = "# HELP unifand_last_tick_timestamp_seconds Unix time the control loop last completed a tick (or startup hub-wait progress).\n# TYPE unifand_last_tick_timestamp_seconds gauge\n"@;
    let gs = metrics::scalar(
        g_head,
        "unifand_rgb_errors_total "@,
        report::count(m.rgb_errors as nat),
    );
    let ls = metrics::scalar(l_head, "unifand_led_state "@, report::count(m.led_state as nat));
    let ts = metrics::scalar(
        t_head,
        "unifand_last_tick_timestamp_seconds "@,
        report::count(m.last_tick as nat),
    );
    lemma_scalar(g_head, "unifand_rgb_errors_total "@, report::count(m.rgb_errors as nat));
    lemma_scalar(l_head, "unifand_led_state "@, report::count(m.led_state as nat));
    lemma_scalar(
        t_head,
        "unifand_last_tick_timestamp_seconds "@,
        report::count(m.last_tick as nat),
    );
    assert(metrics::errors_part(m) =~= head + w + r + gs + ls);
    lemma_itself(w);
    lemma_behind(head, w, w);
    lemma_in_front(head + w, r, w);
    lemma_in_front(head + w + r, gs, w);
    lemma_in_front(head + w + r + gs, ls, w);
    lemma_itself(r);
    lemma_behind(head + w, r, r);
    lemma_in_front(head + w + r, gs, r);
    lemma_in_front(head + w + r + gs, ls, r);
    lemma_behind(head + w + r, gs, g);
    lemma_in_front(head + w + r + gs, ls, g);
    lemma_behind(head + w + r + gs, ls, l);
    let about = report::plain(
        "# HELP unifand_build_info Build metadata, value is always 1.\n# TYPE unifand_build_info gauge\n"@,
    ) + report::plain("unifand_build_info{version=\""@) + report::plain(metrics::VERSION@)
        + report::plain("\"} 1\n"@);
    lemma_in_front(ts, about, t);
    assert(metrics::tail_part(m) =~= ts + about);
    lemma_part_is_served(m, w);
    lemma_part_is_served(m, r);
    lemma_part_is_served(m, g);
    lemma_part_is_served(m, l);
    lemma_part_is_served(m, t);
}

/// The duty and the speed of a channel are served under its number.
pub proof fn law_channels_are_served(m: Metrics, channel: u8)
    requires
        m.wf(),
    ensures
        m.duty@.contains_key(channel) ==> metrics_laws::occurs(
            metrics::rendered(m),
            report::plain("unifand_duty_percent{channel=\""@) + report::count(channel as nat)
                + report::plain("\"} "@) + report::count(m.duty@[channel] as nat) + report::plain(
                "\n"@,
            ),
        ),
        m.rpm@.contains_key(channel) ==> metrics_laws::occurs(
            metrics::rendered(m),
            report::plain("unifand_fan_rpm{channel=\""@) + report::count(channel as nat)
                + report::plain("\"} "@) + report::count(m.rpm@[channel] as nat) + report::plain(
                "\n"@,
            ),
        ),
{
    if m.duty@.contains_key(channel) {
        let entries = m.duty.entries();
        let f = |e| metrics::duty_line(e);
        let i = choose|i: int| m.duty.at(channel, i);
        assert(m.duty.at(channel, i));
        m.duty.lemma_entry(i);
        lemma_in_lines(entries, f, i);
        let head = report::plain(
            "# HELP unifand_duty_percent Last duty written per channel.\n# TYPE unifand_duty_percent gauge\n"@,
        );
        lemma_behind(head, metrics::lines(entries, f), f(entries[i]));
        assert(metrics_laws::occurs(metrics::duty_part(m), f(entries[i])));
        lemma_part_is_served(m, f(entries[i]));
    }
    if m.rpm@.contains_key(channel) {
        let entries = m.rpm.entries();
        let f = |e| metrics::rpm_line(e);
        let i = choose|i: int| m.rpm.at(channel, i);
        assert(m.rpm.at(channel, i));
        m.rpm.lemma_entry(i);
        lemma_in_lines(entries, f, i);
        let head = report::plain(
            "# HELP unifand_fan_rpm Fan speed per channel.\n# TYPE unifand_fan_rpm gauge\n"@,
        );
        lemma_behind(head, metrics::lines(entries, f), f(entries[i]));
        assert(metrics_laws::occurs(metrics::rpm_part(m), f(entries[i])));
        lemma_part_is_served(m, f(entries[i]));
    }
}

/// A temperature is served under its source.
pub proof fn law_temperatures_are_served(m: Metrics, source: Seq<char>)
    requires
        m.wf(),
        m.temps@.contains_key(source),
    ensures
        metrics_laws::occurs(
            metrics::rendered(m),
            report::plain("unifand_temp_celsius{source=\""@) + report::plain(source)
                + report::plain("\"} "@) + report::value(m.temps@[source]@) + report::plain("\n"@),
        ),
{
    let entries = m.temps.entries();
    let f = |e| metrics::temp_line(e);
    let i = choose|i: int| m.temps.at(source, i);
    assert(m.temps.at(source, i));
    m.temps.lemma_entry(i);
    lemma_in_lines(entries, f, i);
    let head = report::plain(
        "# HELP unifand_temp_celsius Sensor and control temperatures.\n# TYPE unifand_temp_celsius gauge\n"@,
    );
    lemma_behind(head, metrics::lines(entries, f), f(entries[i]));
    assert(metrics_laws::occurs(metrics::temps_part(m), f(entries[i])));
    lemma_part_is_served(m, f(entries[i]));
}

/// The names under which the signals are served: the die temperatures, the
/// memory, the power of the GPU and its headroom.
pub proof fn law_names_of_the_signals(k: SignalKind)
    ensures
        k is GpuTemp ==> k.name() == "gpu"@ + "_temp"@,
        k is CpuTemp ==> k.name() == "cpu"@ + "_temp"@,
        k is MemTemp ==> k.name() == "mem"@ + "_temp"@,
        k is GpuPower ==> k.name() == "gpu"@ + "_power"@,
        k is ThermalMargin ==> k.name() == "thermal"@ + "_margin"@,
{
    reveal_strlit("gpu");
    reveal_strlit("cpu");
    reveal_strlit("mem");
    reveal_strlit("thermal");
    reveal_strlit("_temp");
    reveal_strlit("_power");
    reveal_strlit("_margin");
    reveal_strlit("gpu_temp");
    reveal_strlit("cpu_temp");
    reveal_strlit("mem_temp");
    reveal_strlit("gpu_power");
    reveal_strlit("thermal_margin");
    assert("gpu_temp"@ =~= "gpu"@ + "_temp"@);
    assert("cpu_temp"@ =~= "cpu"@ + "_temp"@);
    assert("mem_temp"@ =~= "mem"@ + "_temp"@);
    assert("gpu_power"@ =~= "gpu"@ + "_power"@);
    assert("thermal_margin"@ =~= "thermal"@ + "_margin"@);
}

/// Power is served in watts, everything else in degrees.
pub open spec fn served_unit(k: SignalKind) -> Seq<char> {
    match k {
        SignalKind::GpuPower => "watts"@,
        SignalKind::MemTemp => "celsius"@,
        SignalKind::ThermalMargin => "celsius"@,
        SignalKind::GpuTemp => "celsius"@,
        SignalKind::CpuTemp => "celsius"@,
    }
}

/// The value of a signal, what it asks for and how often it failed are served
/// under its name, the value with its unit.
pub proof fn law_signals_are_served(m: Metrics, k: SignalKind)
    requires
        m.wf(),
    ensures
        m.signal_values@.contains_key(k.name()) && m.signal_values@[k.name()].1 == k
            ==> metrics_laws::occurs(
            metrics::rendered(m),
            report::plain("unifand_signal_value{signal=\""@) + report::plain(k.name())
                + report::plain("\",unit=\""@) + report::plain(served_unit(k)) + report::plain(
                "\"} "@,
            ) + report::value(m.signal_values@[k.name()].0@) + report::plain("\n"@),
        ),
        m.signal_candidate_duty@.contains_key(k.name()) ==> metrics_laws::occurs(
            metrics::rendered(m),
            report::plain("unifand_signal_candidate_duty_percent{signal=\""@) + report::plain(
                k.name(),
            ) + report::plain("\"} "@) + report::count(m.signal_candidate_duty@[k.name()] as nat)
                + report::plain("\n"@),
        ),
        m.signal_errors@.contains_key(k.name()) ==> metrics_laws::occurs(
            metrics::rendered(m),
            report::plain("unifand_signal_errors_total{signal=\""@) + report::plain(k.name())
                + report::plain("\"} "@) + report::count(m.signal_errors@[k.name()] as nat)
                + report::plain("\n"@),
        ),
{
    if m.signal_values@.contains_key(k.name()) {
        let entries = m.signal_values.entries();
        let f = |e| metrics::value_line(e);
        let i = choose|i: int| m.signal_values.at(k.name(), i);
        assert(m.signal_values.at(k.name(), i));
        m.signal_values.lemma_entry(i);
        lemma_in_lines(entries, f, i);
        let head = report::plain(
            "# HELP unifand_signal_value Conditioned (smoothed) value of each available input signal.\n# TYPE unifand_signal_value gauge\n"@,
        );
        lemma_behind(head, metrics::lines(entries, f), f(entries[i]));
        assert(metrics_laws::occurs(metrics::values_part(m), f(entries[i])));
        lemma_part_is_served(m, f(entries[i]));
    }
    if m.signal_candidate_duty@.contains_key(k.name()) {
        let entries = m.signal_candidate_duty.entries();
        let f = |e| metrics::candidate_line(e);
        let g = |e| metrics::control_line(e, m.control_signal);
        let i = choose|i: int| m.signal_candidate_duty.at(k.name(), i);
        assert(m.signal_candidate_duty.at(k.name(), i));
        m.signal_candidate_duty.lemma_entry(i);
        lemma_in_lines(entries, f, i);
        let head = report::plain(
            "# HELP unifand_signal_candidate_duty_percent Duty each available signal's curve commands this tick.\n# TYPE unifand_signal_candidate_duty_percent gauge\n"@,
        );
        let head2 = report::plain(
            "# HELP unifand_control_signal One-hot: 1 for the signal driving the applied duty, 0 for other available signals.\n# TYPE unifand_control_signal gauge\n"@,
        );
        let s = head + metrics::lines(entries, f);
        lemma_behind(head, metrics::lines(entries, f), f(entries[i]));
        lemma_in_front(s, head2, f(entries[i]));
        lemma_in_front(s + head2, metrics::lines(entries, g), f(entries[i]));
        assert(metrics_laws::occurs(metrics::candidates_part(m), f(entries[i])));
        lemma_part_is_served(m, f(entries[i]));
    }
    if m.signal_errors@.contains_key(k.name()) {
        let entries = m.signal_errors.entries();
        let f = |e| metrics::error_line(e);
        let i = choose|i: int| m.signal_errors.at(k.name(), i);
        assert(m.signal_errors.at(k.name(), i));
        m.signal_errors.lemma_entry(i);
        lemma_in_lines(entries, f, i);
        let head = report::plain(
            "# HELP unifand_signal_errors_total Real read failures per signal; NotSupported is not counted (it means the signal is absent).\n# TYPE unifand_signal_errors_total counter\n"@,
        );
        lemma_behind(head, metrics::lines(entries, f), f(entries[i]));
        assert(metrics_laws::occurs(metrics::errors_by_signal_part(m), f(entries[i])));
        lemma_part_is_served(m, f(entries[i]));
    }
}

/// The power limit is served once it is known, and so is each of the four
/// throttle reasons, under its own name.
pub proof fn law_limit_and_reasons_are_served(m: Metrics)
    ensures
        m.gpu_power_limit_w matches Some(limit) ==> serves(
            m,
            "unifand_gpu_power_limit_watts "@,
            report::value(limit@),
        ),
        m.throttle matches Some(t) ==> {
            &&& serves(m, "unifand_throttle_active{reason=\""@ + "sw_thermal"@ + "\"} "@, bit(t.sw_thermal))
            &&& serves(m, "unifand_throttle_active{reason=\""@ + "hw_thermal"@ + "\"} "@, bit(t.hw_thermal))
            &&& serves(
                m,
                "unifand_throttle_active{reason=\""@ + "hw_power_brake"@ + "\"} "@,
                bit(t.hw_power_brake),
            )
            &&& serves(
                m,
                "unifand_throttle_active{reason=\""@ + "sw_power_cap"@ + "\"} "@,
                bit(t.sw_power_cap),
            )
        },
{
    if let Some(limit) = m.gpu_power_limit_w {
        let p = report::plain("unifand_gpu_power_limit_watts "@) + report::value(limit@)
            + report::plain("\n"@);
        let head = report::plain(
            "# HELP unifand_gpu_power_limit_watts Enforced GPU power limit; enables percent-of-limit dashboards regardless of curve unit.\n# TYPE unifand_gpu_power_limit_watts gauge\n"@,
        );
        lemma_regrouped(
            head,
            report::plain("unifand_gpu_power_limit_watts "@),
            report::value(limit@),
            report::plain("\n"@),
        );
        lemma_itself(p);
        lemma_behind(head, p, p);
        lemma_part_is_served(m, p);
    }
    if let Some(t) = m.throttle {
        lemma_reasons(m, t);
    }
}

proof fn lemma_reason_line(name: Seq<char>, b: bool)
    ensures
        metrics::reason_line(name, b) == report::plain(
            "unifand_throttle_active{reason=\""@ + name + "\"} "@,
        ) + bit(b) + report::plain("\n"@),
{
    assert(metrics::reason_line(name, b) =~= report::plain(
        "unifand_throttle_active{reason=\""@ + name + "\"} "@,
    ) + bit(b) + report::plain("\n"@));
}

proof fn lemma_reasons(m: Metrics, t: ThrottleFlags)
    requires
        m.throttle == Some(t),
    ensures
        serves(m, "unifand_throttle_active{reason=\""@ + "sw_thermal"@ + "\"} "@, bit(t.sw_thermal)),
        serves(m, "unifand_throttle_active{reason=\""@ + "hw_thermal"@ + "\"} "@, bit(t.hw_thermal)),
        serves(
            m,
            "unifand_throttle_active{reason=\""@ + "hw_power_brake"@ + "\"} "@,
            bit(t.hw_power_brake),
        ),
        serves(
            m,
            "unifand_throttle_active{reason=\""@ + "sw_power_cap"@ + "\"} "@,
            bit(t.sw_power_cap),
        ),
{
    let head = report::plain(
        "# HELP unifand_throttle_active NVML throttle reason currently asserted.\n# TYPE unifand_throttle_active gauge\n"@,
    );
    let a = metrics::reason_line("sw_thermal"@, t.sw_thermal);
    let b = metrics::reason_line("hw_thermal"@, t.hw_thermal);
    let c = metrics::reason_line("hw_power_brake"@, t.hw_power_brake);
    let d = metrics::reason_line("sw_power_cap"@, t.sw_power_cap);
    lemma_reason_line("sw_thermal"@, t.sw_thermal);
    lemma_reason_line("hw_thermal"@, t.hw_thermal);
    lemma_reason_line("hw_power_brake"@, t.hw_power_brake);
    lemma_reason_line("sw_power_cap"@, t.sw_power_cap);
    assert(metrics::throttle_part(m) == head + a + b + c + d);
    lemma_itself(a);
    lemma_behind(head, a, a);
    lemma_in_front(head + a, b, a);
    lemma_in_front(head + a + b, c, a);
    lemma_in_front(head + a + b + c, d, a);
    lemma_itself(b);
    lemma_behind(head + a, b, b);
    lemma_in_front(head + a + b, c, b);
    lemma_in_front(head + a + b + c, d, b);
    lemma_itself(c);
    lemma_behind(head + a + b, c, c);
    lemma_in_front(head + a + b + c, d, c);
    lemma_itself(d);
    lemma_behind(head + a + b + c, d, d);
    lemma_part_is_served(m, a);
    lemma_part_is_served(m, b);
    lemma_part_is_served(m, c);
    lemma_part_is_served(m, d);
}

} // verus!
