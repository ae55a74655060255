//! What the sentences on a configuration hold, and when they are said.

use crate::config::{Config, CurvePoint, ThrottleReason};
use crate::diagnostics;
use crate::hub_wait;
use crate::hub_wait::{HubWait, HubWaitAction, HubWaitEvent};
use crate::metrics::Metrics;
use crate::metrics_laws;
use crate::report;
use crate::report::Glyph;
use crate::served_laws;
use crate::text;
use crate::validation::{AlphaName, ConfigError, CurveName};
use vstd::prelude::*;

verus! {

/// Whether a text begins with some characters.
pub open spec fn begins(s: Seq<Glyph>, p: Seq<char>) -> bool {
    p.len() <= s.len() && forall|i: int| 0 <= i < p.len() ==> #[trigger] s[i] == report::glyph(p[i])
}

/// Curves are named by their section, and so are smoothing constants.
pub proof fn law_settings_are_named_by_section()
    ensures
        diagnostics::curve_text(CurveName::Top) == "curve"@,
        diagnostics::curve_text(CurveName::GpuTemp) == "signals."@ + "gpu_temp"@ + ".curve"@,
        diagnostics::curve_text(CurveName::CpuTemp) == "signals."@ + "cpu_temp"@ + ".curve"@,
        diagnostics::curve_text(CurveName::Power) == "signals."@ + "power"@ + ".curve"@,
        diagnostics::curve_text(CurveName::Margin) == "signals."@ + "margin"@ + ".curve"@,
        diagnostics::curve_text(CurveName::MemTemp) == "signals."@ + "mem_temp"@ + ".curve"@,
        diagnostics::alpha_text(AlphaName::GpuTemp) == "signals."@ + "gpu_temp"@ + ".alpha"@,
        diagnostics::alpha_text(AlphaName::CpuTemp) == "signals."@ + "cpu_temp"@ + ".alpha"@,
        diagnostics::alpha_text(AlphaName::PowerRise) == "signals."@ + "power"@ + ".rise_alpha"@,
        diagnostics::alpha_text(AlphaName::PowerFall) == "signals."@ + "power"@ + ".fall_alpha"@,
        diagnostics::alpha_text(AlphaName::Margin) == "signals."@ + "margin"@ + ".alpha"@,
        diagnostics::alpha_text(AlphaName::MemTemp) == "signals."@ + "mem_temp"@ + ".alpha"@,
{
    reveal_strlit("signals.");
    reveal_strlit(".curve");
    reveal_strlit(".alpha");
    reveal_strlit(".rise_alpha");
    reveal_strlit(".fall_alpha");
    reveal_strlit("gpu_temp");
    reveal_strlit("cpu_temp");
    reveal_strlit("mem_temp");
    reveal_strlit("power");
    reveal_strlit("margin");
    reveal_strlit("signals.gpu_temp.curve");
    reveal_strlit("signals.cpu_temp.curve");
    reveal_strlit("signals.mem_temp.curve");
    reveal_strlit("signals.power.curve");
    reveal_strlit("signals.margin.curve");
    reveal_strlit("signals.gpu_temp.alpha");
    reveal_strlit("signals.cpu_temp.alpha");
    reveal_strlit("signals.mem_temp.alpha");
    reveal_strlit("signals.margin.alpha");
    reveal_strlit("signals.power.rise_alpha");
    reveal_strlit("signals.power.fall_alpha");
    assert("signals.gpu_temp.curve"@ =~= "signals."@ + "gpu_temp"@ + ".curve"@);
    assert("signals.cpu_temp.curve"@ =~= "signals."@ + "cpu_temp"@ + ".curve"@);
    assert("signals.mem_temp.curve"@ =~= "signals."@ + "mem_temp"@ + ".curve"@);
    assert("signals.power.curve"@ =~= "signals."@ + "power"@ + ".curve"@);
    assert("signals.margin.curve"@ =~= "signals."@ + "margin"@ + ".curve"@);
    assert("signals.gpu_temp.alpha"@ =~= "signals."@ + "gpu_temp"@ + ".alpha"@);
    assert("signals.cpu_temp.alpha"@ =~= "signals."@ + "cpu_temp"@ + ".alpha"@);
    assert("signals.mem_temp.alpha"@ =~= "signals."@ + "mem_temp"@ + ".alpha"@);
    assert("signals.margin.alpha"@ =~= "signals."@ + "margin"@ + ".alpha"@);
    assert("signals.power.rise_alpha"@ =~= "signals."@ + "power"@ + ".rise_alpha"@);
    assert("signals.power.fall_alpha"@ =~= "signals."@ + "power"@ + ".fall_alpha"@);
}

/// The setting that a sentence on an error begins with.
pub open spec fn setting(e: ConfigError) -> Seq<char> {
    match e {
        ConfigError::CurveEmpty { name } => diagnostics::curve_text(name),
        ConfigError::CurveNotIncreasing { name } => diagnostics::curve_text(name),
        ConfigError::CurveDuty { name, .. } => diagnostics::curve_text(name),
        ConfigError::FallbackDuty => "fallback_duty"@,
        ConfigError::NoChannels => "channels"@,
        ConfigError::Channel { .. } => "channel "@,
        ConfigError::MaxStep => "max_step_per_tick"@,
        ConfigError::PollInterval => "poll_interval_secs"@,
        ConfigError::Hysteresis => "hysteresis_c"@,
        ConfigError::CpuOffset => "cpu_offset"@,
        ConfigError::NoStops => "rgb.stops"@,
        ConfigError::StopsNotIncreasing => "rgb.stops"@,
        ConfigError::StopDuty { .. } => "rgb stop duty "@,
        ConfigError::FansPerChannel { .. } => "rgb.fans_per_channel "@,
        ConfigError::FansKeyInvalid { .. } => "rgb.fans key "@,
        ConfigError::FansKeyNotCanonical { .. } => "rgb.fans key "@,
        ConfigError::FansKeyUnconfigured { .. } => "rgb.fans key "@,
        ConfigError::FansValue { .. } => "rgb.fans["@,
        ConfigError::Buckets => "rgb.buckets"@,
        ConfigError::Brightness { .. } => "rgb.brightness "@,
        ConfigError::SustainedAfter => "rgb.alerts.sustained_after_secs"@,
        ConfigError::EscalateEvery => "rgb.alerts.escalate_every_secs"@,
        ConfigError::Cooldown => "rgb.alerts.cooldown_secs"@,
        ConfigError::NearLimitMargin => "rgb.alerts.near_limit_margin_c"@,
        ConfigError::NoSubSignal => "signals.enabled"@,
        ConfigError::Alpha { which, .. } => diagnostics::alpha_text(which),
        ConfigError::SignalsCpuOffset => "signals.cpu_temp.offset_c"@,
        ConfigError::PercentCurve => "signals.power.curve"@,
        ConfigError::FloorDuty { .. } => "signals.throttle.floor_duty "@,
        ConfigError::NoReasons => "signals.throttle.reasons"@,
        ConfigError::HoldSecs { .. } => "signals.throttle.hold_secs "@,
    }
}

/// The sentence on an error begins with the setting that is wrong.
#[verifier::rlimit(60)]
pub proof fn law_errors_name_their_setting(e: ConfigError, channels: Seq<u8>, key: Seq<char>)
    ensures
        begins(diagnostics::error_text(e, channels, key), setting(e)),
{
    match e {
        ConfigError::FallbackDuty => {
            reveal_strlit("fallback_duty");
            reveal_strlit("fallback_duty exceeds 100");
        },
        ConfigError::NoChannels => {
            reveal_strlit("channels");
            reveal_strlit("channels must not be empty");
        },
        ConfigError::MaxStep => {
            reveal_strlit("max_step_per_tick");
            reveal_strlit("max_step_per_tick must be nonzero (fans could never move)");
        },
        ConfigError::PollInterval => {
            reveal_strlit("poll_interval_secs");
            reveal_strlit("poll_interval_secs must be nonzero (busy-loop)");
        },
        ConfigError::Hysteresis => {
            reveal_strlit("hysteresis_c");
            reveal_strlit("hysteresis_c must not be negative");
        },
        ConfigError::CpuOffset => {
            reveal_strlit("cpu_offset");
            reveal_strlit("cpu_offset must not be negative");
        },
        ConfigError::NoStops => {
            reveal_strlit("rgb.stops");
            reveal_strlit("rgb.stops must have at least one stop when rgb is enabled");
        },
        ConfigError::StopsNotIncreasing => {
            reveal_strlit("rgb.stops");
            reveal_strlit("rgb.stops duties must be strictly increasing");
        },
        ConfigError::Buckets => {
            reveal_strlit("rgb.buckets");
            reveal_strlit("rgb.buckets must be at least 2");
        },
        ConfigError::SustainedAfter => {
            reveal_strlit("rgb.alerts.sustained_after_secs");
            reveal_strlit("rgb.alerts.sustained_after_secs must be at least 1");
        },
        ConfigError::EscalateEvery => {
            reveal_strlit("rgb.alerts.escalate_every_secs");
            reveal_strlit("rgb.alerts.escalate_every_secs must be at least 1");
        },
        ConfigError::Cooldown => {
            reveal_strlit("rgb.alerts.cooldown_secs");
            reveal_strlit("rgb.alerts.cooldown_secs must be at least 1");
        },
        ConfigError::NearLimitMargin => {
            reveal_strlit("rgb.alerts.near_limit_margin_c");
            reveal_strlit("rgb.alerts.near_limit_margin_c must not be negative");
        },
        ConfigError::NoSubSignal => {
            reveal_strlit("signals.enabled");
            reveal_strlit(
                "signals.enabled but no sub-signal (gpu_temp/cpu_temp/power/margin/mem_temp) is enabled",
            );
        },
        ConfigError::SignalsCpuOffset => {
            reveal_strlit("signals.cpu_temp.offset_c");
            reveal_strlit("signals.cpu_temp.offset_c must not be negative");
        },
        ConfigError::PercentCurve => {
            reveal_strlit("signals.power.curve");
            reveal_strlit(
                "signals.power.curve has a point > 200 with unit = \"percent_tdp\" \u{2014} likely a watts/percent mixup",
            );
        },
        ConfigError::NoReasons => {
            reveal_strlit("signals.throttle.reasons");
            reveal_strlit("signals.throttle.reasons must not be empty when throttle is enabled");
        },
        _ => {},
    }
}

/// The number that is wrong, where the sentence on an error gives one.
pub open spec fn wrong_number(e: ConfigError) -> Option<nat> {
    match e {
        ConfigError::CurveDuty { duty, .. } => Some(duty as nat),
        ConfigError::Channel { channel } => Some(channel as nat),
        ConfigError::StopDuty { duty } => Some(duty as nat),
        ConfigError::FansPerChannel { fans } => Some(fans as nat),
        ConfigError::FansKeyNotCanonical { channel, .. } => Some(channel as nat),
        ConfigError::FansKeyUnconfigured { channel } => Some(channel as nat),
        ConfigError::FansValue { fans, .. } => Some(fans as nat),
        ConfigError::Brightness { brightness } => Some(brightness as nat),
        ConfigError::FloorDuty { duty } => Some(duty as nat),
        ConfigError::HoldSecs { secs } => Some(secs as nat),
        _ => None,
    }
}

proof fn lemma_between(a: Seq<Glyph>, p: Seq<Glyph>, b: Seq<Glyph>)
    ensures
        metrics_laws::occurs(a + p + b, p),
{
    served_laws::lemma_itself(p);
    served_laws::lemma_behind(a, p, p);
    served_laws::lemma_in_front(a + p, b, p);
}

/// The sentence on an error shows the number that is wrong, and a key as it was
/// written.
pub proof fn law_errors_show_what_is_wrong(e: ConfigError, channels: Seq<u8>, key: Seq<char>)
    ensures
        wrong_number(e) matches Some(n) ==> metrics_laws::occurs(
            diagnostics::error_text(e, channels, key),
            report::count(n),
        ),
        e is FansKeyInvalid || e is FansKeyNotCanonical ==> metrics_laws::occurs(
            diagnostics::error_text(e, channels, key),
            report::plain(key),
        ),
        e matches ConfigError::FansValue { channel, .. } ==> metrics_laws::occurs(
            diagnostics::error_text(e, channels, key),
            report::count(channel as nat),
        ),
        e is FansKeyUnconfigured ==> metrics_laws::occurs(
            diagnostics::error_text(e, channels, key),
            report::plain(diagnostics::list_text(channels)),
        ),
        e matches ConfigError::Alpha { alpha, .. } ==> metrics_laws::occurs(
            diagnostics::error_text(e, channels, key),
            report::value(alpha@),
        ),
{
    match e {
        ConfigError::CurveDuty { name, duty } => {
            lemma_between(
                report::plain(diagnostics::curve_text(name)) + report::plain(" duty "@),
                report::count(duty as nat),
                report::plain(" exceeds 100"@),
            );
        },
        ConfigError::Channel { channel } => {
            lemma_between(
                report::plain("channel "@),
                report::count(channel as nat),
                report::plain(" out of range 1..=4"@),
            );
        },
        ConfigError::StopDuty { duty } => {
            lemma_between(
                report::plain("rgb stop duty "@),
                report::count(duty as nat),
                report::plain(" exceeds 100"@),
            );
        },
        ConfigError::FansPerChannel { fans } => {
            lemma_between(
                report::plain("rgb.fans_per_channel "@),
                report::count(fans as nat),
                report::plain(" out of range 1..=6"@),
            );
        },
        ConfigError::FansKeyInvalid { .. } => {
            lemma_between(
                report::plain("rgb.fans key "@),
                report::plain(key),
                report::plain(" is not a valid channel number"@),
            );
        },
        ConfigError::FansKeyNotCanonical { channel, .. } => {
            let a = report::plain("rgb.fans key "@);
            let k = report::plain(key);
            let b = report::plain(" must be written as \""@);
            let n = report::count(channel as nat);
            lemma_between(a + k + b, n, report::plain("\""@));
            lemma_between(a, k, b);
            served_laws::lemma_in_front(a + k + b, n, k);
            served_laws::lemma_in_front(a + k + b + n, report::plain("\""@), k);
        },
        ConfigError::FansKeyUnconfigured { channel } => {
            let a = report::plain("rgb.fans key "@);
            let n = report::count(channel as nat);
            let b = report::plain(" is not one of the configured channels "@);
            let l = report::plain(diagnostics::list_text(channels));
            lemma_between(a, n, b);
            served_laws::lemma_in_front(a + n + b, l, n);
            served_laws::lemma_itself(l);
            served_laws::lemma_behind(a + n + b, l, l);
        },
        ConfigError::FansValue { channel, fans } => {
            let a = report::plain("rgb.fans["@);
            let n = report::count(channel as nat);
            let b = report::plain("] = "@);
            let f = report::count(fans as nat);
            let c = report::plain(" out of range 1..=6"@);
            lemma_between(a + n + b, f, c);
            lemma_between(a, n, b);
            served_laws::lemma_in_front(a + n + b, f, n);
            served_laws::lemma_in_front(a + n + b + f, c, n);
        },
        ConfigError::Brightness { brightness } => {
            lemma_between(
                report::plain("rgb.brightness "@),
                report::count(brightness as nat),
                report::plain(" out of range 0..=8 (0 = 100%)"@),
            );
        },
        ConfigError::FloorDuty { duty } => {
            lemma_between(
                report::plain("signals.throttle.floor_duty "@),
                report::count(duty as nat),
                report::plain(" exceeds 100"@),
            );
        },
        ConfigError::HoldSecs { secs } => {
            lemma_between(
                report::plain("signals.throttle.hold_secs "@),
                report::count(secs as nat),
                report::plain(" exceeds 3600"@),
            );
        },
        ConfigError::Alpha { which, alpha } => {
            lemma_between(
                report::plain(diagnostics::alpha_text(which)) + report::plain(" "@),
                report::value(alpha@),
                report::plain(" must be in (0.0, 1.0]"@),
            );
        },
        _ => {},
    }
}

/// Two lists of numbers one after the other are shown as each of them, with a
/// comma and a blank between.
pub proof fn law_lists_of_numbers(v: Seq<u8>, w: Seq<u8>)
    requires
        v.len() > 0,
        w.len() > 0,
    ensures
        diagnostics::comma_text(v + w) == diagnostics::comma_text(v) + ", "@
            + diagnostics::comma_text(w),
        diagnostics::list_text(seq![v[0]]) == "["@ + text::decimal_text(v[0] as nat) + "]"@,
        diagnostics::list_text(v + w) == "["@ + diagnostics::comma_text(v) + ", "@
            + diagnostics::comma_text(w) + "]"@,
    decreases w.len(),
{
    let all = v + w;
    assert(all.last() == w.last());
    if w.len() == 1 {
        assert(all.drop_last() =~= v);
    } else {
        law_lists_of_numbers(v, w.drop_last());
        assert(all.drop_last() =~= v + w.drop_last());
        assert(diagnostics::comma_text(all) =~= diagnostics::comma_text(v) + ", "@
            + diagnostics::comma_text(w));
    }
    assert(diagnostics::list_text(all) =~= "["@ + diagnostics::comma_text(v) + ", "@
        + diagnostics::comma_text(w) + "]"@);
}

proof fn lemma_rise_between(points: Seq<CurvePoint>, i: int, j: int)
    requires
        0 <= i < j < points.len(),
        points[i].duty < points[j].duty,
    ensures
        diagnostics::rises_with_headroom(points),
    decreases j - i,
{
    if points[j].duty > points[j - 1].duty {
        assert(1 <= j && points[j].duty > points[j - 1].duty);
    } else {
        lemma_rise_between(points, i, j - 1);
    }
}

/// A curve rises if and only if some point stands higher than one before it,
/// next to it or not.
pub proof fn law_rise_is_seen_anywhere(points: Seq<CurvePoint>)
    ensures
        diagnostics::rises_with_headroom(points) <==> exists|i: int, j: int|
            #![trigger points[i], points[j]]
            0 <= i < j < points.len() && points[i].duty < points[j].duty,
{
    if diagnostics::rises_with_headroom(points) {
        let j = choose|j: int|
            #![trigger points[j]]
            1 <= j < points.len() && points[j].duty > points[j - 1].duty;
        assert(0 <= j - 1 < j < points.len() && points[j - 1].duty < points[j].duty);
    }
    if exists|i: int, j: int|
        #![trigger points[i], points[j]]
        0 <= i < j < points.len() && points[i].duty < points[j].duty {
        let (i, j) = choose|i: int, j: int|
            #![trigger points[i], points[j]]
            0 <= i < j < points.len() && points[i].duty < points[j].duty;
        lemma_rise_between(points, i, j);
    }
}

/// Every unknown key is warned of, in its place. After them comes a warning of a
/// margin curve that rises somewhere, and one of the power cap, each if and only
/// if the signals and its section are switched on.
pub proof fn law_what_is_warned_of(c: Config, unknown: Seq<Seq<char>>, k: int)
    ensures
        ({
            let w = diagnostics::warning_texts(c, unknown);
            let margin = c.signals.enabled && c.signals.thermal_margin.enabled && exists|
                i: int,
                j: int,
            |
                #![trigger c.signals.thermal_margin.curve@[i], c.signals.thermal_margin.curve@[j]]
                0 <= i < j < c.signals.thermal_margin.curve@.len()
                    && c.signals.thermal_margin.curve@[i].duty
                    < c.signals.thermal_margin.curve@[j].duty;
            let cap = c.signals.enabled && c.signals.throttle.enabled
                && c.signals.throttle.reasons@.contains(ThrottleReason::SwPowerCap);
            &&& w.len() == unknown.len() + (if margin {
                1int
            } else {
                0int
            }) + (if cap {
                1int
            } else {
                0int
            })
            &&& 0 <= k < unknown.len() ==> w[k] == "ignoring unknown config key: "@ + unknown[k]
            &&& margin ==> w[unknown.len() as int] == diagnostics::margin_warning()
            &&& cap ==> w.last() == diagnostics::power_cap_warning()
        }),
{
    law_rise_is_seen_anywhere(c.signals.thermal_margin.curve@);
}

/// A missing hub is tried again after five seconds, of which no more than one is
/// slept at once.
pub proof fn law_hub_is_tried_every_five_seconds(w: HubWait, secs_since_warning: Option<u64>)
    ensures
        ({
            let event = HubWaitEvent::Missing { secs_since_warning };
            w.action(event) matches HubWaitAction::Sleep { ms, .. } && 0 < ms <= 1000 && ms
                + w.after(event).sleep_ahead() == 5000
        }),
        w.action(HubWaitEvent::Slept { stopping: false }) matches HubWaitAction::Sleep {
            ms,
            warn,
        } ==> 0 < ms <= 1000 && !warn,
        w.action(HubWaitEvent::Slept { stopping: false }) is Retry <==> w.left_ms == 0,
{
    hub_wait::law_missing_hub_is_retried_in_time(w, secs_since_warning);
}

/// A missing hub is warned of at once, and again when half a minute has passed.
pub proof fn law_hub_is_warned_of(w: HubWait, secs: u64)
    ensures
        w.action(HubWaitEvent::Missing { secs_since_warning: None }) matches HubWaitAction::Sleep {
            warn,
            ..
        } && warn,
        w.action(
            HubWaitEvent::Missing { secs_since_warning: Some(secs) },
        ) matches HubWaitAction::Sleep { warn, .. } && warn == (secs >= 30),
{
}

/// The hub counts as there once it was found and as missing once it was not, and
/// every failed try and every slice of sleep that is not the last shows life.
pub proof fn law_hub_wait_is_recorded(m: Metrics, secs: Option<u64>, now_secs: u64)
    ensures
        hub_wait::metrics_after(m, HubWaitEvent::Found, now_secs).hub_present,
        ({
            let end = hub_wait::metrics_after(
                m,
                HubWaitEvent::Missing { secs_since_warning: secs },
                now_secs,
            );
            !end.hub_present && end.last_tick == now_secs
        }),
        ({
            let end = hub_wait::metrics_after(m, HubWaitEvent::Slept { stopping: false }, now_secs);
            end.hub_present == m.hub_present && end.last_tick == now_secs
        }),
        hub_wait::metrics_after(m, HubWaitEvent::Slept { stopping: true }, now_secs) == m,
{
}

} // verus!
