//! Exactly which configurations are accepted, field by field, and what an error
//! says of a configuration.

use crate::binary64;
use crate::binary64::Number;
use crate::config::{
    AlertsConfig, Config, CurvePoint, PowerUnit, RgbConfig, SignalsConfig, ThrottleConfig,
    ThrottleReason,
};
use crate::config_laws;
use crate::rgb::ColorStop;
use crate::text;
use crate::validation;
use crate::validation::{AlphaName, ConfigError, CurveName};
use vstd::prelude::*;

verus! {

/// At least one point, each temperature below the next, no duty above 100.
pub open spec fn good_curve(points: Seq<CurvePoint>) -> bool {
    &&& points.len() >= 1
    &&& forall|i: int, j: int|
        0 <= i && j == i + 1 && j < points.len() ==> (#[trigger] points[i]).temp@.below(
            (#[trigger] points[j]).temp@,
        )
    &&& forall|i: int| 0 <= i < points.len() ==> (#[trigger] points[i]).duty <= 100
}

/// At least one stop, each duty below the next, none above 100.
pub open spec fn good_stops(stops: Seq<ColorStop>) -> bool {
    &&& stops.len() >= 1
    &&& forall|i: int, j: int|
        0 <= i && j == i + 1 && j < stops.len() ==> (#[trigger] stops[i]).duty < (
        #[trigger] stops[j]).duty
    &&& forall|i: int| 0 <= i < stops.len() ==> (#[trigger] stops[i]).duty <= 100
}

/// Not below zero. What is not a number is not.
pub open spec fn not_negative(x: Number) -> bool {
    !x.below(binary64::whole(0))
}

/// Above zero and at most one.
pub open spec fn good_alpha(x: Number) -> bool {
    binary64::whole(0).below(x) && (x.below(binary64::whole(1)) || x.same(binary64::whole(1)))
}

/// The key of a fan entry is the plain decimal number of a configured channel,
/// and its value one to six.
pub open spec fn good_fan(key: Seq<char>, fans: u8, channels: Seq<u8>) -> bool {
    1 <= fans <= 6 && exists|i: int|
        0 <= i < channels.len() && key == text::decimal_text(#[trigger] channels[i] as nat)
}

pub open spec fn good_alerts(a: AlertsConfig) -> bool {
    &&& a.sustained_after_secs > 0
    &&& a.escalate_every_secs > 0
    &&& a.cooldown_secs > 0
    &&& not_negative(a.near_limit_margin_c@)
}

pub open spec fn good_leds(r: RgbConfig, channels: Seq<u8>) -> bool {
    &&& good_stops(r.stops@)
    &&& 1 <= r.fans_per_channel <= 6
    &&& forall|i: int|
        0 <= i < r.fans.entries().len() ==> good_fan(
            (#[trigger] r.fans.entries()[i]).0,
            r.fans.entries()[i].1,
            channels,
        )
    &&& r.buckets >= 2
    &&& r.brightness <= 8
    &&& r.alerts.enabled ==> good_alerts(r.alerts)
}

pub open spec fn good_throttle(t: ThrottleConfig) -> bool {
    t.floor_duty <= 100 && t.reasons@.len() > 0 && t.hold_secs <= 3600
}

pub open spec fn good_signals(s: SignalsConfig) -> bool {
    &&& s.gpu_temp.enabled || s.cpu_temp.enabled || s.gpu_power.enabled || s.thermal_margin.enabled
        || s.mem_temp.enabled
    &&& s.gpu_temp.enabled ==> good_alpha(s.gpu_temp.alpha@) && (s.gpu_temp.curve@.len() == 0
        || good_curve(s.gpu_temp.curve@))
    &&& s.cpu_temp.enabled ==> good_alpha(s.cpu_temp.alpha@) && (s.cpu_temp.curve@.len() == 0
        || good_curve(s.cpu_temp.curve@)) && not_negative(s.cpu_temp.offset_c@)
    &&& s.gpu_power.enabled ==> good_curve(s.gpu_power.curve@) && good_alpha(
        s.gpu_power.rise_alpha@,
    ) && good_alpha(s.gpu_power.fall_alpha@) && (s.gpu_power.unit == PowerUnit::PercentTdp ==> (
    forall|i: int|
        0 <= i < s.gpu_power.curve@.len() ==> !binary64::whole(200).below(
            (#[trigger] s.gpu_power.curve@[i]).temp@,
        )))
    &&& s.thermal_margin.enabled ==> good_curve(s.thermal_margin.curve@) && good_alpha(
        s.thermal_margin.alpha@,
    )
    &&& s.mem_temp.enabled ==> good_curve(s.mem_temp.curve@) && good_alpha(s.mem_temp.alpha@)
    &&& s.throttle.enabled ==> good_throttle(s.throttle)
}

/// Everything that is asked of a configuration. Sections that are off are not
/// looked at.
pub open spec fn good(c: Config) -> bool {
    &&& good_curve(c.curve@)
    &&& c.fallback_duty <= 100
    &&& c.channels@.len() >= 1
    &&& forall|i: int| 0 <= i < c.channels@.len() ==> 1 <= #[trigger] c.channels@[i] <= 4
    &&& c.max_step_per_tick > 0
    &&& c.poll_interval_secs > 0
    &&& not_negative(c.hysteresis_c@)
    &&& not_negative(c.cpu_offset@)
    &&& c.rgb.enabled ==> good_leds(c.rgb, c.channels@)
    &&& c.signals.enabled ==> good_signals(c.signals)
}

proof fn lemma_curve(name: CurveName, points: Seq<CurvePoint>)
    ensures
        validation::curve_error(name, points) is None <==> good_curve(points),
{
    config_laws::law_curve_check_is_exact(name, points);
    if good_curve(points) {
        assert forall|i: int| #![trigger points[i]] 1 <= i < points.len() implies points[i
            - 1].temp@.below(points[i].temp@) by {
            let j = i - 1;
            assert(points[j].temp@.below(points[i].temp@));
        }
    }
}

proof fn lemma_stops(stops: Seq<ColorStop>)
    ensures
        validation::stops_error(stops) is None <==> good_stops(stops),
{
    let duties = validation::stop_duties(stops);
    if validation::stops_error(stops) is None {
        config_laws::lemma_no_excess(duties, duties.len() as int);
        assert forall|i: int| 0 <= i < stops.len() implies (#[trigger] stops[i]).duty <= 100 by {
            assert(duties[i] <= 100);
        }
    }
    if good_stops(stops) {
        if validation::stops_step_back(stops) {
            let i = choose|i: int|
                #![trigger stops[i]]
                1 <= i < stops.len() && stops[i].duty <= stops[i - 1].duty;
            let j = i - 1;
            assert(stops[j].duty < stops[i].duty);
        }
        if exists|i: int| validation::first_excess(duties, i) {
            let i = choose|i: int| validation::first_excess(duties, i);
            assert(validation::first_excess(duties, i));
            assert(stops[i].duty <= 100);
        }
    }
}

proof fn lemma_channels(channels: Seq<u8>)
    ensures
        validation::channels_error(channels) is None <==> channels.len() >= 1 && forall|i: int|
            0 <= i < channels.len() ==> 1 <= #[trigger] channels[i] <= 4,
{
    if validation::channels_error(channels) is None {
        lemma_no_bad_channel(channels, channels.len() as int);
    }
}

proof fn lemma_no_bad_channel(channels: Seq<u8>, n: int)
    requires
        0 <= n <= channels.len(),
        !(exists|i: int| validation::first_bad_channel(channels, i)),
    ensures
        forall|i: int| 0 <= i < n ==> 1 <= #[trigger] channels[i] <= 4,
    decreases n,
{
    if n > 0 {
        lemma_no_bad_channel(channels, n - 1);
        if !(1 <= channels[n - 1] <= 4) {
            assert(validation::first_bad_channel(channels, n - 1));
        }
    }
}

pub proof fn lemma_fan(key: Seq<char>, fans: u8, channels: Seq<u8>, entry: usize)
    ensures
        validation::fan_error(key, fans, channels, entry) is None <==> good_fan(
            key,
            fans,
            channels,
        ),
{
    if validation::fan_error(key, fans, channels, entry) is None {
        let c = text::byte_denoted(key)->0;
        let i = choose|i: int| 0 <= i < channels.len() && channels[i] == c;
        assert(key == text::decimal_text(channels[i] as nat));
    }
    if good_fan(key, fans, channels) {
        let i = choose|i: int|
            0 <= i < channels.len() && key == text::decimal_text(#[trigger] channels[i] as nat);
        text::law_byte_text_round_trips(channels[i]);
    }
}

pub proof fn lemma_fans(entries: Seq<(Seq<char>, u8)>, channels: Seq<u8>, n: int)
    requires
        0 <= n <= entries.len(),
    ensures
        validation::fans_error(entries, channels, n) is None <==> forall|i: int|
            n <= i < entries.len() ==> good_fan((#[trigger] entries[i]).0, entries[i].1, channels),
    decreases entries.len() - n,
{
    if n < entries.len() {
        lemma_fan(entries[n].0, entries[n].1, channels, n as usize);
        lemma_fans(entries, channels, n + 1);
    }
}

/// A configuration is accepted exactly if it is good, field by field.
pub proof fn law_good_configurations_are_accepted(c: Config)
    ensures
        config_laws::accepted(c) <==> good(c),
{
    lemma_curve(CurveName::Top, c.curve@);
    lemma_channels(c.channels@);
    lemma_stops(c.rgb.stops@);
    lemma_fans(c.rgb.fans.entries(), c.channels@, 0);
    let s = c.signals;
    lemma_curve(CurveName::GpuTemp, s.gpu_temp.curve@);
    lemma_curve(CurveName::CpuTemp, s.cpu_temp.curve@);
    lemma_curve(CurveName::Power, s.gpu_power.curve@);
    lemma_curve(CurveName::Margin, s.thermal_margin.curve@);
    lemma_curve(CurveName::MemTemp, s.mem_temp.curve@);
}

/// The smoothing constant that an error speaks of.
pub open spec fn alpha_of(s: SignalsConfig, which: AlphaName) -> Number {
    match which {
        AlphaName::GpuTemp => s.gpu_temp.alpha@,
        AlphaName::CpuTemp => s.cpu_temp.alpha@,
        AlphaName::PowerRise => s.gpu_power.rise_alpha@,
        AlphaName::PowerFall => s.gpu_power.fall_alpha@,
        AlphaName::Margin => s.thermal_margin.alpha@,
        AlphaName::MemTemp => s.mem_temp.alpha@,
    }
}

/// The curve that an error speaks of.
pub open spec fn curve_of(c: Config, name: CurveName) -> Seq<CurvePoint> {
    match name {
        CurveName::Top => c.curve@,
        CurveName::GpuTemp => c.signals.gpu_temp.curve@,
        CurveName::CpuTemp => c.signals.cpu_temp.curve@,
        CurveName::Power => c.signals.gpu_power.curve@,
        CurveName::Margin => c.signals.thermal_margin.curve@,
        CurveName::MemTemp => c.signals.mem_temp.curve@,
    }
}

/// Whether what an error says is so.
pub open spec fn is_so(c: Config, e: ConfigError) -> bool {
    match e {
        ConfigError::CurveEmpty { name } => curve_of(c, name).len() == 0,
        ConfigError::CurveNotIncreasing { name } => exists|i: int|
            #![trigger curve_of(c, name)[i]]
            1 <= i < curve_of(c, name).len() && !curve_of(c, name)[i - 1].temp@.below(
                curve_of(c, name)[i].temp@,
            ),
        ConfigError::CurveDuty { name, duty } => duty > 100 && exists|i: int|
            0 <= i < curve_of(c, name).len() && (#[trigger] curve_of(c, name)[i]).duty == duty,
        ConfigError::FallbackDuty => c.fallback_duty > 100,
        ConfigError::NoChannels => c.channels@.len() == 0,
        ConfigError::Channel { channel } => (channel == 0 || channel > 4) && c.channels@.contains(
            channel,
        ),
        ConfigError::MaxStep => c.max_step_per_tick == 0,
        ConfigError::PollInterval => c.poll_interval_secs == 0,
        ConfigError::Hysteresis => c.hysteresis_c@.below(binary64::whole(0)),
        ConfigError::CpuOffset => c.cpu_offset@.below(binary64::whole(0)),
        ConfigError::NoStops => c.rgb.enabled && c.rgb.stops@.len() == 0,
        ConfigError::StopsNotIncreasing => c.rgb.enabled && exists|i: int|
            #![trigger c.rgb.stops@[i]]
            1 <= i < c.rgb.stops@.len() && c.rgb.stops@[i].duty <= c.rgb.stops@[i - 1].duty,
        ConfigError::StopDuty { duty } => c.rgb.enabled && duty > 100 && exists|i: int|
            0 <= i < c.rgb.stops@.len() && (#[trigger] c.rgb.stops@[i]).duty == duty,
        ConfigError::FansPerChannel { fans } => c.rgb.enabled && c.rgb.fans_per_channel == fans && (
        fans == 0 || fans > 6),
        ConfigError::FansKeyInvalid { .. } => c.rgb.enabled,
        ConfigError::FansKeyNotCanonical { .. } => c.rgb.enabled,
        ConfigError::FansKeyUnconfigured { channel } => c.rgb.enabled && !c.channels@.contains(
            channel,
        ),
        ConfigError::FansValue { channel, fans } => c.rgb.enabled && c.channels@.contains(channel)
            && (fans == 0 || fans > 6),
        ConfigError::Buckets => c.rgb.enabled && c.rgb.buckets < 2,
        ConfigError::Brightness { brightness } => c.rgb.enabled && c.rgb.brightness == brightness
            && brightness > 8,
        ConfigError::SustainedAfter => c.rgb.alerts.enabled && c.rgb.alerts.sustained_after_secs
            == 0,
        ConfigError::EscalateEvery => c.rgb.alerts.enabled && c.rgb.alerts.escalate_every_secs
            == 0,
        ConfigError::Cooldown => c.rgb.alerts.enabled && c.rgb.alerts.cooldown_secs == 0,
        ConfigError::NearLimitMargin => c.rgb.alerts.enabled
            && c.rgb.alerts.near_limit_margin_c@.below(binary64::whole(0)),
        ConfigError::NoSubSignal => c.signals.enabled && !c.signals.gpu_temp.enabled
            && !c.signals.cpu_temp.enabled && !c.signals.gpu_power.enabled
            && !c.signals.thermal_margin.enabled && !c.signals.mem_temp.enabled,
        ConfigError::Alpha { which, alpha } => c.signals.enabled && alpha_of(c.signals, which)
            == alpha@ && !good_alpha(alpha@),
        ConfigError::SignalsCpuOffset => c.signals.enabled && c.signals.cpu_temp.enabled
            && c.signals.cpu_temp.offset_c@.below(binary64::whole(0)),
        ConfigError::PercentCurve => c.signals.gpu_power.unit == PowerUnit::PercentTdp && exists|
            i: int,
        |
            0 <= i < c.signals.gpu_power.curve@.len() && binary64::whole(200).below(
                (#[trigger] c.signals.gpu_power.curve@[i]).temp@,
            ),
        ConfigError::FloorDuty { duty } => c.signals.throttle.floor_duty == duty && duty > 100,
        ConfigError::NoReasons => c.signals.throttle.reasons@.len() == 0,
        ConfigError::HoldSecs { secs } => c.signals.throttle.hold_secs == secs && secs > 3600,
    }
}

proof fn lemma_excess_is_one(duties: Seq<u8>)
    requires
        validation::excess(duties) is Some,
    ensures
        validation::excess(duties)->0 > 100,
        exists|i: int| 0 <= i < duties.len() && #[trigger] duties[i] == validation::excess(duties)->0,
{
    let i = choose|i: int| validation::first_excess(duties, i);
    assert(validation::first_excess(duties, i));
    assert(duties[i] == validation::excess(duties)->0);
}

proof fn lemma_curve_error_is_so(c: Config, name: CurveName)
    ensures
        validation::curve_error(name, curve_of(c, name)) matches Some(e) ==> is_so(c, e),
{
    let points = curve_of(c, name);
    let duties = validation::curve_duties(points);
    if points.len() > 0 && !validation::steps_back(points) && validation::excess(duties) is Some {
        lemma_excess_is_one(duties);
        let i = choose|i: int|
            0 <= i < duties.len() && #[trigger] duties[i] == validation::excess(duties)->0;
        assert(curve_of(c, name)[i].duty == duties[i]);
    }
}

proof fn lemma_fans_error_is_so(c: Config, n: int)
    requires
        c.rgb.enabled,
        0 <= n <= c.rgb.fans.entries().len(),
    ensures
        validation::fans_error(c.rgb.fans.entries(), c.channels@, n) matches Some(e) ==> is_so(
            c,
            e,
        ),
    decreases c.rgb.fans.entries().len() - n,
{
    if n < c.rgb.fans.entries().len() {
        lemma_fans_error_is_so(c, n + 1);
    }
}

/// What an error says of a configuration is so: it names a fault that is there,
/// with the value that is wrong, in a section that is on.
pub proof fn law_errors_are_true(c: Config)
    ensures
        validation::config_error(c) matches Some(e) ==> is_so(c, e),
{
    lemma_curve_error_is_so(c, CurveName::Top);
    lemma_curve_error_is_so(c, CurveName::GpuTemp);
    lemma_curve_error_is_so(c, CurveName::CpuTemp);
    lemma_curve_error_is_so(c, CurveName::Power);
    lemma_curve_error_is_so(c, CurveName::Margin);
    lemma_curve_error_is_so(c, CurveName::MemTemp);
    if c.rgb.enabled {
        lemma_fans_error_is_so(c, 0);
        let stops = c.rgb.stops@;
        let duties = validation::stop_duties(stops);
        if stops.len() > 0 && !validation::stops_step_back(stops) && validation::excess(
            duties,
        ) is Some {
            lemma_excess_is_one(duties);
            let i = choose|i: int|
                0 <= i < duties.len() && #[trigger] duties[i] == validation::excess(duties)->0;
            assert(c.rgb.stops@[i].duty == duties[i]);
        }
    }
    if exists|i: int| validation::first_bad_channel(c.channels@, i) {
        let i = choose|i: int| validation::first_bad_channel(c.channels@, i);
        assert(validation::first_bad_channel(c.channels@, i));
        assert(c.channels@.contains(c.channels@[i]));
    }
}

/// The defaults, as the documentation gives them.
pub proof fn law_defaults(alerts: AlertsConfig, leds: RgbConfig, signals: SignalsConfig)
    requires
        alerts.is_default(),
        leds.is_default(),
        signals.is_default(),
    ensures
        !alerts.enabled && !leds.enabled && !signals.enabled,
        alerts.sustained_hot_c@ == binary64::whole(75),
        alerts.sustained_after_secs == 120,
        alerts.near_limit_margin_c@ == binary64::whole(3),
        alerts.escalate_every_secs == 30,
        alerts.cooldown_secs == 60,
        alerts.alert_color@ =~= seq![255u8, 0, 0],
        alerts.fault_colors@[0]@ =~= seq![255u8, 80, 0],
        alerts.fault_colors@[1]@ =~= seq![255u8, 0, 0],
        leds.fans_per_channel == 6,
        leds.fans.entries().len() == 0,
        leds.brightness == 0,
        leds.buckets == 8,
        leds.stops@.len() == 5,
        leds.stops@[0].duty == 30 && leds.stops@[1].duty == 50 && leds.stops@[2].duty == 75
            && leds.stops@[3].duty == 90 && leds.stops@[4].duty == 100,
        leds.stops@[0].color@ =~= seq![0u8, 0, 255],
        leds.stops@[1].color@ =~= seq![0u8, 255, 0],
        leds.stops@[2].color@ =~= seq![255u8, 255, 0],
        leds.stops@[3].color@ =~= seq![255u8, 128, 0],
        leds.stops@[4].color@ =~= seq![255u8, 0, 0],
        signals.gpu_temp.enabled && signals.cpu_temp.enabled,
        !signals.gpu_power.enabled && !signals.thermal_margin.enabled && !signals.mem_temp.enabled
            && !signals.throttle.enabled,
        signals.cpu_temp.offset_c@ == binary64::whole(10),
        signals.gpu_temp.alpha@ == binary64::whole(1),
        signals.cpu_temp.alpha@ == binary64::whole(1),
        signals.mem_temp.alpha@ == binary64::whole(1),
        signals.thermal_margin.alpha@ == binary64::whole(4).quotient(binary64::whole(10)),
        signals.gpu_power.rise_alpha@ == binary64::whole(5).quotient(binary64::whole(10)),
        signals.gpu_power.fall_alpha@ == binary64::whole(1).quotient(binary64::whole(10)),
        signals.rise_alpha@ == binary64::whole(5).quotient(binary64::whole(10)),
        signals.fall_alpha@ == binary64::whole(1).quotient(binary64::whole(10)),
        signals.gpu_power.unit == PowerUnit::Watts,
        signals.throttle.floor_duty == 85,
        signals.throttle.hold_secs == 30,
        signals.throttle.reasons@.contains(ThrottleReason::SwThermal),
        signals.throttle.reasons@.contains(ThrottleReason::HwThermal),
        signals.throttle.reasons@.contains(ThrottleReason::HwPowerBrake),
        !signals.throttle.reasons@.contains(ThrottleReason::SwPowerCap),
{
    let r = signals.throttle.reasons@;
    assert(r[0] == ThrottleReason::SwThermal);
    assert(r[1] == ThrottleReason::HwThermal);
    assert(r[2] == ThrottleReason::HwPowerBrake);
}

/// The number of fans of a channel is that of the entry under its plain decimal
/// number, and the common one without such an entry.
pub proof fn law_fans_by_channel(r: RgbConfig, channel: u8)
    ensures
        r.fans@.contains_key(text::decimal_text(channel as nat)) ==> r.fans_on(channel)
            == r.fans@[text::decimal_text(channel as nat)],
        !r.fans@.contains_key(text::decimal_text(channel as nat)) ==> r.fans_on(channel)
            == r.fans_per_channel,
{
}

} // verus!
