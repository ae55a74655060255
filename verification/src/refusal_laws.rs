//! Which fault of a configuration is reported, if it has several.

use crate::acceptance_laws;
use crate::binary64;
use crate::config::{Config, PowerUnit};
use crate::text;
use crate::validation;
use crate::validation::{AlphaName, ConfigError, CurveName};
use vstd::prelude::*;

verus! {

/// Where the checks of a curve stand among all checks.
pub open spec fn curve_place(name: CurveName) -> int {
    match name {
        CurveName::Top => 0,
        CurveName::GpuTemp => 22,
        CurveName::CpuTemp => 26,
        CurveName::Power => 31,
        CurveName::Margin => 37,
        CurveName::MemTemp => 41,
    }
}

/// Where a check stands among all checks: the fans and the timing come first,
/// then the LEDs and their alarms, then the signals one by one, then the throttle
/// floor. Those of the fans by channel share a place.
pub open spec fn place(e: ConfigError) -> int {
    match e {
        ConfigError::CurveEmpty { name } => curve_place(name),
        ConfigError::CurveNotIncreasing { name } => curve_place(name) + 1,
        ConfigError::CurveDuty { name, .. } => curve_place(name) + 2,
        ConfigError::FallbackDuty => 3,
        ConfigError::NoChannels => 4,
        ConfigError::Channel { .. } => 5,
        ConfigError::MaxStep => 6,
        ConfigError::PollInterval => 7,
        ConfigError::Hysteresis => 8,
        ConfigError::CpuOffset => 9,
        ConfigError::NoStops => 10,
        ConfigError::StopsNotIncreasing => 11,
        ConfigError::StopDuty { .. } => 12,
        ConfigError::FansPerChannel { .. } => 13,
        ConfigError::FansKeyInvalid { .. } => 14,
        ConfigError::FansKeyNotCanonical { .. } => 14,
        ConfigError::FansKeyUnconfigured { .. } => 14,
        ConfigError::FansValue { .. } => 14,
        ConfigError::Buckets => 15,
        ConfigError::Brightness { .. } => 16,
        ConfigError::SustainedAfter => 17,
        ConfigError::EscalateEvery => 18,
        ConfigError::Cooldown => 19,
        ConfigError::NearLimitMargin => 20,
        ConfigError::NoSubSignal => 21,
        ConfigError::Alpha { which, .. } => match which {
            AlphaName::GpuTemp => 25,
            AlphaName::CpuTemp => 29,
            AlphaName::PowerRise => 34,
            AlphaName::PowerFall => 35,
            AlphaName::Margin => 40,
            AlphaName::MemTemp => 44,
        },
        ConfigError::SignalsCpuOffset => 30,
        ConfigError::PercentCurve => 36,
        ConfigError::FloorDuty { .. } => 45,
        ConfigError::NoReasons => 46,
        ConfigError::HoldSecs { .. } => 47,
    }
}

/// Whether a curve is looked at. An empty one of a temperature is not: the common
/// curve takes its place.
pub open spec fn curve_counts(c: Config, name: CurveName) -> bool {
    match name {
        CurveName::Top => true,
        CurveName::GpuTemp => c.signals.enabled && c.signals.gpu_temp.enabled
            && c.signals.gpu_temp.curve@.len() > 0,
        CurveName::CpuTemp => c.signals.enabled && c.signals.cpu_temp.enabled
            && c.signals.cpu_temp.curve@.len() > 0,
        CurveName::Power => c.signals.enabled && c.signals.gpu_power.enabled,
        CurveName::Margin => c.signals.enabled && c.signals.thermal_margin.enabled,
        CurveName::MemTemp => c.signals.enabled && c.signals.mem_temp.enabled,
    }
}

/// Whether a smoothing constant is looked at.
pub open spec fn alpha_counts(c: Config, which: AlphaName) -> bool {
    c.signals.enabled && match which {
        AlphaName::GpuTemp => c.signals.gpu_temp.enabled,
        AlphaName::CpuTemp => c.signals.cpu_temp.enabled,
        AlphaName::PowerRise => c.signals.gpu_power.enabled,
        AlphaName::PowerFall => c.signals.gpu_power.enabled,
        AlphaName::Margin => c.signals.thermal_margin.enabled,
        AlphaName::MemTemp => c.signals.mem_temp.enabled,
    }
}

/// Whether the entry at `i` is the first that is wrong.
pub open spec fn first_wrong_fan(c: Config, i: int) -> bool {
    let entries = c.rgb.fans.entries();
    &&& 0 <= i < entries.len()
    &&& !acceptance_laws::good_fan(entries[i].0, entries[i].1, c.channels@)
    &&& forall|k: int|
        0 <= k < i ==> acceptance_laws::good_fan(
            (#[trigger] entries[k]).0,
            entries[k].1,
            c.channels@,
        )
}

/// Whether a configuration has the fault that an error names, in a section that
/// is on, and no earlier value of the same list has it.
#[verifier::opaque]
pub open spec fn faulty(c: Config, e: ConfigError) -> bool {
    let entries = c.rgb.fans.entries();
    match e {
        ConfigError::CurveEmpty { name } => curve_counts(c, name) && acceptance_laws::curve_of(
            c,
            name,
        ).len() == 0,
        ConfigError::CurveNotIncreasing { name } => curve_counts(c, name) && exists|i: int|
            #![trigger acceptance_laws::curve_of(c, name)[i]]
            1 <= i < acceptance_laws::curve_of(c, name).len() && !acceptance_laws::curve_of(
                c,
                name,
            )[i - 1].temp@.below(acceptance_laws::curve_of(c, name)[i].temp@),
        ConfigError::CurveDuty { name, duty } => curve_counts(c, name) && duty > 100 && exists|
            i: int,
        |
            #![trigger acceptance_laws::curve_of(c, name)[i]]
            0 <= i < acceptance_laws::curve_of(c, name).len() && acceptance_laws::curve_of(
                c,
                name,
            )[i].duty == duty && forall|k: int|
                0 <= k < i ==> (#[trigger] acceptance_laws::curve_of(c, name)[k]).duty <= 100,
        ConfigError::FallbackDuty => c.fallback_duty > 100,
        ConfigError::NoChannels => c.channels@.len() == 0,
        ConfigError::Channel { channel } => !(1 <= channel <= 4) && exists|i: int|
            #![trigger c.channels@[i]]
            0 <= i < c.channels@.len() && c.channels@[i] == channel && forall|k: int|
                0 <= k < i ==> 1 <= #[trigger] c.channels@[k] <= 4,
        ConfigError::MaxStep => c.max_step_per_tick == 0,
        ConfigError::PollInterval => c.poll_interval_secs == 0,
        ConfigError::Hysteresis => c.hysteresis_c@.below(binary64::whole(0)),
        ConfigError::CpuOffset => c.cpu_offset@.below(binary64::whole(0)),
        ConfigError::NoStops => c.rgb.enabled && c.rgb.stops@.len() == 0,
        ConfigError::StopsNotIncreasing => c.rgb.enabled && exists|i: int|
            #![trigger c.rgb.stops@[i]]
            1 <= i < c.rgb.stops@.len() && c.rgb.stops@[i].duty <= c.rgb.stops@[i - 1].duty,
        ConfigError::StopDuty { duty } => c.rgb.enabled && duty > 100 && exists|i: int|
            #![trigger c.rgb.stops@[i]]
            0 <= i < c.rgb.stops@.len() && c.rgb.stops@[i].duty == duty && forall|k: int|
                0 <= k < i ==> (#[trigger] c.rgb.stops@[k]).duty <= 100,
        ConfigError::FansPerChannel { fans } => c.rgb.enabled && c.rgb.fans_per_channel == fans
            && !(1 <= fans <= 6),
        ConfigError::FansKeyInvalid { entry } => c.rgb.enabled && exists|i: int|
            first_wrong_fan(c, i) && entry == i as usize && text::byte_denoted(entries[i].0) is None,
        ConfigError::FansKeyNotCanonical { entry, channel } => c.rgb.enabled && exists|i: int|
            first_wrong_fan(c, i) && entry == i as usize && text::byte_denoted(entries[i].0) == Some(
                channel,
            ) && entries[i].0 != text::decimal_text(channel as nat),
        ConfigError::FansKeyUnconfigured { channel } => c.rgb.enabled && !c.channels@.contains(
            channel,
        ) && exists|i: int|
            first_wrong_fan(c, i) && entries[i].0 == text::decimal_text(channel as nat),
        ConfigError::FansValue { channel, fans } => c.rgb.enabled && c.channels@.contains(channel)
            && !(1 <= fans <= 6) && exists|i: int|
            first_wrong_fan(c, i) && entries[i].0 == text::decimal_text(channel as nat)
                && entries[i].1 == fans,
        ConfigError::Buckets => c.rgb.enabled && c.rgb.buckets < 2,
        ConfigError::Brightness { brightness } => c.rgb.enabled && c.rgb.brightness == brightness
            && brightness > 8,
        ConfigError::SustainedAfter => c.rgb.enabled && c.rgb.alerts.enabled
            && c.rgb.alerts.sustained_after_secs == 0,
        ConfigError::EscalateEvery => c.rgb.enabled && c.rgb.alerts.enabled
            && c.rgb.alerts.escalate_every_secs == 0,
        ConfigError::Cooldown => c.rgb.enabled && c.rgb.alerts.enabled
            && c.rgb.alerts.cooldown_secs == 0,
        ConfigError::NearLimitMargin => c.rgb.enabled && c.rgb.alerts.enabled
            && c.rgb.alerts.near_limit_margin_c@.below(binary64::whole(0)),
        ConfigError::NoSubSignal => c.signals.enabled && !c.signals.gpu_temp.enabled
            && !c.signals.cpu_temp.enabled && !c.signals.gpu_power.enabled
            && !c.signals.thermal_margin.enabled && !c.signals.mem_temp.enabled,
        ConfigError::Alpha { which, alpha } => alpha_counts(c, which) && acceptance_laws::alpha_of(
            c.signals,
            which,
        ) == alpha@ && !acceptance_laws::good_alpha(alpha@),
        ConfigError::SignalsCpuOffset => c.signals.enabled && c.signals.cpu_temp.enabled
            && c.signals.cpu_temp.offset_c@.below(binary64::whole(0)),
        ConfigError::PercentCurve => c.signals.enabled && c.signals.gpu_power.enabled
            && c.signals.gpu_power.unit == PowerUnit::PercentTdp && exists|i: int|
            0 <= i < c.signals.gpu_power.curve@.len() && binary64::whole(200).below(
                (#[trigger] c.signals.gpu_power.curve@[i]).temp@,
            ),
        ConfigError::FloorDuty { duty } => c.signals.enabled && c.signals.throttle.enabled
            && c.signals.throttle.floor_duty == duty && duty > 100,
        ConfigError::NoReasons => c.signals.enabled && c.signals.throttle.enabled
            && c.signals.throttle.reasons@.len() == 0,
        ConfigError::HoldSecs { secs } => c.signals.enabled && c.signals.throttle.enabled
            && c.signals.throttle.hold_secs == secs && secs > 3600,
    }
}

proof fn lemma_first_excess(duties: Seq<u8>, i: int)
    requires
        0 <= i < duties.len(),
        duties[i] > 100,
    ensures
        validation::excess(duties) is Some,
    decreases i,
{
    if exists|k: int| 0 <= k < i && #[trigger] duties[k] > 100 {
        let k = choose|k: int| 0 <= k < i && #[trigger] duties[k] > 100;
        lemma_first_excess(duties, k);
    } else {
        assert(validation::first_excess(duties, i));
    }
}

/// The checks of a curve stand together, and each finds what it is for.
proof fn lemma_curve(c: Config, name: CurveName)
    ensures
        validation::curve_error(name, acceptance_laws::curve_of(c, name)) matches Some(e) ==> (
        curve_counts(c, name) ==> faulty(c, e)) && curve_place(name) <= place(e) <= curve_place(name)
            + 2,
        faulty(c, ConfigError::CurveEmpty { name }) ==> (validation::curve_error(
            name,
            acceptance_laws::curve_of(c, name),
        ) matches Some(e) && place(e) <= curve_place(name)),
        faulty(c, ConfigError::CurveNotIncreasing { name }) ==> (validation::curve_error(
            name,
            acceptance_laws::curve_of(c, name),
        ) matches Some(e) && place(e) <= curve_place(name) + 1),
        forall|duty: u8|
            #![trigger faulty(c, ConfigError::CurveDuty { name, duty })]
            faulty(c, ConfigError::CurveDuty { name, duty }) ==> validation::curve_error(
                name,
                acceptance_laws::curve_of(c, name),
            ) is Some,
{
    reveal(faulty);
    let points = acceptance_laws::curve_of(c, name);
    let duties = validation::curve_duties(points);
    if validation::excess(duties) is Some {
        let i = choose|i: int| validation::first_excess(duties, i);
        assert(validation::first_excess(duties, i));
        assert(acceptance_laws::curve_of(c, name)[i].duty == duties[i]);
        assert forall|k: int| 0 <= k < i implies (#[trigger] acceptance_laws::curve_of(
            c,
            name,
        )[k]).duty <= 100 by {
            assert(duties[k] <= 100);
        }
    }
    assert forall|duty: u8|
        #![trigger faulty(c, ConfigError::CurveDuty { name, duty })]
        faulty(c, ConfigError::CurveDuty { name, duty }) implies validation::curve_error(
        name,
        points,
    ) is Some by {
        let i = choose|i: int|
            #![trigger acceptance_laws::curve_of(c, name)[i]]
            0 <= i < points.len() && acceptance_laws::curve_of(c, name)[i].duty == duty;
        assert(duties[i] == duty);
        lemma_first_excess(duties, i);
    }
}

proof fn lemma_stops(c: Config)
    requires
        c.rgb.enabled,
    ensures
        validation::stops_error(c.rgb.stops@) matches Some(e) ==> faulty(c, e) && 10 <= place(e)
            <= 12,
        faulty(c, ConfigError::NoStops) ==> (validation::stops_error(c.rgb.stops@) matches Some(e)
            && place(e) <= 10),
        faulty(c, ConfigError::StopsNotIncreasing) ==> (validation::stops_error(
            c.rgb.stops@,
        ) matches Some(e) && place(e) <= 11),
        forall|duty: u8|
            #![trigger faulty(c, ConfigError::StopDuty { duty })]
            faulty(c, ConfigError::StopDuty { duty }) ==> validation::stops_error(
                c.rgb.stops@,
            ) is Some,
{
    reveal(faulty);
    let stops = c.rgb.stops@;
    let duties = validation::stop_duties(stops);
    if validation::excess(duties) is Some {
        let i = choose|i: int| validation::first_excess(duties, i);
        assert(validation::first_excess(duties, i));
        assert(c.rgb.stops@[i].duty == duties[i]);
        assert forall|k: int| 0 <= k < i implies (#[trigger] c.rgb.stops@[k]).duty <= 100 by {
            assert(duties[k] <= 100);
        }
    }
    assert forall|duty: u8|
        #![trigger faulty(c, ConfigError::StopDuty { duty })]
        faulty(c, ConfigError::StopDuty { duty }) implies validation::stops_error(stops) is Some by {
        let i = choose|i: int|
            #![trigger c.rgb.stops@[i]]
            0 <= i < stops.len() && c.rgb.stops@[i].duty == duty;
        assert(duties[i] == duty);
        lemma_first_excess(duties, i);
    }
}

proof fn lemma_channels(c: Config)
    ensures
        validation::channels_error(c.channels@) matches Some(e) ==> faulty(c, e) && 4 <= place(e)
            <= 5,
        faulty(c, ConfigError::NoChannels) ==> (validation::channels_error(c.channels@) matches Some(
            e,
        ) && place(e) <= 4),
        forall|channel: u8|
            #![trigger faulty(c, ConfigError::Channel { channel })]
            faulty(c, ConfigError::Channel { channel }) ==> validation::channels_error(
                c.channels@,
            ) is Some,
{
    reveal(faulty);
    let channels = c.channels@;
    if exists|i: int| validation::first_bad_channel(channels, i) {
        let i = choose|i: int| validation::first_bad_channel(channels, i);
        assert(validation::first_bad_channel(channels, i));
        assert(c.channels@[i] == channels[i]);
    }
    assert forall|channel: u8|
        #![trigger faulty(c, ConfigError::Channel { channel })]
        faulty(c, ConfigError::Channel { channel }) implies validation::channels_error(
        channels,
    ) is Some by {
        let i = choose|i: int|
            #![trigger c.channels@[i]]
            0 <= i < c.channels@.len() && c.channels@[i] == channel && forall|k: int|
                0 <= k < i ==> 1 <= #[trigger] c.channels@[k] <= 4;
        assert(validation::first_bad_channel(channels, i));
    }
}

proof fn lemma_fans(c: Config, n: int)
    requires
        c.rgb.enabled,
        0 <= n <= c.rgb.fans.entries().len(),
        forall|k: int|
            0 <= k < n ==> acceptance_laws::good_fan(
                (#[trigger] c.rgb.fans.entries()[k]).0,
                c.rgb.fans.entries()[k].1,
                c.channels@,
            ),
    ensures
        validation::fans_error(c.rgb.fans.entries(), c.channels@, n) matches Some(e) ==> faulty(c, e)
            && place(e) == 14,
    decreases c.rgb.fans.entries().len() - n,
{
    reveal(faulty);
    let entries = c.rgb.fans.entries();
    if n < entries.len() {
        acceptance_laws::lemma_fan(entries[n].0, entries[n].1, c.channels@, n as usize);
        if validation::fan_error(entries[n].0, entries[n].1, c.channels@, n as usize) is None {
            lemma_fans(c, n + 1);
        } else {
            assert(first_wrong_fan(c, n));
        }
    }
}

proof fn lemma_wrong_fan(c: Config, i: int)
    requires
        first_wrong_fan(c, i),
    ensures
        validation::fans_error(c.rgb.fans.entries(), c.channels@, 0) is Some,
{
    acceptance_laws::lemma_fans(c.rgb.fans.entries(), c.channels@, 0);
    let entries = c.rgb.fans.entries();
    assert(!acceptance_laws::good_fan(entries[i].0, entries[i].1, c.channels@));
}

proof fn lemma_base(c: Config, other: ConfigError)
    ensures
        validation::base_error(c) matches Some(e) ==> faulty(c, e) && 0 <= place(e) <= 9,
        faulty(c, other) && place(other) <= 9 ==> (validation::base_error(c) matches Some(e)
            && place(e) <= place(other)),
{
    lemma_curve(c, CurveName::Top);
    lemma_channels(c);
    reveal(faulty);
    if faulty(c, other) {
        match other {
            ConfigError::CurveDuty { name, duty } => {
                assert(faulty(c, ConfigError::CurveDuty { name, duty }));
            },
            ConfigError::Channel { channel } => {
                assert(faulty(c, ConfigError::Channel { channel }));
            },
            _ => {},
        }
    }
}

proof fn lemma_leds(c: Config, other: ConfigError)
    ensures
        c.rgb.enabled ==> (validation::rgb_error(c.rgb, c.channels@) matches Some(e) ==> faulty(c, e)
            && 10 <= place(e) <= 20),
        faulty(c, other) && 10 <= place(other) <= 20 ==> c.rgb.enabled && (validation::rgb_error(
            c.rgb,
            c.channels@,
        ) matches Some(e) && place(e) <= place(other)),
{
    if c.rgb.enabled {
        lemma_stops(c);
        lemma_fans(c, 0);
    }
    reveal(faulty);
    let entries = c.rgb.fans.entries();
    if faulty(c, other) {
        match other {
            ConfigError::FansKeyInvalid { entry } => {
                let i = choose|i: int|
                    first_wrong_fan(c, i) && entry == i as usize && text::byte_denoted(
                        entries[i].0,
                    ) is None;
                lemma_wrong_fan(c, i);
            },
            ConfigError::FansKeyNotCanonical { entry, channel } => {
                let i = choose|i: int|
                    first_wrong_fan(c, i) && entry == i as usize && text::byte_denoted(entries[i].0)
                        == Some(channel) && entries[i].0 != text::decimal_text(channel as nat);
                lemma_wrong_fan(c, i);
            },
            ConfigError::FansKeyUnconfigured { channel } => {
                let i = choose|i: int|
                    first_wrong_fan(c, i) && entries[i].0 == text::decimal_text(channel as nat);
                lemma_wrong_fan(c, i);
            },
            ConfigError::FansValue { channel, fans } => {
                let i = choose|i: int|
                    first_wrong_fan(c, i) && entries[i].0 == text::decimal_text(channel as nat)
                        && entries[i].1 == fans;
                lemma_wrong_fan(c, i);
            },
            ConfigError::StopDuty { duty } => {
                assert(faulty(c, ConfigError::StopDuty { duty }));
            },
            _ => {},
        }
    }
}

proof fn lemma_temps(c: Config, other: ConfigError)
    ensures
        c.signals.enabled ==> (validation::temps_error(c.signals) matches Some(e) ==> faulty(c, e)
            && 22 <= place(e) <= 30),
        faulty(c, other) && 22 <= place(other) <= 30 ==> c.signals.enabled && (
        validation::temps_error(c.signals) matches Some(e) && place(e) <= place(other)),
{
    lemma_curve(c, CurveName::GpuTemp);
    lemma_curve(c, CurveName::CpuTemp);
    reveal(faulty);
    if faulty(c, other) {
        match other {
            ConfigError::CurveDuty { name, duty } => {
                assert(faulty(c, ConfigError::CurveDuty { name, duty }));
            },
            _ => {},
        }
    }
}

proof fn lemma_power(c: Config, other: ConfigError)
    ensures
        c.signals.enabled ==> (validation::power_error(c.signals) matches Some(e) ==> faulty(c, e)
            && 31 <= place(e) <= 36),
        faulty(c, other) && 31 <= place(other) <= 36 ==> c.signals.enabled && (
        validation::power_error(c.signals) matches Some(e) && place(e) <= place(other)),
{
    lemma_curve(c, CurveName::Power);
    reveal(faulty);
    if faulty(c, other) {
        match other {
            ConfigError::CurveDuty { name, duty } => {
                assert(faulty(c, ConfigError::CurveDuty { name, duty }));
            },
            _ => {},
        }
    }
}

proof fn lemma_limits(c: Config, other: ConfigError)
    ensures
        c.signals.enabled ==> (validation::limits_error(c.signals) matches Some(e) ==> faulty(c, e)
            && 37 <= place(e) <= 44),
        faulty(c, other) && 37 <= place(other) <= 44 ==> c.signals.enabled && (
        validation::limits_error(c.signals) matches Some(e) && place(e) <= place(other)),
{
    lemma_curve(c, CurveName::Margin);
    lemma_curve(c, CurveName::MemTemp);
    reveal(faulty);
    if faulty(c, other) {
        match other {
            ConfigError::CurveDuty { name, duty } => {
                assert(faulty(c, ConfigError::CurveDuty { name, duty }));
            },
            _ => {},
        }
    }
}

proof fn lemma_throttle(c: Config, other: ConfigError)
    ensures
        c.signals.enabled ==> (validation::throttle_error(c.signals.throttle) matches Some(e)
            ==> faulty(c, e) && 45 <= place(e) <= 47),
        faulty(c, other) && 45 <= place(other) <= 47 ==> c.signals.enabled && (
        validation::throttle_error(c.signals.throttle) matches Some(e) && place(e) <= place(other)),
{
    reveal(faulty);
}

proof fn lemma_signals(c: Config, other: ConfigError)
    ensures
        c.signals.enabled ==> (validation::signals_error(c.signals) matches Some(e) ==> faulty(c, e)
            && 21 <= place(e) <= 47),
        faulty(c, other) && 21 <= place(other) <= 47 ==> c.signals.enabled && (
        validation::signals_error(c.signals) matches Some(e) && place(e) <= place(other)),
{
    lemma_temps(c, other);
    lemma_power(c, other);
    lemma_limits(c, other);
    lemma_throttle(c, other);
    assert(faulty(c, ConfigError::NoSubSignal) <==> c.signals.enabled && !validation::any_signal(
        c.signals,
    )) by {
        reveal(faulty);
    }
    assert(place(other) == 21 ==> other == ConfigError::NoSubSignal);
}

/// The error that is reported is a fault of the configuration, and the first one
/// in the order of the checks.
pub proof fn law_first_fault_is_reported(c: Config, other: ConfigError)
    ensures
        validation::config_error(c) matches Some(e) ==> faulty(c, e),
        faulty(c, other) ==> (validation::config_error(c) matches Some(e) && place(e) <= place(
            other,
        )),
{
    lemma_base(c, other);
    lemma_leds(c, other);
    lemma_signals(c, other);
    assert(0 <= place(other) <= 47);
}

} // verus!
