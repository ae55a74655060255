//! What holds of every accepted configuration.

use crate::binary64;
use crate::binary64::Number;
use crate::config::{AlertsConfig, Config, CurvePoint, RgbConfig, SignalsConfig};
use crate::curve;
use crate::curve_laws;
use crate::hid;
use crate::text;
use crate::validation;
use crate::validation::CurveName;
use vstd::prelude::*;

verus! {

/// Whether a configuration is accepted.
pub open spec fn accepted(c: Config) -> bool {
    validation::config_error(c) is None
}

/// Not empty, strictly rising along the input axis, no duty above 100.
pub open spec fn sound_curve(points: Seq<CurvePoint>) -> bool {
    &&& points.len() > 0
    &&& forall|i: int|
        #![trigger points[i]]
        1 <= i < points.len() ==> points[i - 1].temp@.below(points[i].temp@)
    &&& forall|i: int| 0 <= i < points.len() ==> (#[trigger] points[i]).duty <= 100
}

pub proof fn lemma_no_excess(duties: Seq<u8>, n: int)
    requires
        validation::excess(duties) is None,
        0 <= n <= duties.len(),
    ensures
        forall|k: int| 0 <= k < n ==> #[trigger] duties[k] <= 100,
    decreases n,
{
    if n > 0 {
        lemma_no_excess(duties, n - 1);
        if duties[n - 1] > 100 {
            assert(validation::first_excess(duties, n - 1));
        }
    }
}

/// The checks on a curve let exactly the sound ones through.
pub proof fn law_curve_check_is_exact(name: CurveName, points: Seq<CurvePoint>)
    ensures
        validation::curve_error(name, points) is None <==> sound_curve(points),
{
    let duties = validation::curve_duties(points);
    if validation::curve_error(name, points) is None {
        lemma_no_excess(duties, duties.len() as int);
        assert forall|i: int| 0 <= i < points.len() implies (#[trigger] points[i]).duty <= 100 by {
            assert(duties[i] <= 100);
        }
    }
    if sound_curve(points) {
        if exists|i: int| validation::first_excess(duties, i) {
            let i = choose|i: int| validation::first_excess(duties, i);
            assert(validation::first_excess(duties, i));
            assert(points[i].duty <= 100);
        }
    }
}

proof fn lemma_curve_rises(points: Seq<CurvePoint>, a: int, b: int)
    requires
        sound_curve(points),
        0 <= a < b < points.len(),
    ensures
        points[a].temp@.below(points[b].temp@),
    decreases b - a,
{
    assert(points[b - 1].temp@.below(points[b].temp@));
    if a < b - 1 {
        lemma_curve_rises(points, a, b - 1);
    }
}

/// An accepted curve with finite temperatures, no two neighbours of which are
/// too far apart to be subtracted, is a proper one: it passes through its
/// points and follows the line between them.
pub proof fn law_accepted_curve_is_proper(c: Config)
    requires
        accepted(c),
        forall|i: int| 0 <= i < c.curve@.len() ==> (#[trigger] c.curve@[i]).temp@ is Finite,
        forall|i: int, j: int|
            0 <= i && j == i + 1 && j < c.curve@.len() ==> (
            #[trigger] c.curve@[j]).temp@.difference((#[trigger] c.curve@[i]).temp@) is Finite,
    ensures
        curve_laws::proper_curve(c.curve@),
{
    law_curve_check_is_exact(CurveName::Top, c.curve@);
    assert forall|i: int, j: int| 0 <= i < j < c.curve@.len() implies (
    #[trigger] c.curve@[i]).temp@.below((#[trigger] c.curve@[j]).temp@) by {
        lemma_curve_rises(c.curve@, i, j);
    }
}

/// With an accepted configuration, the curve asks for a percentage whatever the
/// temperature.
pub proof fn law_accepted_curve_gives_percent(c: Config, t: Number)
    requires
        accepted(c),
    ensures
        curve::interpolated(c.curve@, t) <= 100,
        c.fallback_duty <= 100,
{
    law_curve_check_is_exact(CurveName::Top, c.curve@);
    curve_laws::law_interpolate_at_most(c.curve@, t, 100);
}

proof fn lemma_channels_in_range(channels: Seq<u8>, n: int)
    requires
        validation::channels_error(channels) is None,
        0 <= n <= channels.len(),
    ensures
        forall|k: int| 0 <= k < n ==> 1 <= #[trigger] channels[k] <= 4,
    decreases n,
{
    if n > 0 {
        lemma_channels_in_range(channels, n - 1);
        if !(1 <= channels[n - 1] <= 4) {
            assert(validation::first_bad_channel(channels, n - 1));
        }
    }
}

proof fn lemma_fans_sound(entries: Seq<(Seq<char>, u8)>, channels: Seq<u8>, i: int, k: int)
    requires
        validation::fans_error(entries, channels, i) is None,
        0 <= i <= k < entries.len(),
    ensures
        validation::fan_error(entries[k].0, entries[k].1, channels, k as usize) is None,
    decreases k - i,
{
    if i < k {
        lemma_fans_sound(entries, channels, i + 1, k);
    }
}

/// Every entry of `rgb.fans` that is accepted takes effect: it names one of the
/// channels, and it is the number of fans that is declared for it.
pub proof fn law_fan_entries_take_effect(c: Config, i: int)
    requires
        accepted(c),
        c.rgb.enabled,
        c.rgb.fans.wf(),
        0 <= i < c.rgb.fans.entries().len(),
    ensures
        exists|channel: u8|
            c.channels@.contains(channel) && c.rgb.fans.entries()[i].0 == text::decimal_text(
                channel as nat,
            ) && c.rgb.fans_on(channel) == c.rgb.fans.entries()[i].1,
{
    let entries = c.rgb.fans.entries();
    lemma_fans_sound(entries, c.channels@, 0, i);
    c.rgb.fans.lemma_entry(i);
    let channel = text::byte_denoted(entries[i].0)->0;
    assert(c.channels@.contains(channel));
}

/// With an accepted configuration, every declared chain has one to six fans.
pub proof fn law_declared_fans_in_range(c: Config, channel: u8)
    requires
        accepted(c),
        c.rgb.enabled,
        c.rgb.fans.wf(),
    ensures
        1 <= c.rgb.fans_on(channel) <= 6,
{
    let key = text::decimal_text(channel as nat);
    if c.rgb.fans@.contains_key(key) {
        let i = choose|i: int| c.rgb.fans.at(key, i);
        assert(c.rgb.fans.at(key, i));
        lemma_fans_sound(c.rgb.fans.entries(), c.channels@, 0, i);
        c.rgb.fans.lemma_entry(i);
    }
}

/// With an accepted configuration, every channel can be set up, driven and, if
/// the LEDs are on, lit.
pub proof fn law_accepted_channels_are_addressable(c: Config, i: int)
    requires
        accepted(c),
        c.rgb.fans.wf(),
        0 <= i < c.channels@.len(),
    ensures
        1 <= c.channels@[i] <= 4,
        c.rgb.enabled ==> hid::led_addressable(c.channels@[i], c.rgb.fans_on(c.channels@[i])),
{
    lemma_channels_in_range(c.channels@, c.channels@.len() as int);
    if c.rgb.enabled {
        law_declared_fans_in_range(c, c.channels@[i]);
    }
}

/// The checks on the stops let through gradients that are not empty, rise
/// strictly and end at or below 100.
pub proof fn law_accepted_stops(c: Config)
    requires
        accepted(c),
        c.rgb.enabled,
    ensures
        c.rgb.stops@.len() > 0,
        c.rgb.buckets >= 2,
        forall|i: int|
            #![trigger c.rgb.stops@[i]]
            1 <= i < c.rgb.stops@.len() ==> c.rgb.stops@[i].duty > c.rgb.stops@[i - 1].duty,
        forall|i: int| 0 <= i < c.rgb.stops@.len() ==> (#[trigger] c.rgb.stops@[i]).duty <= 100,
{
    let stops = c.rgb.stops@;
    let duties = validation::stop_duties(stops);
    lemma_no_excess(duties, duties.len() as int);
    assert forall|i: int| 0 <= i < stops.len() implies (#[trigger] stops[i]).duty <= 100 by {
        assert(duties[i] <= 100);
    }
}

/// What a switched-off section holds is not looked at.
pub proof fn law_disabled_sections_are_ignored(c: Config, rgb: RgbConfig, signals: SignalsConfig)
    ensures
        !c.rgb.enabled && !rgb.enabled ==> validation::config_error((Config { rgb, ..c }))
            == validation::config_error(c),
        !c.signals.enabled && !signals.enabled ==> validation::config_error(
            (Config { signals, ..c }),
        ) == validation::config_error(c),
{
}

/// What a switched-off signal holds is not looked at.
pub proof fn law_disabled_signals_are_ignored(a: SignalsConfig, b: SignalsConfig)
    requires
        a.gpu_temp.enabled == b.gpu_temp.enabled,
        a.gpu_temp.enabled ==> a.gpu_temp == b.gpu_temp,
        a.cpu_temp.enabled == b.cpu_temp.enabled,
        a.cpu_temp.enabled ==> a.cpu_temp == b.cpu_temp,
        a.gpu_power.enabled == b.gpu_power.enabled,
        a.gpu_power.enabled ==> a.gpu_power == b.gpu_power,
        a.thermal_margin.enabled == b.thermal_margin.enabled,
        a.thermal_margin.enabled ==> a.thermal_margin == b.thermal_margin,
        a.mem_temp.enabled == b.mem_temp.enabled,
        a.mem_temp.enabled ==> a.mem_temp == b.mem_temp,
        a.throttle.enabled == b.throttle.enabled,
        a.throttle.enabled ==> a.throttle == b.throttle,
    ensures
        validation::signals_error(a) == validation::signals_error(b),
{
}

/// The default LED section is accepted once it is switched on, with or without
/// the alarm ladder.
pub proof fn law_default_leds_are_accepted(rgb: RgbConfig, channels: Seq<u8>)
    requires
        (RgbConfig {
            enabled: false,
            alerts: AlertsConfig { enabled: false, ..rgb.alerts },
            ..rgb
        }).is_default(),
    ensures
        validation::rgb_error(rgb, channels) is None,
{
    let stops = rgb.stops@;
    let duties = validation::stop_duties(stops);
    assert(!validation::stops_step_back(stops));
    assert(validation::excess(duties) is None) by {
        if exists|i: int| validation::first_excess(duties, i) {
            let i = choose|i: int| validation::first_excess(duties, i);
            assert(validation::first_excess(duties, i));
        }
    }
    binary64::lemma_whole_exact(0);
    binary64::lemma_whole_exact(3);
}

/// The default signal section is accepted once it is switched on.
pub proof fn law_default_signals_are_accepted(s: SignalsConfig)
    requires
        (SignalsConfig { enabled: false, ..s }).is_default(),
    ensures
        validation::signals_error(s) is None,
{
    binary64::lemma_whole_exact(0);
    binary64::lemma_whole_exact(1);
    binary64::lemma_whole_exact(10);
    vstd::arithmetic::power2::lemma_pow2_pos(1074);
}

} // verus!
