//! Which configurations are accepted, and what is said of the others.

use crate::binary64;
use crate::binary64::{Binary64, Number};
use crate::config::{
    AlertsConfig, Config, CurvePoint, PowerUnit, RgbConfig, SignalsConfig, ThrottleConfig,
};
use crate::rgb::ColorStop;
use crate::text;
use crate::text::{decimal, parse_byte, same_text};
use vstd::prelude::*;

verus! {

/// Which curve of the configuration.
#[derive(Debug, Clone, Copy, PartialEq, Eq, Structural)]
pub enum CurveName {
    Top,
    GpuTemp,
    CpuTemp,
    Power,
    Margin,
    MemTemp,
}

/// Which smoothing constant of the configuration.
#[derive(Debug, Clone, Copy, PartialEq, Eq, Structural)]
pub enum AlphaName {
    GpuTemp,
    CpuTemp,
    PowerRise,
    PowerFall,
    Margin,
    MemTemp,
}

/// Why a configuration is refused.
#[derive(Debug, Clone, Copy, PartialEq)]
pub enum ConfigError {
    CurveEmpty { name: CurveName },
    CurveNotIncreasing { name: CurveName },
    CurveDuty { name: CurveName, duty: u8 },
    FallbackDuty,
    NoChannels,
    Channel { channel: u8 },
    MaxStep,
    PollInterval,
    Hysteresis,
    CpuOffset,
    NoStops,
    StopsNotIncreasing,
    StopDuty { duty: u8 },
    FansPerChannel { fans: u8 },
    /// The key of an entry of `rgb.fans`, counted in the order of the keys, is
    /// no number.
    FansKeyInvalid { entry: usize },
    /// The key of an entry of `rgb.fans` is a number, but not written plainly.
    FansKeyNotCanonical { entry: usize, channel: u8 },
    FansKeyUnconfigured { channel: u8 },
    FansValue { channel: u8, fans: u8 },
    Buckets,
    Brightness { brightness: u8 },
    SustainedAfter,
    EscalateEvery,
    Cooldown,
    NearLimitMargin,
    NoSubSignal,
    Alpha { which: AlphaName, alpha: Binary64 },
    SignalsCpuOffset,
    PercentCurve,
    FloorDuty { duty: u8 },
    NoReasons,
    HoldSecs { secs: u64 },
}

impl ConfigError {
    /// Whether the entry of `rgb.fans` that the error speaks of, if any, is one
    /// of `c`.
    pub open spec fn speaks_of(self, c: Config) -> bool {
        match self {
            ConfigError::FansKeyInvalid { entry } => entry < c.rgb.fans.entries().len(),
            ConfigError::FansKeyNotCanonical { entry, .. } => entry < c.rgb.fans.entries().len(),
            _ => true,
        }
    }
}

/// Whether some point does not lie to the right of the one before it. What is
/// not a number lies to the right of nothing, and nothing to the right of it.
pub open spec fn steps_back(points: Seq<CurvePoint>) -> bool {
    exists|i: int|
        #![trigger points[i]]
        1 <= i < points.len() && !points[i - 1].temp@.below(points[i].temp@)
}

/// Whether the duty at `i` is the first one above 100.
pub open spec fn first_excess(duties: Seq<u8>, i: int) -> bool {
    0 <= i < duties.len() && duties[i] > 100 && forall|k: int|
        0 <= k < i ==> #[trigger] duties[k] <= 100
}

/// The first duty above 100.
pub open spec fn excess(duties: Seq<u8>) -> Option<u8> {
    if exists|i: int| first_excess(duties, i) {
        Some(duties[choose|i: int| first_excess(duties, i)])
    } else {
        None
    }
}

/// The duties of a curve.
pub open spec fn curve_duties(points: Seq<CurvePoint>) -> Seq<u8> {
    Seq::new(points.len(), |i: int| points[i].duty)
}

/// The duties of a gradient.
pub open spec fn stop_duties(stops: Seq<ColorStop>) -> Seq<u8> {
    Seq::new(stops.len(), |i: int| stops[i].duty)
}

proof fn lemma_excess(duties: Seq<u8>, n: int)
    requires
        0 <= n <= duties.len(),
        forall|k: int| 0 <= k < n ==> #[trigger] duties[k] <= 100,
        n < duties.len() ==> duties[n] > 100,
    ensures
        excess(duties) == if n < duties.len() {
            Some(duties[n])
        } else {
            None
        },
{
    if n < duties.len() {
        assert(first_excess(duties, n));
        let i = choose|i: int| first_excess(duties, i);
        assert(first_excess(duties, i));
        assert(i == n);
    } else if exists|i: int| first_excess(duties, i) {
        let i = choose|i: int| first_excess(duties, i);
        assert(first_excess(duties, i));
        assert(false);
    }
}

/// What is wrong with a curve: it has no point, its points do not go to the
/// right, or a duty is above 100.
pub open spec fn curve_error(name: CurveName, points: Seq<CurvePoint>) -> Option<ConfigError> {
    if points.len() == 0 {
        Some(ConfigError::CurveEmpty { name })
    } else if steps_back(points) {
        Some(ConfigError::CurveNotIncreasing { name })
    } else {
        match excess(curve_duties(points)) {
            Some(duty) => Some(ConfigError::CurveDuty { name, duty }),
            None => None,
        }
    }
}

/// The outcome of a check, as an error or none.
pub open spec fn refusal(r: Result<(), ConfigError>) -> Option<ConfigError> {
    match r {
        Ok(_) => None,
        Err(e) => Some(e),
    }
}

/// The first of two errors.
pub open spec fn first_of(a: Option<ConfigError>, b: Option<ConfigError>) -> Option<ConfigError> {
    if a is Some {
        a
    } else {
        b
    }
}

/// An error if something is wrong.
pub open spec fn unless(ok: bool, e: ConfigError) -> Option<ConfigError> {
    if ok {
        None
    } else {
        Some(e)
    }
}

/// Checks a curve.
pub fn validate_curve(name: CurveName, points: &[CurvePoint]) -> (r: Result<(), ConfigError>)
    ensures
        refusal(r) == curve_error(name, points@),
{
    if points.len() == 0 {
        return Err(ConfigError::CurveEmpty { name });
    }
    let mut i: usize = 1;
    while i < points.len()
        invariant
            1 <= i <= points@.len(),
            forall|k: int|
                #![trigger points@[k]]
                1 <= k < i ==> points@[k - 1].temp@.below(points@[k].temp@),
        decreases points@.len() - i,
    {
        if !points[i - 1].temp.lt(points[i].temp) {
            assert(!points@[i - 1].temp@.below(points@[i as int].temp@));
            return Err(ConfigError::CurveNotIncreasing { name });
        }
        i = i + 1;
    }
    let mut j: usize = 0;
    while j < points.len()
        invariant
            points@.len() > 0,
            !steps_back(points@),
            j <= points@.len(),
            forall|k: int| 0 <= k < j ==> #[trigger] curve_duties(points@)[k] <= 100,
        decreases points@.len() - j,
    {
        if points[j].duty > 100 {
            proof {
                lemma_excess(curve_duties(points@), j as int);
            }
            return Err(ConfigError::CurveDuty { name, duty: points[j].duty });
        }
        j = j + 1;
    }
    proof {
        lemma_excess(curve_duties(points@), j as int);
    }
    Ok(())
}

/// Whether the channel at `i` is the first one out of range.
pub open spec fn first_bad_channel(channels: Seq<u8>, i: int) -> bool {
    0 <= i < channels.len() && !(1 <= channels[i] <= 4) && forall|k: int|
        0 <= k < i ==> 1 <= #[trigger] channels[k] <= 4
}

/// What is wrong with the list of channels.
pub open spec fn channels_error(channels: Seq<u8>) -> Option<ConfigError> {
    if channels.len() == 0 {
        Some(ConfigError::NoChannels)
    } else if exists|i: int| first_bad_channel(channels, i) {
        Some(
            ConfigError::Channel {
                channel: channels[choose|i: int| first_bad_channel(channels, i)],
            },
        )
    } else {
        None
    }
}

fn validate_channels(channels: &Vec<u8>) -> (r: Result<(), ConfigError>)
    ensures
        refusal(r) == channels_error(channels@),
{
    if channels.len() == 0 {
        return Err(ConfigError::NoChannels);
    }
    let mut i: usize = 0;
    while i < channels.len()
        invariant
            channels@.len() > 0,
            i <= channels@.len(),
            forall|k: int| 0 <= k < i ==> 1 <= #[trigger] channels@[k] <= 4,
        decreases channels@.len() - i,
    {
        let c: u8 = channels[i];
        if c < 1 || c > 4 {
            proof {
                assert(first_bad_channel(channels@, i as int));
                let j = choose|j: int| first_bad_channel(channels@, j);
                assert(first_bad_channel(channels@, j));
                assert(i == j);
            }
            return Err(ConfigError::Channel { channel: c });
        }
        i = i + 1;
    }
    Ok(())
}

/// What is wrong with the fans, the curve and the timing.
pub open spec fn base_error(c: Config) -> Option<ConfigError> {
    first_of(
        curve_error(CurveName::Top, c.curve@),
        first_of(
            unless(c.fallback_duty <= 100, ConfigError::FallbackDuty),
            first_of(
                channels_error(c.channels@),
                first_of(
                    unless(c.max_step_per_tick != 0, ConfigError::MaxStep),
                    first_of(
                        unless(c.poll_interval_secs != 0, ConfigError::PollInterval),
                        first_of(
                            unless(
                                !c.hysteresis_c@.below(binary64::whole(0)),
                                ConfigError::Hysteresis,
                            ),
                            unless(
                                !c.cpu_offset@.below(binary64::whole(0)),
                                ConfigError::CpuOffset,
                            ),
                        ),
                    ),
                ),
            ),
        ),
    )
}

fn validate_base(c: &Config) -> (r: Result<(), ConfigError>)
    ensures
        refusal(r) == base_error(*c),
{
    let zero: Binary64 = Binary64::from_u64(0);
    match validate_curve(CurveName::Top, c.curve.as_slice()) {
        Ok(_) => {},
        Err(e) => {
            return Err(e);
        },
    }
    if c.fallback_duty > 100 {
        return Err(ConfigError::FallbackDuty);
    }
    match validate_channels(&c.channels) {
        Ok(_) => {},
        Err(e) => {
            return Err(e);
        },
    }
    if c.max_step_per_tick == 0 {
        return Err(ConfigError::MaxStep);
    }
    if c.poll_interval_secs == 0 {
        return Err(ConfigError::PollInterval);
    }
    if c.hysteresis_c.lt(zero) {
        return Err(ConfigError::Hysteresis);
    }
    if c.cpu_offset.lt(zero) {
        return Err(ConfigError::CpuOffset);
    }
    Ok(())
}

/// Whether some stop does not lie above the one before it.
pub open spec fn stops_step_back(stops: Seq<ColorStop>) -> bool {
    exists|i: int|
        #![trigger stops[i]]
        1 <= i < stops.len() && stops[i].duty <= stops[i - 1].duty
}

/// What is wrong with the stops of the gradient.
pub open spec fn stops_error(stops: Seq<ColorStop>) -> Option<ConfigError> {
    if stops.len() == 0 {
        Some(ConfigError::NoStops)
    } else if stops_step_back(stops) {
        Some(ConfigError::StopsNotIncreasing)
    } else {
        match excess(stop_duties(stops)) {
            Some(duty) => Some(ConfigError::StopDuty { duty }),
            None => None,
        }
    }
}

fn validate_stops(stops: &Vec<ColorStop>) -> (r: Result<(), ConfigError>)
    ensures
        refusal(r) == stops_error(stops@),
{
    if stops.len() == 0 {
        return Err(ConfigError::NoStops);
    }
    let mut i: usize = 1;
    while i < stops.len()
        invariant
            1 <= i <= stops@.len(),
            forall|k: int|
                #![trigger stops@[k]]
                1 <= k < i ==> stops@[k].duty > stops@[k - 1].duty,
        decreases stops@.len() - i,
    {
        if stops[i].duty <= stops[i - 1].duty {
            assert(stops@[i as int].duty <= stops@[i - 1].duty);
            return Err(ConfigError::StopsNotIncreasing);
        }
        i = i + 1;
    }
    let mut j: usize = 0;
    while j < stops.len()
        invariant
            stops@.len() > 0,
            !stops_step_back(stops@),
            j <= stops@.len(),
            forall|k: int| 0 <= k < j ==> #[trigger] stop_duties(stops@)[k] <= 100,
        decreases stops@.len() - j,
    {
        if stops[j].duty > 100 {
            proof {
                lemma_excess(stop_duties(stops@), j as int);
            }
            return Err(ConfigError::StopDuty { duty: stops[j].duty });
        }
        j = j + 1;
    }
    proof {
        lemma_excess(stop_duties(stops@), j as int);
    }
    Ok(())
}

/// What is wrong with the entry `entry` of `rgb.fans`: its key is not the plain
/// number of a configured channel, or its value not a chain length.
pub open spec fn fan_error(
    key: Seq<char>,
    fans: u8,
    channels: Seq<u8>,
    entry: usize,
) -> Option<ConfigError> {
    match text::byte_denoted(key) {
        None => Some(ConfigError::FansKeyInvalid { entry }),
        Some(channel) => if key != text::decimal_text(channel as nat) {
            Some(ConfigError::FansKeyNotCanonical { entry, channel })
        } else if !channels.contains(channel) {
            Some(ConfigError::FansKeyUnconfigured { channel })
        } else if !(1 <= fans <= 6) {
            Some(ConfigError::FansValue { channel, fans })
        } else {
            None
        },
    }
}

/// What is wrong with the first bad entry from `i` on.
pub open spec fn fans_error(
    entries: Seq<(Seq<char>, u8)>,
    channels: Seq<u8>,
    i: int,
) -> Option<ConfigError>
    decreases entries.len() - i,
{
    if i >= entries.len() {
        None
    } else {
        first_of(
            fan_error(entries[i].0, entries[i].1, channels, i as usize),
            fans_error(entries, channels, i + 1),
        )
    }
}

fn contains_channel(channels: &Vec<u8>, c: u8) -> (b: bool)
    ensures
        b == channels@.contains(c),
{
    let mut i: usize = 0;
    while i < channels.len()
        invariant
            i <= channels@.len(),
            forall|k: int| 0 <= k < i ==> channels@[k] != c,
        decreases channels@.len() - i,
    {
        if channels[i] == c {
            assert(channels@[i as int] == c);
            return true;
        }
        i = i + 1;
    }
    false
}

fn validate_fan(key: &str, fans: u8, channels: &Vec<u8>, entry: usize) -> (r: Result<
    (),
    ConfigError,
>)
    ensures
        refusal(r) == fan_error(key@, fans, channels@, entry),
{
    match parse_byte(key) {
        None => Err(ConfigError::FansKeyInvalid { entry }),
        Some(channel) => {
            if !same_text(key, decimal(channel as u64).as_str()) {
                Err(ConfigError::FansKeyNotCanonical { entry, channel })
            } else if !contains_channel(channels, channel) {
                Err(ConfigError::FansKeyUnconfigured { channel })
            } else if fans < 1 || fans > 6 {
                Err(ConfigError::FansValue { channel, fans })
            } else {
                Ok(())
            }
        },
    }
}

fn validate_fans(rgb: &RgbConfig, channels: &Vec<u8>) -> (r: Result<(), ConfigError>)
    requires
        rgb.fans.wf(),
    ensures
        refusal(r) == fans_error(rgb.fans.entries(), channels@, 0),
        r matches Err(e) ==> forall|c: Config|
            c.rgb.fans == rgb.fans ==> #[trigger] e.speaks_of(c),
{
    let mut i: usize = 0;
    while i < rgb.fans.len()
        invariant
            rgb.fans.wf(),
            i <= rgb.fans.entries().len(),
            fans_error(rgb.fans.entries(), channels@, 0) == fans_error(
                rgb.fans.entries(),
                channels@,
                i as int,
            ),
        decreases rgb.fans.entries().len() - i,
    {
        match validate_fan(rgb.fans.key_at(i).as_str(), *rgb.fans.value_at(i), channels, i) {
            Ok(_) => {},
            Err(e) => {
                return Err(e);
            },
        }
        i = i + 1;
    }
    Ok(())
}

/// What is wrong with the alarm ladder.
pub open spec fn alerts_error(a: AlertsConfig) -> Option<ConfigError> {
    first_of(
        unless(a.sustained_after_secs >= 1, ConfigError::SustainedAfter),
        first_of(
            unless(a.escalate_every_secs >= 1, ConfigError::EscalateEvery),
            first_of(
                unless(a.cooldown_secs >= 1, ConfigError::Cooldown),
                unless(
                    !a.near_limit_margin_c@.below(binary64::whole(0)),
                    ConfigError::NearLimitMargin,
                ),
            ),
        ),
    )
}

fn validate_alerts(a: &AlertsConfig) -> (r: Result<(), ConfigError>)
    ensures
        refusal(r) == alerts_error(*a),
{
    if a.sustained_after_secs < 1 {
        return Err(ConfigError::SustainedAfter);
    }
    if a.escalate_every_secs < 1 {
        return Err(ConfigError::EscalateEvery);
    }
    if a.cooldown_secs < 1 {
        return Err(ConfigError::Cooldown);
    }
    if a.near_limit_margin_c.lt(Binary64::from_u64(0)) {
        return Err(ConfigError::NearLimitMargin);
    }
    Ok(())
}

/// What is wrong with the LEDs.
pub open spec fn rgb_error(rgb: RgbConfig, channels: Seq<u8>) -> Option<ConfigError> {
    first_of(
        stops_error(rgb.stops@),
        first_of(
            unless(
                1 <= rgb.fans_per_channel <= 6,
                ConfigError::FansPerChannel { fans: rgb.fans_per_channel },
            ),
            first_of(
                fans_error(rgb.fans.entries(), channels, 0),
                first_of(
                    unless(rgb.buckets >= 2, ConfigError::Buckets),
                    first_of(
                        unless(
                            rgb.brightness <= 8,
                            ConfigError::Brightness { brightness: rgb.brightness },
                        ),
                        if rgb.alerts.enabled {
                            alerts_error(rgb.alerts)
                        } else {
                            None
                        },
                    ),
                ),
            ),
        ),
    )
}

fn validate_rgb(rgb: &RgbConfig, channels: &Vec<u8>) -> (r: Result<(), ConfigError>)
    requires
        rgb.fans.wf(),
    ensures
        refusal(r) == rgb_error(*rgb, channels@),
        r matches Err(e) ==> forall|c: Config|
            c.rgb.fans == rgb.fans ==> #[trigger] e.speaks_of(c),
{
    match validate_stops(&rgb.stops) {
        Ok(_) => {},
        Err(e) => {
            return Err(e);
        },
    }
    if rgb.fans_per_channel < 1 || rgb.fans_per_channel > 6 {
        return Err(ConfigError::FansPerChannel { fans: rgb.fans_per_channel });
    }
    match validate_fans(rgb, channels) {
        Ok(_) => {},
        Err(e) => {
            return Err(e);
        },
    }
    if rgb.buckets < 2 {
        return Err(ConfigError::Buckets);
    }
    if rgb.brightness > 8 {
        return Err(ConfigError::Brightness { brightness: rgb.brightness });
    }
    if rgb.alerts.enabled {
        return validate_alerts(&rgb.alerts);
    }
    Ok(())
}

/// Above zero and at most one.
pub open spec fn smoothing(alpha: Number) -> bool {
    binary64::whole(0).below(alpha) && alpha.at_most(binary64::whole(1))
}

/// What is wrong with a smoothing constant.
pub open spec fn alpha_error(name: AlphaName, alpha: Binary64) -> Option<ConfigError> {
    unless(smoothing(alpha@), ConfigError::Alpha { which: name, alpha })
}

fn validate_alpha(name: AlphaName, alpha: Binary64) -> (r: Result<(), ConfigError>)
    ensures
        refusal(r) == alpha_error(name, alpha),
{
    if Binary64::from_u64(0).lt(alpha) && alpha.le(Binary64::from_u64(1)) {
        Ok(())
    } else {
        Err(ConfigError::Alpha { which: name, alpha })
    }
}

/// What is wrong with a curve that may be left out.
pub open spec fn optional_curve_error(name: CurveName, points: Seq<CurvePoint>) -> Option<
    ConfigError,
> {
    if points.len() == 0 {
        None
    } else {
        curve_error(name, points)
    }
}

fn validate_optional_curve(name: CurveName, points: &Vec<CurvePoint>) -> (r: Result<
    (),
    ConfigError,
>)
    ensures
        refusal(r) == optional_curve_error(name, points@),
{
    if points.len() == 0 {
        Ok(())
    } else {
        validate_curve(name, points.as_slice())
    }
}

/// Whether some point lies above 200 on the input axis.
pub open spec fn above_200(points: Seq<CurvePoint>) -> bool {
    exists|i: int|
        0 <= i < points.len() && binary64::whole(200).below((#[trigger] points[i]).temp@)
}

fn any_above_200(points: &Vec<CurvePoint>) -> (b: bool)
    ensures
        b == above_200(points@),
{
    let limit: Binary64 = Binary64::from_u64(200);
    let mut i: usize = 0;
    while i < points.len()
        invariant
            limit@ == binary64::whole(200),
            i <= points@.len(),
            forall|k: int| 0 <= k < i ==> !limit@.below((#[trigger] points@[k]).temp@),
        decreases points@.len() - i,
    {
        if limit.lt(points[i].temp) {
            assert(limit@.below(points@[i as int].temp@));
            return true;
        }
        i = i + 1;
    }
    false
}

/// What is wrong with the GPU and CPU temperature signals.
pub open spec fn temps_error(s: SignalsConfig) -> Option<ConfigError> {
    first_of(
        if s.gpu_temp.enabled {
            first_of(
                optional_curve_error(CurveName::GpuTemp, s.gpu_temp.curve@),
                alpha_error(AlphaName::GpuTemp, s.gpu_temp.alpha),
            )
        } else {
            None
        },
        if s.cpu_temp.enabled {
            first_of(
                optional_curve_error(CurveName::CpuTemp, s.cpu_temp.curve@),
                first_of(
                    alpha_error(AlphaName::CpuTemp, s.cpu_temp.alpha),
                    unless(
                        !s.cpu_temp.offset_c@.below(binary64::whole(0)),
                        ConfigError::SignalsCpuOffset,
                    ),
                ),
            )
        } else {
            None
        },
    )
}

fn validate_temps(s: &SignalsConfig) -> (r: Result<(), ConfigError>)
    ensures
        refusal(r) == temps_error(*s),
{
    if s.gpu_temp.enabled {
        match validate_optional_curve(CurveName::GpuTemp, &s.gpu_temp.curve) {
            Ok(_) => {},
            Err(e) => {
                return Err(e);
            },
        }
        match validate_alpha(AlphaName::GpuTemp, s.gpu_temp.alpha) {
            Ok(_) => {},
            Err(e) => {
                return Err(e);
            },
        }
    }
    if s.cpu_temp.enabled {
        match validate_optional_curve(CurveName::CpuTemp, &s.cpu_temp.curve) {
            Ok(_) => {},
            Err(e) => {
                return Err(e);
            },
        }
        match validate_alpha(AlphaName::CpuTemp, s.cpu_temp.alpha) {
            Ok(_) => {},
            Err(e) => {
                return Err(e);
            },
        }
        if s.cpu_temp.offset_c.lt(Binary64::from_u64(0)) {
            return Err(ConfigError::SignalsCpuOffset);
        }
    }
    Ok(())
}

/// What is wrong with the power signal. It has no top curve to fall back to.
pub open spec fn power_error(s: SignalsConfig) -> Option<ConfigError> {
    if s.gpu_power.enabled {
        first_of(
            curve_error(CurveName::Power, s.gpu_power.curve@),
            first_of(
                alpha_error(AlphaName::PowerRise, s.gpu_power.rise_alpha),
                first_of(
                    alpha_error(AlphaName::PowerFall, s.gpu_power.fall_alpha),
                    unless(
                        !(s.gpu_power.unit == PowerUnit::PercentTdp && above_200(
                            s.gpu_power.curve@,
                        )),
                        ConfigError::PercentCurve,
                    ),
                ),
            ),
        )
    } else {
        None
    }
}

fn validate_power(s: &SignalsConfig) -> (r: Result<(), ConfigError>)
    ensures
        refusal(r) == power_error(*s),
{
    if s.gpu_power.enabled {
        match validate_curve(CurveName::Power, s.gpu_power.curve.as_slice()) {
            Ok(_) => {},
            Err(e) => {
                return Err(e);
            },
        }
        match validate_alpha(AlphaName::PowerRise, s.gpu_power.rise_alpha) {
            Ok(_) => {},
            Err(e) => {
                return Err(e);
            },
        }
        match validate_alpha(AlphaName::PowerFall, s.gpu_power.fall_alpha) {
            Ok(_) => {},
            Err(e) => {
                return Err(e);
            },
        }
        if s.gpu_power.unit == PowerUnit::PercentTdp && any_above_200(&s.gpu_power.curve) {
            return Err(ConfigError::PercentCurve);
        }
    }
    Ok(())
}

/// What is wrong with the margin and memory signals. Neither has a top curve
/// to fall back to.
pub open spec fn limits_error(s: SignalsConfig) -> Option<ConfigError> {
    first_of(
        if s.thermal_margin.enabled {
            first_of(
                curve_error(CurveName::Margin, s.thermal_margin.curve@),
                alpha_error(AlphaName::Margin, s.thermal_margin.alpha),
            )
        } else {
            None
        },
        if s.mem_temp.enabled {
            first_of(
                curve_error(CurveName::MemTemp, s.mem_temp.curve@),
                alpha_error(AlphaName::MemTemp, s.mem_temp.alpha),
            )
        } else {
            None
        },
    )
}

fn validate_limits(s: &SignalsConfig) -> (r: Result<(), ConfigError>)
    ensures
        refusal(r) == limits_error(*s),
{
    if s.thermal_margin.enabled {
        match validate_curve(CurveName::Margin, s.thermal_margin.curve.as_slice()) {
            Ok(_) => {},
            Err(e) => {
                return Err(e);
            },
        }
        match validate_alpha(AlphaName::Margin, s.thermal_margin.alpha) {
            Ok(_) => {},
            Err(e) => {
                return Err(e);
            },
        }
    }
    if s.mem_temp.enabled {
        match validate_curve(CurveName::MemTemp, s.mem_temp.curve.as_slice()) {
            Ok(_) => {},
            Err(e) => {
                return Err(e);
            },
        }
        match validate_alpha(AlphaName::MemTemp, s.mem_temp.alpha) {
            Ok(_) => {},
            Err(e) => {
                return Err(e);
            },
        }
    }
    Ok(())
}

/// What is wrong with the throttle floor.
pub open spec fn throttle_error(t: ThrottleConfig) -> Option<ConfigError> {
    if t.enabled {
        first_of(
            unless(t.floor_duty <= 100, ConfigError::FloorDuty { duty: t.floor_duty }),
            first_of(
                unless(t.reasons@.len() > 0, ConfigError::NoReasons),
                unless(t.hold_secs <= 3600, ConfigError::HoldSecs { secs: t.hold_secs }),
            ),
        )
    } else {
        None
    }
}

fn validate_throttle(t: &ThrottleConfig) -> (r: Result<(), ConfigError>)
    ensures
        refusal(r) == throttle_error(*t),
{
    if t.enabled {
        if t.floor_duty > 100 {
            return Err(ConfigError::FloorDuty { duty: t.floor_duty });
        }
        if t.reasons.len() == 0 {
            return Err(ConfigError::NoReasons);
        }
        if t.hold_secs > 3600 {
            return Err(ConfigError::HoldSecs { secs: t.hold_secs });
        }
    }
    Ok(())
}

/// Whether any signal is on.
pub open spec fn any_signal(s: SignalsConfig) -> bool {
    s.gpu_temp.enabled || s.cpu_temp.enabled || s.gpu_power.enabled || s.thermal_margin.enabled
        || s.mem_temp.enabled
}

/// What is wrong with the signals. What is switched off is not looked at.
pub open spec fn signals_error(s: SignalsConfig) -> Option<ConfigError> {
    first_of(
        unless(any_signal(s), ConfigError::NoSubSignal),
        first_of(
            temps_error(s),
            first_of(power_error(s), first_of(limits_error(s), throttle_error(s.throttle))),
        ),
    )
}

fn validate_signals(s: &SignalsConfig) -> (r: Result<(), ConfigError>)
    ensures
        refusal(r) == signals_error(*s),
{
    if !(s.gpu_temp.enabled || s.cpu_temp.enabled || s.gpu_power.enabled
        || s.thermal_margin.enabled || s.mem_temp.enabled) {
        return Err(ConfigError::NoSubSignal);
    }
    match validate_temps(s) {
        Ok(_) => {},
        Err(e) => {
            return Err(e);
        },
    }
    match validate_power(s) {
        Ok(_) => {},
        Err(e) => {
            return Err(e);
        },
    }
    match validate_limits(s) {
        Ok(_) => {},
        Err(e) => {
            return Err(e);
        },
    }
    validate_throttle(&s.throttle)
}

/// The first thing that is wrong with a configuration, if anything is.
pub open spec fn config_error(c: Config) -> Option<ConfigError> {
    first_of(
        base_error(c),
        first_of(
            if c.rgb.enabled {
                rgb_error(c.rgb, c.channels@)
            } else {
                None
            },
            if c.signals.enabled {
                signals_error(c.signals)
            } else {
                None
            },
        ),
    )
}

impl Config {
    /// Accepts the configuration, or names the first thing that is wrong with
    /// it.
    pub fn validate(&self) -> (r: Result<(), ConfigError>)
        requires
            self.rgb.fans.wf(),
        ensures
            refusal(r) == config_error(*self),
            r matches Err(e) ==> e.speaks_of(*self),
    {
        match validate_base(self) {
            Ok(_) => {},
            Err(e) => {
                return Err(e);
            },
        }
        if self.rgb.enabled {
            match validate_rgb(&self.rgb, &self.channels) {
                Ok(_) => {},
                Err(e) => {
                    return Err(e);
                },
            }
        }
        if self.signals.enabled {
            return validate_signals(&self.signals);
        }
        Ok(())
    }
}

} // verus!
