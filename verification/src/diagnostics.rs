//! What is said of a configuration: why it is refused, and what is odd about
//! it.

use crate::config::{Config, CurvePoint, ThrottleReason};
use crate::report;
use crate::report::{Glyph, Report};
use crate::text;
use crate::text::{decimal, quoted};
use crate::validation::{AlphaName, ConfigError, CurveName};
use vstd::prelude::*;

verus! {

/// The name of a curve in the configuration file.
pub open spec fn curve_text(name: CurveName) -> Seq<char> {
    match name {
        CurveName::Top => "curve"@,
        CurveName::GpuTemp => "signals.gpu_temp.curve"@,
        CurveName::CpuTemp => "signals.cpu_temp.curve"@,
        CurveName::Power => "signals.power.curve"@,
        CurveName::Margin => "signals.margin.curve"@,
        CurveName::MemTemp => "signals.mem_temp.curve"@,
    }
}

fn curve_label(name: CurveName) -> (s: &'static str)
    ensures
        s@ == curve_text(name),
{
    match name {
        CurveName::Top => "curve",
        CurveName::GpuTemp => "signals.gpu_temp.curve",
        CurveName::CpuTemp => "signals.cpu_temp.curve",
        CurveName::Power => "signals.power.curve",
        CurveName::Margin => "signals.margin.curve",
        CurveName::MemTemp => "signals.mem_temp.curve",
    }
}

/// The name of a smoothing constant in the configuration file.
pub open spec fn alpha_text(name: AlphaName) -> Seq<char> {
    match name {
        AlphaName::GpuTemp => "signals.gpu_temp.alpha"@,
        AlphaName::CpuTemp => "signals.cpu_temp.alpha"@,
        AlphaName::PowerRise => "signals.power.rise_alpha"@,
        AlphaName::PowerFall => "signals.power.fall_alpha"@,
        AlphaName::Margin => "signals.margin.alpha"@,
        AlphaName::MemTemp => "signals.mem_temp.alpha"@,
    }
}

fn alpha_label(name: AlphaName) -> (s: &'static str)
    ensures
        s@ == alpha_text(name),
{
    match name {
        AlphaName::GpuTemp => "signals.gpu_temp.alpha",
        AlphaName::CpuTemp => "signals.cpu_temp.alpha",
        AlphaName::PowerRise => "signals.power.rise_alpha",
        AlphaName::PowerFall => "signals.power.fall_alpha",
        AlphaName::Margin => "signals.margin.alpha",
        AlphaName::MemTemp => "signals.mem_temp.alpha",
    }
}

/// Numbers one after the other, with commas between them.
pub open spec fn comma_text(v: Seq<u8>) -> Seq<char>
    decreases v.len(),
{
    if v.len() == 0 {
        ""@
    } else if v.len() == 1 {
        text::decimal_text(v[0] as nat)
    } else {
        comma_text(v.drop_last()) + ", "@ + text::decimal_text(v.last() as nat)
    }
}

/// A list of numbers in square brackets.
pub open spec fn list_text(v: Seq<u8>) -> Seq<char> {
    "["@ + comma_text(v) + "]"@
}

/// Writes a list of numbers in square brackets.
pub fn list_of(v: &Vec<u8>) -> (s: String)
    ensures
        s@ == list_text(v@),
{
    let mut s: String = "[".to_owned();
    let mut i: usize = 0;
    proof {
        reveal_strlit("");
        assert(s@ + ""@ =~= s@);
        assert(v@.take(0) =~= Seq::<u8>::empty());
    }
    while i < v.len()
        invariant
            i <= v@.len(),
            s@ == "["@ + comma_text(v@.take(i as int)),
        decreases v@.len() - i,
    {
        let ghost before = s@;
        if i > 0 {
            s.append(", ");
        }
        s.append(decimal(v[i] as u64).as_str());
        proof {
            reveal_strlit("");
            let t = v@.take(i + 1);
            assert(t.drop_last() =~= v@.take(i as int));
            assert(s@ =~= "["@ + comma_text(t));
        }
        i = i + 1;
    }
    assert(v@.take(i as int) =~= v@);
    s.append("]");
    s
}

/// The sentence for an error. `key` is the key of `rgb.fans` that it speaks
/// of, in quotes.
pub open spec fn error_text(e: ConfigError, channels: Seq<u8>, key: Seq<char>) -> Seq<Glyph> {
    match e {
        ConfigError::CurveEmpty { name } => {
            report::plain(curve_text(name))
                + report::plain(" must have at least one point"@)
        },
        ConfigError::CurveNotIncreasing { name } => {
            report::plain(curve_text(name))
                + report::plain(" temps must be strictly increasing"@)
        },
        ConfigError::CurveDuty { name, duty } => {
            report::plain(curve_text(name))
                + report::plain(" duty "@)
                + report::count(duty as nat)
                + report::plain(" exceeds 100"@)
        },
        ConfigError::FallbackDuty => report::plain("fallback_duty exceeds 100"@),
        ConfigError::NoChannels => report::plain("channels must not be empty"@),
        ConfigError::Channel { channel } => {
            report::plain("channel "@)
                + report::count(channel as nat)
                + report::plain(" out of range 1..=4"@)
        },
        ConfigError::MaxStep => {
            report::plain("max_step_per_tick must be nonzero (fans could never move)"@)
        },
        ConfigError::PollInterval => {
            report::plain("poll_interval_secs must be nonzero (busy-loop)"@)
        },
        ConfigError::Hysteresis => report::plain("hysteresis_c must not be negative"@),
        ConfigError::CpuOffset => report::plain("cpu_offset must not be negative"@),
        ConfigError::NoStops => {
            report::plain("rgb.stops must have at least one stop when rgb is enabled"@)
        },
        ConfigError::StopsNotIncreasing => {
            report::plain("rgb.stops duties must be strictly increasing"@)
        },
        ConfigError::StopDuty { duty } => {
            report::plain("rgb stop duty "@)
                + report::count(duty as nat)
                + report::plain(" exceeds 100"@)
        },
        ConfigError::FansPerChannel { fans } => {
            report::plain("rgb.fans_per_channel "@)
                + report::count(fans as nat)
                + report::plain(" out of range 1..=6"@)
        },
        ConfigError::FansKeyInvalid { .. } => {
            report::plain("rgb.fans key "@)
                + report::plain(key)
                + report::plain(" is not a valid channel number"@)
        },
        ConfigError::FansKeyNotCanonical { channel, .. } => {
            report::plain("rgb.fans key "@)
                + report::plain(key)
                + report::plain(" must be written as \""@)
                + report::count(channel as nat)
                + report::plain("\""@)
        },
        ConfigError::FansKeyUnconfigured { channel } => {
            report::plain("rgb.fans key "@)
                + report::count(channel as nat)
                + report::plain(" is not one of the configured channels "@)
                + report::plain(list_text(channels))
        },
        ConfigError::FansValue { channel, fans } => {
            report::plain("rgb.fans["@)
                + report::count(channel as nat)
                + report::plain("] = "@)
                + report::count(fans as nat)
                + report::plain(" out of range 1..=6"@)
        },
        ConfigError::Buckets => report::plain("rgb.buckets must be at least 2"@),
        ConfigError::Brightness { brightness } => {
            report::plain("rgb.brightness "@)
                + report::count(brightness as nat)
                + report::plain(" out of range 0..=8 (0 = 100%)"@)
        },
        ConfigError::SustainedAfter => {
            report::plain("rgb.alerts.sustained_after_secs must be at least 1"@)
        },
        ConfigError::EscalateEvery => {
            report::plain("rgb.alerts.escalate_every_secs must be at least 1"@)
        },
        ConfigError::Cooldown => report::plain("rgb.alerts.cooldown_secs must be at least 1"@),
        ConfigError::NearLimitMargin => {
            report::plain("rgb.alerts.near_limit_margin_c must not be negative"@)
        },
        ConfigError::NoSubSignal => {
            report::plain("signals.enabled but no sub-signal (gpu_temp/cpu_temp/power/margin/mem_temp) is enabled"@)
        },
        ConfigError::Alpha { which, alpha } => {
            report::plain(alpha_text(which))
                + report::plain(" "@)
                + report::value(alpha@)
                + report::plain(" must be in (0.0, 1.0]"@)
        },
        ConfigError::SignalsCpuOffset => {
            report::plain("signals.cpu_temp.offset_c must not be negative"@)
        },
        ConfigError::PercentCurve => {
            report::plain("signals.power.curve has a point > 200 with unit = \"percent_tdp\" \u{2014} likely a watts/percent mixup"@)
        },
        ConfigError::FloorDuty { duty } => {
            report::plain("signals.throttle.floor_duty "@)
                + report::count(duty as nat)
                + report::plain(" exceeds 100"@)
        },
        ConfigError::NoReasons => {
            report::plain("signals.throttle.reasons must not be empty when throttle is enabled"@)
        },
        ConfigError::HoldSecs { secs } => {
            report::plain("signals.throttle.hold_secs "@)
                + report::count(secs as nat)
                + report::plain(" exceeds 3600"@)
        },
    }
}

/// The key of `rgb.fans` that an error speaks of, or nothing.
pub open spec fn error_key(e: ConfigError, c: Config) -> Seq<char> {
    match e {
        ConfigError::FansKeyInvalid { entry } => c.rgb.fans.entries()[entry as int].0,
        ConfigError::FansKeyNotCanonical { entry, .. } => c.rgb.fans.entries()[entry as int].0,
        _ => ""@,
    }
}

impl ConfigError {
    /// The sentence for the error, given the key that it speaks of in quotes.
    pub fn message_with_key(&self, channels: &Vec<u8>, key: &str) -> (r: Report)
        ensures
            r@ == error_text(*self, channels@, key@),
    {
        let mut r: Report = Report::new();
        match *self {
            ConfigError::CurveEmpty { name } => {
                r.text(curve_label(name));
                r.text(" must have at least one point");
            },
            ConfigError::CurveNotIncreasing { name } => {
                r.text(curve_label(name));
                r.text(" temps must be strictly increasing");
            },
            ConfigError::CurveDuty { name, duty } => {
                r.text(curve_label(name));
                r.text(" duty ");
                r.count(duty as u64);
                r.text(" exceeds 100");
            },
            ConfigError::FallbackDuty => {
                r.text("fallback_duty exceeds 100");
            },
            ConfigError::NoChannels => {
                r.text("channels must not be empty");
            },
            ConfigError::Channel { channel } => {
                r.text("channel ");
                r.count(channel as u64);
                r.text(" out of range 1..=4");
            },
            ConfigError::MaxStep => {
                r.text("max_step_per_tick must be nonzero (fans could never move)");
            },
            ConfigError::PollInterval => {
                r.text("poll_interval_secs must be nonzero (busy-loop)");
            },
            ConfigError::Hysteresis => {
                r.text("hysteresis_c must not be negative");
            },
            ConfigError::CpuOffset => {
                r.text("cpu_offset must not be negative");
            },
            ConfigError::NoStops => {
                r.text("rgb.stops must have at least one stop when rgb is enabled");
            },
            ConfigError::StopsNotIncreasing => {
                r.text("rgb.stops duties must be strictly increasing");
            },
            ConfigError::StopDuty { duty } => {
                r.text("rgb stop duty ");
                r.count(duty as u64);
                r.text(" exceeds 100");
            },
            ConfigError::FansPerChannel { fans } => {
                r.text("rgb.fans_per_channel ");
                r.count(fans as u64);
                r.text(" out of range 1..=6");
            },
            ConfigError::FansKeyInvalid { .. } => {
                r.text("rgb.fans key ");
                r.text(key);
                r.text(" is not a valid channel number");
            },
            ConfigError::FansKeyNotCanonical { channel, .. } => {
                r.text("rgb.fans key ");
                r.text(key);
                r.text(" must be written as \"");
                r.count(channel as u64);
                r.text("\"");
            },
            ConfigError::FansKeyUnconfigured { channel } => {
                r.text("rgb.fans key ");
                r.count(channel as u64);
                r.text(" is not one of the configured channels ");
                r.text(list_of(channels).as_str());
            },
            ConfigError::FansValue { channel, fans } => {
                r.text("rgb.fans[");
                r.count(channel as u64);
                r.text("] = ");
                r.count(fans as u64);
                r.text(" out of range 1..=6");
            },
            ConfigError::Buckets => {
                r.text("rgb.buckets must be at least 2");
            },
            ConfigError::Brightness { brightness } => {
                r.text("rgb.brightness ");
                r.count(brightness as u64);
                r.text(" out of range 0..=8 (0 = 100%)");
            },
            ConfigError::SustainedAfter => {
                r.text("rgb.alerts.sustained_after_secs must be at least 1");
            },
            ConfigError::EscalateEvery => {
                r.text("rgb.alerts.escalate_every_secs must be at least 1");
            },
            ConfigError::Cooldown => {
                r.text("rgb.alerts.cooldown_secs must be at least 1");
            },
            ConfigError::NearLimitMargin => {
                r.text("rgb.alerts.near_limit_margin_c must not be negative");
            },
            ConfigError::NoSubSignal => {
                r.text("signals.enabled but no sub-signal (gpu_temp/cpu_temp/power/margin/mem_temp) is enabled");
            },
            ConfigError::Alpha { which, alpha } => {
                r.text(alpha_label(which));
                r.text(" ");
                r.value(alpha);
                r.text(" must be in (0.0, 1.0]");
            },
            ConfigError::SignalsCpuOffset => {
                r.text("signals.cpu_temp.offset_c must not be negative");
            },
            ConfigError::PercentCurve => {
                r.text("signals.power.curve has a point > 200 with unit = \"percent_tdp\" \u{2014} likely a watts/percent mixup");
            },
            ConfigError::FloorDuty { duty } => {
                r.text("signals.throttle.floor_duty ");
                r.count(duty as u64);
                r.text(" exceeds 100");
            },
            ConfigError::NoReasons => {
                r.text("signals.throttle.reasons must not be empty when throttle is enabled");
            },
            ConfigError::HoldSecs { secs } => {
                r.text("signals.throttle.hold_secs ");
                r.count(secs);
                r.text(" exceeds 3600");
            },
        }
        assert(r@ =~= error_text(*self, channels@, key@));
        r
    }

    /// The sentence for an error in `c`.
    pub fn message(&self, c: &Config) -> (r: Report)
        requires
            self.speaks_of(*c),
        ensures
            r@ == error_text(*self, c.channels@, text::debug_quoted(error_key(*self, *c))),
    {
        let key: &str = match *self {
            ConfigError::FansKeyInvalid { entry } => c.rgb.fans.key_at(entry).as_str(),
            ConfigError::FansKeyNotCanonical { entry, .. } => c.rgb.fans.key_at(entry).as_str(),
            _ => "",
        };
        self.message_with_key(&c.channels, quoted(key).as_str())
    }
}

/// Whether more headroom ever asks for more fan.
pub open spec fn rises_with_headroom(points: Seq<CurvePoint>) -> bool {
    exists|i: int|
        #![trigger points[i]]
        1 <= i < points.len() && points[i].duty > points[i - 1].duty
}

fn duty_rises(points: &Vec<CurvePoint>) -> (b: bool)
    ensures
        b == rises_with_headroom(points@),
{
    let mut i: usize = 1;
    while i < points.len()
        invariant
            1 <= i,
            points@.len() > 0 ==> i <= points@.len(),
            forall|k: int|
                #![trigger points@[k]]
                1 <= k < i && k < points@.len() ==> points@[k].duty <= points@[k - 1].duty,
        decreases points@.len() - i,
    {
        if points[i].duty > points[i - 1].duty {
            assert(points@[i as int].duty > points@[i - 1].duty);
            return true;
        }
        i = i + 1;
    }
    false
}

fn has_power_cap(reasons: &Vec<ThrottleReason>) -> (b: bool)
    ensures
        b == reasons@.contains(ThrottleReason::SwPowerCap),
{
    let mut i: usize = 0;
    while i < reasons.len()
        invariant
            i <= reasons@.len(),
            forall|k: int| 0 <= k < i ==> reasons@[k] != ThrottleReason::SwPowerCap,
        decreases reasons@.len() - i,
    {
        if reasons[i] == ThrottleReason::SwPowerCap {
            assert(reasons@[i as int] == ThrottleReason::SwPowerCap);
            return true;
        }
        i = i + 1;
    }
    false
}

/// What is said of a margin curve that looks upside down.
pub open spec fn margin_warning() -> Seq<char> {
    "signals.margin.curve duty rises with headroom; more thermal headroom will command more fan \u{2014} is the curve inverted?"@
}

/// What is said of a throttle floor on the power cap.
pub open spec fn power_cap_warning() -> Seq<char> {
    "signals.throttle.reasons includes sw_power_cap, which MEASURED on this hardware asserts continuously (0x4) throughout a full inference load \u{2014} including it will hold the throttle floor duty for the entire duration of any sustained load"@
}

/// The sentences on a configuration that is odd but not refused: one for every
/// key that no setting has, one for a margin curve that rises, one for a
/// throttle floor on the power cap.
pub open spec fn warning_texts(c: Config, unknown: Seq<Seq<char>>) -> Seq<Seq<char>> {
    Seq::new(unknown.len(), |i: int| "ignoring unknown config key: "@ + unknown[i]) + (if
    c.signals.enabled && c.signals.thermal_margin.enabled && rises_with_headroom(
        c.signals.thermal_margin.curve@,
    ) {
        seq![margin_warning()]
    } else {
        seq![]
    }) + (if c.signals.enabled && c.signals.throttle.enabled && c.signals.throttle.reasons@.contains(
        ThrottleReason::SwPowerCap,
    ) {
        seq![power_cap_warning()]
    } else {
        seq![]
    })
}

/// The characters of several texts.
pub open spec fn texts(v: Seq<String>) -> Seq<Seq<char>> {
    Seq::new(v.len(), |i: int| v[i]@)
}

impl Config {
    /// What is odd about the configuration, whether or not it is refused.
    /// `unknown` are the keys that were read but have no setting.
    pub fn warnings(&self, unknown: &[String]) -> (v: Vec<String>)
        ensures
            texts(v@) == warning_texts(*self, texts(unknown@)),
    {
        let mut v: Vec<String> = Vec::new();
        let mut i: usize = 0;
        while i < unknown.len()
            invariant
                i <= unknown@.len(),
                v@.len() == i,
                forall|k: int|
                    0 <= k < i ==> (#[trigger] v@[k])@ == "ignoring unknown config key: "@
                        + unknown@[k]@,
            decreases unknown@.len() - i,
        {
            let mut s: String = "ignoring unknown config key: ".to_owned();
            s.append(unknown[i].as_str());
            v.push(s);
            i = i + 1;
        }
        if self.signals.enabled && self.signals.thermal_margin.enabled && duty_rises(
            &self.signals.thermal_margin.curve,
        ) {
            v.push(
                "signals.margin.curve duty rises with headroom; more thermal headroom will command more fan \u{2014} is the curve inverted?".to_owned(),
            );
        }
        if self.signals.enabled && self.signals.throttle.enabled && has_power_cap(
            &self.signals.throttle.reasons,
        ) {
            v.push(
                "signals.throttle.reasons includes sw_power_cap, which MEASURED on this hardware asserts continuously (0x4) throughout a full inference load \u{2014} including it will hold the throttle floor duty for the entire duration of any sustained load".to_owned(),
            );
        }
        assert(texts(v@) =~= warning_texts(*self, texts(unknown@)));
        v
    }
}

} // verus!
