//! What stands around the control loop: the command line, sensor answers, duty
//! writes and the bookkeeping of what succeeded.

use crate::binary64::Binary64;
use crate::config::Config;
use crate::config_laws;
use crate::curve;
use crate::curve::interpolate;
use crate::hid;
use crate::hid::{duty_write, HubWrite};
use crate::metrics::Metrics;
use crate::sensors;
use crate::sensors::control_temp;
use crate::signals;
use crate::text::same_text;
use vstd::prelude::*;

verus! {

/// What the command line asks for.
#[derive(Debug, Clone)]
pub struct Args {
    pub config: String,
    pub oneshot: bool,
}

/// Why a command line is refused.
#[derive(Debug, Clone, Copy, PartialEq, Eq, Structural)]
pub enum ArgsError {
    /// The argument at this place is not known.
    Unknown { index: usize },
    /// No path follows the last argument.
    NoPath,
}

/// Where the configuration lies unless the command line says otherwise.
pub fn default_config_path() -> (s: String)
    ensures
        s@ == "/etc/unifand/config.toml"@,
{
    "/etc/unifand/config.toml".to_owned()
}

/// What the arguments from `i` on ask for, after those before.
pub open spec fn args_from(
    args: Seq<String>,
    i: int,
    config: Seq<char>,
    oneshot: bool,
) -> Result<(Seq<char>, bool), ArgsError>
    decreases args.len() - i,
{
    if i >= args.len() {
        Ok((config, oneshot))
    } else if args[i]@ == "--config"@ {
        if i + 1 >= args.len() {
            Err(ArgsError::NoPath)
        } else {
            args_from(args, i + 2, args[i + 1]@, oneshot)
        }
    } else if args[i]@ == "--oneshot"@ {
        args_from(args, i + 1, config, true)
    } else {
        Err(ArgsError::Unknown { index: i as usize })
    }
}

/// Reads the command line, without the name of the program.
pub fn parse_args(args: &[String]) -> (r: Result<Args, ArgsError>)
    ensures
        match r {
            Ok(a) => args_from(args@, 0, "/etc/unifand/config.toml"@, false) == Ok::<
                (Seq<char>, bool),
                ArgsError,
            >((a.config@, a.oneshot)),
            Err(e) => args_from(args@, 0, "/etc/unifand/config.toml"@, false) == Err::<
                (Seq<char>, bool),
                ArgsError,
            >(e),
        },
{
    let mut config: String = default_config_path();
    let mut oneshot: bool = false;
    let mut i: usize = 0;
    while i < args.len()
        invariant
            i <= args@.len(),
            args_from(args@, 0, "/etc/unifand/config.toml"@, false) == args_from(
                args@,
                i as int,
                config@,
                oneshot,
            ),
        decreases args@.len() - i,
    {
        if same_text(args[i].as_str(), "--config") {
            if i + 1 >= args.len() {
                return Err(ArgsError::NoPath);
            }
            config = args[i + 1].clone();
            i = i + 2;
        } else if same_text(args[i].as_str(), "--oneshot") {
            oneshot = true;
            i = i + 1;
        } else {
            return Err(ArgsError::Unknown { index: i });
        }
    }
    Ok(Args { config, oneshot })
}

/// What a sensor did when it was to be read.
#[derive(Debug, Clone, Copy)]
pub enum SensorRead {
    /// There is no such sensor.
    Absent,
    /// It was there and could not be read.
    Failed,
    Value(Binary64),
}

impl SensorRead {
    /// The value, if there is one.
    pub open spec fn value(self) -> Option<Binary64> {
        match self {
            SensorRead::Value(v) => Some(v),
            _ => None,
        }
    }
}

/// The temperatures of a tick.
#[derive(Debug, Clone, Copy)]
pub struct TempReadings {
    pub gpu: Option<Binary64>,
    pub cpu: Option<Binary64>,
    /// Whether the sensor was there and could not be read.
    pub gpu_read_failed: bool,
    pub cpu_read_failed: bool,
}

/// The temperatures that two sensors gave.
pub fn read_temps(cpu: SensorRead, gpu: SensorRead) -> (t: TempReadings)
    ensures
        t == (TempReadings {
            gpu: gpu.value(),
            cpu: cpu.value(),
            gpu_read_failed: gpu is Failed,
            cpu_read_failed: cpu is Failed,
        }),
{
    let (gpu_t, gpu_read_failed): (Option<Binary64>, bool) = match gpu {
        SensorRead::Value(v) => (Some(v), false),
        SensorRead::Failed => (None, true),
        SensorRead::Absent => (None, false),
    };
    let (cpu_t, cpu_read_failed): (Option<Binary64>, bool) = match cpu {
        SensorRead::Value(v) => (Some(v), false),
        SensorRead::Failed => (None, true),
        SensorRead::Absent => (None, false),
    };
    TempReadings { gpu: gpu_t, cpu: cpu_t, gpu_read_failed, cpu_read_failed }
}

/// What one look at the sensors leads to, with the hub left alone: the control
/// temperature, whether it is degraded, and the duty of the curve for it.
pub fn oneshot(cfg: &Config, temps: &TempReadings) -> (r: (Option<Binary64>, bool, Option<u8>))
    requires
        config_laws::accepted(*cfg),
    ensures
        (signals::number(r.0), r.1) == sensors::control_number(
            signals::number(temps.gpu),
            signals::number(temps.cpu),
            cfg.cpu_offset@,
        ),
        r.2 == match r.0 {
            Some(t) => Some(curve::interpolated(cfg.curve@, t@)),
            None => None,
        },
{
    let (ctrl, degraded) = control_temp(temps.gpu, temps.cpu, cfg.cpu_offset);
    let duty: Option<u8> = match ctrl {
        Some(t) => Some(interpolate(cfg.curve.as_slice(), t)),
        None => None,
    };
    (ctrl, degraded, duty)
}

/// Whether the alarm ladder is configured but can have no effect.
pub fn alerts_are_inert(cfg: &Config) -> (b: bool)
    ensures
        b == (cfg.rgb.alerts.enabled && !cfg.rgb.enabled),
{
    cfg.rgb.alerts.enabled && !cfg.rgb.enabled
}

/// How long to sleep at once: what is left, but no longer than `longest_ms`,
/// so that a request to stop is noticed.
pub fn next_slice(remaining_ms: u64, longest_ms: u64) -> (ms: u64)
    ensures
        ms == if remaining_ms < longest_ms {
            remaining_ms
        } else {
            longest_ms
        },
{
    if remaining_ms < longest_ms {
        remaining_ms
    } else {
        longest_ms
    }
}

/// The longest sleep without a look at requests to stop.
pub const SLEEP_SLICE_MS: u64 = 200;

/// How long to wait before looking for a missing hub again.
pub const HUB_RETRY_MS: u64 = 5000;

/// How often to show life while waiting for the hub.
pub const HUB_WAIT_SLICE_MS: u64 = 1000;

/// Whether it is time again to say that the hub is missing.
pub fn should_warn_of_hub(secs_since_warning: u64) -> (b: bool)
    ensures
        b == (secs_since_warning >= 30),
{
    secs_since_warning >= 30
}

/// The writes that set every channel to a duty.
pub fn duty_writes(channels: &Vec<u8>, duty: u8) -> (plan: Vec<HubWrite>)
    requires
        forall|i: int| 0 <= i < channels@.len() ==> #[trigger] channels@[i] <= 224,
    ensures
        hid::writes(plan@) == Seq::new(
            channels@.len(),
            |i: int| hid::duty_plan(channels@[i], duty),
        ),
{
    let mut plan: Vec<HubWrite> = Vec::new();
    let mut i: usize = 0;
    while i < channels.len()
        invariant
            forall|k: int| 0 <= k < channels@.len() ==> #[trigger] channels@[k] <= 224,
            i <= channels@.len(),
            plan@.len() == i,
            forall|k: int|
                0 <= k < i ==> (#[trigger] plan@[k])@ == hid::duty_plan(channels@[k], duty),
        decreases channels@.len() - i,
    {
        plan.push(duty_write(channels[i], duty));
        i = i + 1;
    }
    assert(hid::writes(plan@) =~= Seq::new(
        channels@.len(),
        |i: int| hid::duty_plan(channels@[i], duty),
    ));
    plan
}

/// The writes that leave the fans safe when the daemon stops.
pub fn shutdown_writes(cfg: &Config) -> (plan: Vec<HubWrite>)
    requires
        config_laws::accepted(*cfg),
        cfg.rgb.fans.wf(),
    ensures
        hid::writes(plan@) == Seq::new(
            cfg.channels@.len(),
            |i: int| hid::duty_plan(cfg.channels@[i], cfg.fallback_duty),
        ),
{
    proof {
        assert forall|i: int| 0 <= i < cfg.channels@.len() implies #[trigger] cfg.channels@[i]
            <= 224 by {
            config_laws::law_accepted_channels_are_addressable(*cfg, i);
        }
    }
    duty_writes(&cfg.channels, cfg.fallback_duty)
}

/// How many of the first `n` writes failed.
pub open spec fn failures(ok: Seq<bool>, n: int) -> nat
    decreases n,
{
    if n <= 0 {
        0
    } else {
        failures(ok, n - 1) + (if ok[n - 1] {
            0nat
        } else {
            1nat
        })
    }
}

/// Whether every write succeeded.
pub open spec fn all_ok(ok: Seq<bool>) -> bool {
    forall|i: int| 0 <= i < ok.len() ==> #[trigger] ok[i]
}

/// The duties of the channels after writing `duty` to the first `n`: a failed
/// write leaves the old one.
pub open spec fn duties_after(
    before: Map<u8, u8>,
    channels: Seq<u8>,
    ok: Seq<bool>,
    duty: u8,
    n: int,
) -> Map<u8, u8>
    decreases n,
{
    if n <= 0 {
        before
    } else {
        let m = duties_after(before, channels, ok, duty, n - 1);
        if ok[n - 1] {
            m.insert(channels[n - 1], duty)
        } else {
            m
        }
    }
}

/// Takes over how writing a duty to the channels went, and gives whether every
/// write succeeded.
pub fn record_duty(channels: &Vec<u8>, duty: u8, ok: &Vec<bool>, m: &mut Metrics) -> (all: bool)
    requires
        old(m).wf(),
        ok@.len() == channels@.len(),
        old(m).hid_errors_write + channels@.len() <= u64::MAX,
    ensures
        all == all_ok(ok@),
        final(m).wf(),
        final(m).duty@ == duties_after(
            old(m).duty@,
            channels@,
            ok@,
            duty,
            channels@.len() as int,
        ),
        *final(m) == (Metrics {
            duty: final(m).duty,
            hid_errors_write: (old(m).hid_errors_write + failures(ok@, ok@.len() as int)) as u64,
            ..*old(m)
        }),
{
    let mut all: bool = true;
    let mut i: usize = 0;
    while i < channels.len()
        invariant
            m.wf(),
            ok@.len() == channels@.len(),
            old(m).hid_errors_write + channels@.len() <= u64::MAX,
            i <= channels@.len(),
            failures(ok@, i as int) <= i,
            all == forall|k: int| 0 <= k < i ==> #[trigger] ok@[k],
            m.duty@ == duties_after(old(m).duty@, channels@, ok@, duty, i as int),
            *m == (Metrics {
                duty: m.duty,
                hid_errors_write: (old(m).hid_errors_write + failures(ok@, i as int)) as u64,
                ..*old(m)
            }),
        decreases channels@.len() - i,
    {
        if ok[i] {
            m.set_duty(channels[i], duty);
        } else {
            m.inc_hid_errors_write();
            all = false;
        }
        i = i + 1;
    }
    all
}

/// Takes over whether the hub is there after it was opened anew.
pub fn record_reopening(ok: bool, m: &mut Metrics)
    ensures
        *final(m) == (Metrics { hub_present: ok, ..*old(m) }),
{
    m.set_hub_present(ok);
}

/// Takes over how lighting the channels went, and gives whether every write
/// succeeded. Failures are counted and have no other effect.
pub fn record_leds(ok: &Vec<bool>, m: &mut Metrics) -> (all: bool)
    requires
        old(m).rgb_errors + ok@.len() <= u64::MAX,
    ensures
        all == all_ok(ok@),
        *final(m) == (Metrics {
            rgb_errors: (old(m).rgb_errors + failures(ok@, ok@.len() as int)) as u64,
            ..*old(m)
        }),
{
    let mut all: bool = true;
    let mut i: usize = 0;
    while i < ok.len()
        invariant
            old(m).rgb_errors + ok@.len() <= u64::MAX,
            i <= ok@.len(),
            failures(ok@, i as int) <= i,
            all == forall|k: int| 0 <= k < i ==> #[trigger] ok@[k],
            *m == (Metrics {
                rgb_errors: (old(m).rgb_errors + failures(ok@, i as int)) as u64,
                ..*old(m)
            }),
        decreases ok@.len() - i,
    {
        if !ok[i] {
            m.inc_rgb_errors();
            all = false;
        }
        i = i + 1;
    }
    all
}

/// The speeds of the channels after the first `n` were read: a failed read
/// leaves the old one.
pub open spec fn rpms_after(
    before: Map<u8, u16>,
    channels: Seq<u8>,
    rpms: Seq<Option<u16>>,
    n: int,
) -> Map<u8, u16>
    decreases n,
{
    if n <= 0 {
        before
    } else {
        let m = rpms_after(before, channels, rpms, n - 1);
        match rpms[n - 1] {
            Some(rpm) => m.insert(channels[n - 1], rpm),
            None => m,
        }
    }
}

/// Which speeds were read.
pub open spec fn answered(rpms: Seq<Option<u16>>) -> Seq<bool> {
    Seq::new(rpms.len(), |i: int| rpms[i] is Some)
}

/// Takes over the speeds of the channels, and gives whether one could not be
/// read.
pub fn record_rpms(channels: &Vec<u8>, rpms: &Vec<Option<u16>>, m: &mut Metrics) -> (failed: bool)
    requires
        old(m).wf(),
        rpms@.len() == channels@.len(),
        old(m).hid_errors_read + channels@.len() <= u64::MAX,
    ensures
        failed == !all_ok(answered(rpms@)),
        final(m).wf(),
        final(m).rpm@ == rpms_after(old(m).rpm@, channels@, rpms@, channels@.len() as int),
        *final(m) == (Metrics {
            rpm: final(m).rpm,
            hid_errors_read: (old(m).hid_errors_read + failures(
                answered(rpms@),
                rpms@.len() as int,
            )) as u64,
            ..*old(m)
        }),
{
    let mut failed: bool = false;
    let mut i: usize = 0;
    let ghost ok = answered(rpms@);
    while i < channels.len()
        invariant
            m.wf(),
            ok == answered(rpms@),
            rpms@.len() == channels@.len(),
            old(m).hid_errors_read + channels@.len() <= u64::MAX,
            i <= channels@.len(),
            failures(ok, i as int) <= i,
            failed == !(forall|k: int| 0 <= k < i ==> #[trigger] ok[k]),
            m.rpm@ == rpms_after(old(m).rpm@, channels@, rpms@, i as int),
            *m == (Metrics {
                rpm: m.rpm,
                hid_errors_read: (old(m).hid_errors_read + failures(ok, i as int)) as u64,
                ..*old(m)
            }),
        decreases channels@.len() - i,
    {
        match rpms[i] {
            Some(rpm) => {
                m.set_rpm(channels[i], rpm);
                assert(ok[i as int]);
            },
            None => {
                m.inc_hid_errors_read();
                assert(!ok[i as int]);
                failed = true;
            },
        }
        i = i + 1;
    }
    failed
}

} // verus!
