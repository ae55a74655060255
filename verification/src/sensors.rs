//! From what the sensors answer to readings.

use crate::binary64;
use crate::binary64::{Binary64, Number};
use crate::fusion_laws;
use crate::signals;
use crate::signals::{SignalReadings, ThrottleFlags};
use crate::text;
use crate::text::{same_text, trim};
use nvml_wrapper::bitmasks::device::ThrottleReasons;
use vstd::prelude::*;

verus! {

/// The temperature that the curve is followed by, and whether it had to be
/// found without the GPU.
pub open spec fn control_number(
    gpu: Option<Number>,
    cpu: Option<Number>,
    cpu_offset: Number,
) -> (Option<Number>, bool) {
    match (gpu, cpu) {
        (Some(g), Some(c)) => {
            let other = c.difference(cpu_offset);
            (
                Some(
                    if g is NotANumber || g.below(other) {
                        other
                    } else {
                        g
                    },
                ),
                false,
            )
        },
        (Some(g), None) => (Some(g), false),
        (None, Some(c)) => (Some(c), true),
        (None, None) => (None, true),
    }
}

/// The hotter of the GPU and the CPU with its offset taken off. Without the
/// GPU, the CPU as it is; the second part then says that the result is
/// degraded.
pub fn control_temp(gpu: Option<Binary64>, cpu: Option<Binary64>, cpu_offset: Binary64) -> (r: (
    Option<Binary64>,
    bool,
))
    ensures
        (signals::number(r.0), r.1) == control_number(
            signals::number(gpu),
            signals::number(cpu),
            cpu_offset@,
        ),
        (gpu is None || cpu is None) && r.0 is Some ==> r.0 == gpu || r.0 == cpu,
        r.1 == (gpu is None),
        cpu is None ==> r.0 == gpu,
        gpu is None ==> r.0 == cpu,
        gpu matches Some(g) ==> (cpu matches Some(c) ==> {
            let lowered = c@.difference(cpu_offset@);
            &&& r.0 matches Some(x) && (x@ == g@ || x@ == lowered)
            &&& !(r.0->0)@.below(g@)
            &&& !(r.0->0)@.below(lowered)
            &&& (r.0->0)@ is NotANumber ==> g@ is NotANumber && lowered is NotANumber
        }),
{
    match (gpu, cpu) {
        (Some(g), Some(c)) => {
            let other: Binary64 = c.minus(cpu_offset);
            (Some(g.larger(other)), false)
        },
        (Some(g), None) => (Some(g), false),
        (None, Some(c)) => (Some(c), true),
        (None, None) => (None, true),
    }
}

/// There is a temperature as long as one sensor answers, and it is degraded
/// exactly when the GPU does not. With one sensor it is what that one shows. With
/// both it is one of two numbers, the GPU's or the CPU's with the whole offset
/// taken off, and below neither of them.
pub proof fn law_control_temp_is_the_hotter(
    gpu: Option<Number>,
    cpu: Option<Number>,
    cpu_offset: Number,
)
    ensures
        control_number(gpu, cpu, cpu_offset).0 is None <==> gpu is None && cpu is None,
        control_number(gpu, cpu, cpu_offset).1 <==> gpu is None,
        gpu matches Some(g) ==> !(control_number(gpu, cpu, cpu_offset).0->0).below(g),
        gpu is Some && cpu is Some ==> !(control_number(gpu, cpu, cpu_offset).0->0).below(
            (cpu->0).difference(cpu_offset),
        ),
        gpu is Some && cpu is Some ==> control_number(gpu, cpu, cpu_offset).0 == gpu
            || control_number(gpu, cpu, cpu_offset).0 == Some((cpu->0).difference(cpu_offset)),
        gpu is Some && cpu is Some && control_number(gpu, cpu, cpu_offset).0->0 is NotANumber ==>
            gpu->0 is NotANumber && (cpu->0).difference(cpu_offset) is NotANumber,
        cpu is None ==> control_number(gpu, cpu, cpu_offset).0 == gpu,
        gpu is None ==> control_number(gpu, cpu, cpu_offset).0 == cpu,
{
}

/// How many ticks lie between two attempts to find a sensor again.
pub const REDISCOVERY_INTERVAL_TICKS: u32 = 12;

/// How many ticks lie between two looks at the enforced power limit, which can
/// be changed while the GPU runs.
pub const POWER_LIMIT_REFRESH_TICKS: u32 = 60;

/// Whether to look for a sensor again: only one that is missing or failing, and
/// at most once in `interval` ticks.
pub fn should_reprobe(missing_or_failing: bool, ticks_since_probe: u32, interval: u32) -> (b: bool)
    ensures
        b == (missing_or_failing && ticks_since_probe >= interval),
{
    missing_or_failing && ticks_since_probe >= interval
}

/// Where the thermal margin comes from.
#[derive(Debug, Clone, Copy, PartialEq)]
pub enum MarginSource {
    Unavailable,
    /// The driver's own margin, which cannot be read yet.
    TlimitField,
    /// The distance to a fixed threshold.
    GpuMaxMinusTemp { threshold_c: Binary64 },
}

impl Default for MarginSource {
    fn default() -> (m: Self)
        ensures
            m is Unavailable,
    {
        MarginSource::Unavailable
    }
}

/// What the GPU can report.
#[derive(Debug, Clone, Copy, PartialEq)]
pub struct GpuCaps {
    pub power: bool,
    pub margin: MarginSource,
    pub mem_temp: bool,
    pub throttle: bool,
    pub power_limit_w: Option<Binary64>,
}

impl GpuCaps {
    /// Nothing can be reported.
    pub open spec fn is_empty(self) -> bool {
        &&& !self.power
        &&& self.margin is Unavailable
        &&& !self.mem_temp
        &&& !self.throttle
        &&& self.power_limit_w is None
    }
}

impl Default for GpuCaps {
    fn default() -> (c: Self)
        ensures
            c.is_empty(),
    {
        GpuCaps {
            power: false,
            margin: MarginSource::default(),
            mem_temp: false,
            throttle: false,
            power_limit_w: None,
        }
    }
}

/// Which signals really failed to be read in a tick. One that the GPU does not
/// have has not failed.
#[derive(Debug, Clone, Copy, PartialEq, Eq, Structural)]
pub struct SignalErrors {
    pub power: bool,
    pub margin: bool,
    pub mem_temp: bool,
    pub throttle: bool,
}

impl Default for SignalErrors {
    fn default() -> (e: Self)
        ensures
            e == (SignalErrors { power: false, margin: false, mem_temp: false, throttle: false }),
    {
        SignalErrors { power: false, margin: false, mem_temp: false, throttle: false }
    }
}

/// Why a read gave nothing.
#[derive(Debug, Clone, Copy, PartialEq, Eq, Structural)]
pub enum ReadError {
    /// The GPU does not have what was asked for.
    NotSupported,
    /// Anything else.
    Failed,
}

/// What a read gave, if anything.
pub open spec fn reading<T>(result: Result<T, ReadError>) -> Option<T> {
    match result {
        Ok(v) => Some(v),
        Err(_) => None,
    }
}

/// Whether a read really failed.
pub open spec fn failed<T>(result: Result<T, ReadError>) -> bool {
    result matches Err(e) && e == ReadError::Failed
}

/// What a read gave. A real failure sets the flag, which nothing here clears;
/// what the GPU does not have is merely absent.
pub fn classify_read<T>(result: Result<T, ReadError>, error_flag: &mut bool) -> (r: Option<T>)
    ensures
        r == reading(result),
        *final(error_flag) == (*old(error_flag) || failed(result)),
{
    match result {
        Ok(v) => Some(v),
        Err(ReadError::NotSupported) => None,
        Err(ReadError::Failed) => {
            *error_flag = true;
            None
        },
    }
}

/// The headroom to a threshold.
pub fn margin_from_threshold(threshold_c: Binary64, temp_c: Option<Binary64>) -> (m: Option<
    Binary64,
>)
    ensures
        signals::number(m) == match temp_c {
            Some(t) => Some(threshold_c@.difference(t@)),
            None => None,
        },
{
    match temp_c {
        Some(t) => Some(threshold_c.minus(t)),
        None => None,
    }
}

/// The bit for clocks lowered by the driver to stay within the power limit.
pub const SW_POWER_CAP: u64 = 0x4;

/// The bit for clocks lowered by the driver because of heat.
pub const SW_THERMAL_SLOWDOWN: u64 = 0x20;

/// The bit for clocks lowered by the hardware because of heat.
pub const HW_THERMAL_SLOWDOWN: u64 = 0x40;

/// The bit for clocks lowered by the hardware because the power supply asked
/// for it.
pub const HW_POWER_BRAKE_SLOWDOWN: u64 = 0x80;

/// `ThrottleReasons::contains` of nvml-wrapper, on sets made of their bits by
/// `from_bits_retain`: whether every bit of `mask` is among `bits`.
#[verifier::external_body]
fn reasons_contain(bits: u64, mask: u64) -> (b: bool)
    ensures
        b == (bits & mask == mask),
{
    ThrottleReasons::from_bits_retain(bits).contains(ThrottleReasons::from_bits_retain(mask))
}

/// The bits of the four reasons, counted from zero: the power cap has the second,
/// heat seen by the driver the fifth, heat seen by the hardware the sixth, the
/// power brake the seventh.
pub proof fn law_bits_of_the_reasons(bits: u64)
    ensures
        bits & SW_POWER_CAP == SW_POWER_CAP <==> bits / 4 % 2 == 1,
        bits & SW_THERMAL_SLOWDOWN == SW_THERMAL_SLOWDOWN <==> bits / 32 % 2 == 1,
        bits & HW_THERMAL_SLOWDOWN == HW_THERMAL_SLOWDOWN <==> bits / 64 % 2 == 1,
        bits & HW_POWER_BRAKE_SLOWDOWN == HW_POWER_BRAKE_SLOWDOWN <==> bits / 128 % 2 == 1,
{
    assert(bits & 0x4 == 0x4 <==> bits / 4 % 2 == 1) by (bit_vector);
    assert(bits & 0x20 == 0x20 <==> bits / 32 % 2 == 1) by (bit_vector);
    assert(bits & 0x40 == 0x40 <==> bits / 64 % 2 == 1) by (bit_vector);
    assert(bits & 0x80 == 0x80 <==> bits / 128 % 2 == 1) by (bit_vector);
}

/// Takes the four reasons that matter here out of the driver's bits. No other
/// bit counts.
pub fn throttle_flags(bits: u64) -> (f: ThrottleFlags)
    ensures
        f == (ThrottleFlags {
            sw_thermal: bits & SW_THERMAL_SLOWDOWN == SW_THERMAL_SLOWDOWN,
            hw_thermal: bits & HW_THERMAL_SLOWDOWN == HW_THERMAL_SLOWDOWN,
            hw_power_brake: bits & HW_POWER_BRAKE_SLOWDOWN == HW_POWER_BRAKE_SLOWDOWN,
            sw_power_cap: bits & SW_POWER_CAP == SW_POWER_CAP,
        }),
        f.sw_power_cap <==> bits / 4 % 2 == 1,
        f.sw_thermal <==> bits / 32 % 2 == 1,
        f.hw_thermal <==> bits / 64 % 2 == 1,
        f.hw_power_brake <==> bits / 128 % 2 == 1,
{
    proof {
        law_bits_of_the_reasons(bits);
    }
    ThrottleFlags {
        sw_thermal: reasons_contain(bits, SW_THERMAL_SLOWDOWN),
        hw_thermal: reasons_contain(bits, HW_THERMAL_SLOWDOWN),
        hw_power_brake: reasons_contain(bits, HW_POWER_BRAKE_SLOWDOWN),
        sw_power_cap: reasons_contain(bits, SW_POWER_CAP),
    }
}

/// A value of one of the kinds that the driver reports.
#[derive(Debug, Clone, Copy, PartialEq)]
pub enum Sample {
    F64(Binary64),
    U32(u32),
    U64(u64),
    I64(i64),
}

/// The value of a sample.
pub open spec fn sample_number(v: Sample) -> Number {
    match v {
        Sample::F64(f) => f@,
        Sample::U32(u) => binary64::whole(u as nat),
        Sample::U64(u) => binary64::whole(u as nat),
        Sample::I64(i) => if i < 0 {
            binary64::whole((-i) as nat).negated()
        } else {
            binary64::whole(i as nat)
        },
    }
}

/// The value of a sample, as the nearest number.
pub fn sample_to_f64(v: Sample) -> (x: Binary64)
    ensures
        x@ == sample_number(v),
{
    match v {
        Sample::F64(f) => f,
        Sample::U32(u) => Binary64::from_u64(u as u64),
        Sample::U64(u) => Binary64::from_u64(u),
        Sample::I64(i) => Binary64::from_i64(i),
    }
}

/// A thousandth of a whole number.
pub open spec fn thousandth(n: nat) -> Number {
    binary64::whole(n).quotient(binary64::whole(1000))
}

fn watts(milliwatts: u32) -> (x: Binary64)
    ensures
        x@ == thousandth(milliwatts as nat),
{
    Binary64::from_u64(milliwatts as u64).over(Binary64::from_u64(1000))
}

fn watts_of(limit_mw: Option<u32>) -> (x: Option<Binary64>)
    ensures
        signals::number(x) == match limit_mw {
            Some(mw) => Some(thousandth(mw as nat)),
            None => None,
        },
{
    match limit_mw {
        Some(mw) => Some(watts(mw)),
        None => None,
    }
}

/// Whether a sensor's name, read from a file, is that of the CPU sensor.
pub fn is_cpu_sensor(name: &str) -> (b: bool)
    ensures
        b == (text::trimmed(name@) == "k10temp"@),
{
    same_text(trim(name), "k10temp")
}

/// Degrees from thousandths of a degree.
pub fn celsius_from_milli(milli: Binary64) -> (c: Binary64)
    ensures
        c@ == milli@.quotient(binary64::whole(1000)),
        forall|n: nat|
            1000 * n < 0x20_0000_0000_0000 && milli@ == binary64::whole(1000 * n) ==> c@
                == #[trigger] binary64::whole(n),
{
    proof {
        assert forall|n: nat|
            1000 * n < 0x20_0000_0000_0000 && milli@ == binary64::whole(1000 * n) implies milli@.quotient(
            binary64::whole(1000),
        ) == #[trigger] binary64::whole(n) by {
            fusion_laws::lemma_whole_quotient(1000 * n, 1000, n);
        }
    }
    milli.over(Binary64::from_u64(1000))
}

/// The answers of one round of trying what a GPU can report.
#[derive(Debug, Clone)]
pub struct CapReads {
    /// Whether the power was answered.
    pub power: bool,
    /// The threshold above which the GPU must not go.
    pub gpu_max_c: Option<u32>,
    /// Whether each of the memory temperature samples was answered, or none if
    /// asking failed.
    pub mem_temp: Option<Vec<bool>>,
    /// Whether the throttle reasons were answered.
    pub throttle: bool,
    /// The enforced power limit, in milliwatts.
    pub power_limit_mw: Option<u32>,
}

/// What a GPU can report, from what it answered; nothing if it could not be
/// asked.
pub fn caps_from(reads: &Option<CapReads>) -> (c: GpuCaps)
    ensures
        match reads {
            None => c.is_empty(),
            Some(r) => {
                &&& c.power == r.power
                &&& match r.gpu_max_c {
                    Some(t) => c.margin matches MarginSource::GpuMaxMinusTemp { threshold_c }
                        && threshold_c@ == binary64::whole(t as nat),
                    None => c.margin is Unavailable,
                }
                &&& c.mem_temp == (r.mem_temp matches Some(v) && v@.len() > 0 && v@[0])
                &&& c.throttle == r.throttle
                &&& signals::number(c.power_limit_w) == match r.power_limit_mw {
                    Some(mw) => Some(thousandth(mw as nat)),
                    None => None,
                }
            },
        },
{
    match reads {
        None => GpuCaps::default(),
        Some(r) => GpuCaps {
            power: r.power,
            margin: match r.gpu_max_c {
                Some(t) => MarginSource::GpuMaxMinusTemp {
                    threshold_c: Binary64::from_u64(t as u64),
                },
                None => MarginSource::Unavailable,
            },
            mem_temp: match &r.mem_temp {
                Some(v) => v.len() > 0 && v[0],
                None => false,
            },
            throttle: r.throttle,
            power_limit_w: watts_of(r.power_limit_mw),
        },
    }
}

/// Takes over a fresh look at the power limit. A GPU that could not be asked
/// leaves the old one.
pub fn refreshed_power_limit(caps: &mut GpuCaps, asked: bool, limit_mw: Option<u32>)
    ensures
        final(caps).power == old(caps).power,
        final(caps).margin == old(caps).margin,
        final(caps).mem_temp == old(caps).mem_temp,
        final(caps).throttle == old(caps).throttle,
        !asked ==> final(caps).power_limit_w == old(caps).power_limit_w,
        asked ==> signals::number(final(caps).power_limit_w) == match limit_mw {
            Some(mw) => Some(thousandth(mw as nat)),
            None => None,
        },
{
    if asked {
        caps.power_limit_w = watts_of(limit_mw);
    }
}

/// The answers of one tick. What the GPU cannot report need not be asked for.
#[derive(Debug)]
pub struct GpuReads {
    pub power_mw: Result<u32, ReadError>,
    pub gpu_temp_c: Result<u32, ReadError>,
    /// The memory temperature samples, each answered or not.
    pub mem_temp: Result<Vec<Result<Sample, ReadError>>, ReadError>,
    pub throttle_bits: Result<u64, ReadError>,
}

/// The first of several samples. None at all is a failure.
pub open spec fn first_sample(samples: Result<Vec<Result<Sample, ReadError>>, ReadError>) -> Result<
    Number,
    ReadError,
> {
    match samples {
        Ok(v) => if v@.len() == 0 {
            Err(ReadError::Failed)
        } else {
            match v@[0] {
                Ok(s) => Ok(sample_number(s)),
                Err(e) => Err(e),
            }
        },
        Err(e) => Err(e),
    }
}

fn mem_temp_of(samples: &Result<Vec<Result<Sample, ReadError>>, ReadError>) -> (r: Result<
    Binary64,
    ReadError,
>)
    ensures
        match r {
            Ok(x) => first_sample(*samples) == Ok::<Number, ReadError>(x@),
            Err(e) => first_sample(*samples) == Err::<Number, ReadError>(e),
        },
{
    match samples {
        Ok(v) => {
            if v.len() == 0 {
                return Err(ReadError::Failed);
            }
            match v[0] {
                Ok(s) => Ok(sample_to_f64(s)),
                Err(e) => Err(e),
            }
        },
        Err(e) => Err(*e),
    }
}

/// The readings that follow from the answers of a tick: only what the GPU can
/// report, and only what it answered.
pub open spec fn readings_match(caps: GpuCaps, reads: GpuReads, r: SignalReadings) -> bool {
    &&& r.gpu_temp_c is None
    &&& r.cpu_temp_c is None
    &&& r.gpu_power_limit_w == caps.power_limit_w
    &&& signals::number(r.gpu_power_w) == match reads.power_mw {
        Ok(mw) => if caps.power {
            Some(thousandth(mw as nat))
        } else {
            None
        },
        Err(_) => None,
    }
    &&& signals::number(r.thermal_margin_c) == match (caps.margin, reads.gpu_temp_c) {
        (MarginSource::GpuMaxMinusTemp { threshold_c }, Ok(t)) => Some(
            threshold_c@.difference(binary64::whole(t as nat)),
        ),
        _ => None,
    }
    &&& signals::number(r.mem_temp_c) == if caps.mem_temp {
        reading(first_sample(reads.mem_temp))
    } else {
        None
    }
    &&& match reads.throttle_bits {
        Ok(bits) => if caps.throttle {
            r.throttle == (ThrottleFlags {
                sw_thermal: bits & SW_THERMAL_SLOWDOWN == SW_THERMAL_SLOWDOWN,
                hw_thermal: bits & HW_THERMAL_SLOWDOWN == HW_THERMAL_SLOWDOWN,
                hw_power_brake: bits & HW_POWER_BRAKE_SLOWDOWN == HW_POWER_BRAKE_SLOWDOWN,
                sw_power_cap: bits & SW_POWER_CAP == SW_POWER_CAP,
            })
        } else {
            r.throttle.is_clear()
        },
        Err(_) => r.throttle.is_clear(),
    }
}

/// Turns the answers of a tick into readings, and says what really failed. A
/// GPU that could not be asked gives nothing, and nothing has failed.
pub fn signals_from(caps: &GpuCaps, reads: &Option<GpuReads>) -> (r: (SignalReadings, SignalErrors))
    ensures
        match reads {
            None => {
                &&& r.0.gpu_power_limit_w is None
                &&& r.0.gpu_power_w is None
                &&& r.0.thermal_margin_c is None
                &&& r.0.mem_temp_c is None
                &&& r.0.gpu_temp_c is None
                &&& r.0.cpu_temp_c is None
                &&& r.0.throttle.is_clear()
                &&& r.1 == (SignalErrors {
                    power: false,
                    margin: false,
                    mem_temp: false,
                    throttle: false,
                })
            },
            Some(a) => {
                &&& readings_match(*caps, *a, r.0)
                &&& r.1 == (SignalErrors {
                    power: caps.power && failed(a.power_mw),
                    margin: caps.margin is GpuMaxMinusTemp && failed(a.gpu_temp_c),
                    mem_temp: caps.mem_temp && failed(first_sample(a.mem_temp)),
                    throttle: caps.throttle && failed(a.throttle_bits),
                })
            },
        },
{
    let mut readings: SignalReadings = SignalReadings::default();
    let mut errors: SignalErrors = SignalErrors::default();
    let reads: &GpuReads = match reads {
        Some(r) => r,
        None => {
            return (readings, errors);
        },
    };
    readings.gpu_power_limit_w = caps.power_limit_w;
    if caps.power {
        match classify_read(reads.power_mw, &mut errors.power) {
            Some(mw) => {
                readings.gpu_power_w = Some(watts(mw));
            },
            None => {},
        }
    }
    match caps.margin {
        MarginSource::GpuMaxMinusTemp { threshold_c } => {
            let temp: Option<Binary64> = match classify_read(
                reads.gpu_temp_c,
                &mut errors.margin,
            ) {
                Some(t) => Some(Binary64::from_u64(t as u64)),
                None => None,
            };
            readings.thermal_margin_c = margin_from_threshold(threshold_c, temp);
        },
        _ => {},
    }
    if caps.mem_temp {
        readings.mem_temp_c = classify_read(mem_temp_of(&reads.mem_temp), &mut errors.mem_temp);
    }
    if caps.throttle {
        match classify_read(reads.throttle_bits, &mut errors.throttle) {
            Some(bits) => {
                readings.throttle = throttle_flags(bits);
            },
            None => {},
        }
    }
    (readings, errors)
}

/// What the GPU does not have is never counted as a failure.
pub proof fn law_absence_is_no_error<T>(result: Result<T, ReadError>)
    ensures
        !(failed(result) && reading(result) is Some),
        result == Err::<T, ReadError>(ReadError::NotSupported) ==> !failed(result) && reading(
            result,
        ) is None,
        reading(result) is None && !failed(result) ==> result == Err::<T, ReadError>(
            ReadError::NotSupported,
        ),
{
}

/// Only the four bits count: sets that agree on them give the same reasons.
pub proof fn law_other_bits_do_not_count(a: u64, b: u64)
    requires
        a & 0xE4 == b & 0xE4,
    ensures
        (a & SW_THERMAL_SLOWDOWN == SW_THERMAL_SLOWDOWN) == (b & SW_THERMAL_SLOWDOWN
            == SW_THERMAL_SLOWDOWN),
        (a & HW_THERMAL_SLOWDOWN == HW_THERMAL_SLOWDOWN) == (b & HW_THERMAL_SLOWDOWN
            == HW_THERMAL_SLOWDOWN),
        (a & HW_POWER_BRAKE_SLOWDOWN == HW_POWER_BRAKE_SLOWDOWN) == (b & HW_POWER_BRAKE_SLOWDOWN
            == HW_POWER_BRAKE_SLOWDOWN),
        (a & SW_POWER_CAP == SW_POWER_CAP) == (b & SW_POWER_CAP == SW_POWER_CAP),
{
    assert(a & 0xE4 == b & 0xE4 ==> (a & 0x20 == b & 0x20 && a & 0x40 == b & 0x40 && a & 0x80 == b
        & 0x80 && a & 0x4 == b & 0x4)) by (bit_vector);
}

} // verus!
