//! Several signals folded into one duty: readings are checked, smoothed, looked
//! up on their curves, and the highest duty wins.

use crate::binary64;
use crate::binary64::{Binary64, Number};
use crate::config::{CurvePoint, PowerUnit, SignalsConfig, ThrottleReason};
use crate::curve;
use crate::curve::interpolate;
use vstd::prelude::*;

verus! {

/// One of the signals. Of two that ask for the same duty, the one that comes
/// first here wins: the hard limits stand before the others.
#[derive(Debug, Clone, Copy, PartialEq, Eq, PartialOrd, Ord, Structural)]
pub enum SignalKind {
    MemTemp,
    ThermalMargin,
    GpuTemp,
    GpuPower,
    CpuTemp,
}

impl SignalKind {
    /// All signals, in their order.
    pub const ALL: [SignalKind; 5] = [
        SignalKind::MemTemp,
        SignalKind::ThermalMargin,
        SignalKind::GpuTemp,
        SignalKind::GpuPower,
        SignalKind::CpuTemp,
    ];

    /// The signal at a place in the order.
    pub open spec fn nth(i: int) -> SignalKind {
        if i == 0 {
            SignalKind::MemTemp
        } else if i == 1 {
            SignalKind::ThermalMargin
        } else if i == 2 {
            SignalKind::GpuTemp
        } else if i == 3 {
            SignalKind::GpuPower
        } else {
            SignalKind::CpuTemp
        }
    }

    /// The place of a signal in the order.
    pub open spec fn rank(self) -> int {
        match self {
            SignalKind::MemTemp => 0,
            SignalKind::ThermalMargin => 1,
            SignalKind::GpuTemp => 2,
            SignalKind::GpuPower => 3,
            SignalKind::CpuTemp => 4,
        }
    }

    /// The name of a signal.
    pub open spec fn name(self) -> Seq<char> {
        match self {
            SignalKind::MemTemp => "mem_temp"@,
            SignalKind::ThermalMargin => "thermal_margin"@,
            SignalKind::GpuTemp => "gpu_temp"@,
            SignalKind::GpuPower => "gpu_power"@,
            SignalKind::CpuTemp => "cpu_temp"@,
        }
    }

    /// The unit of a signal.
    pub open spec fn unit_name(self) -> Seq<char> {
        if self == SignalKind::GpuPower {
            "watts"@
        } else {
            "celsius"@
        }
    }

    /// The name of the signal.
    pub fn as_str(&self) -> (s: &'static str)
        ensures
            s@ == self.name(),
    {
        match self {
            SignalKind::MemTemp => "mem_temp",
            SignalKind::ThermalMargin => "thermal_margin",
            SignalKind::GpuTemp => "gpu_temp",
            SignalKind::GpuPower => "gpu_power",
            SignalKind::CpuTemp => "cpu_temp",
        }
    }

    /// The unit of the signal.
    pub fn unit(&self) -> (s: &'static str)
        ensures
            s@ == self.unit_name(),
    {
        match self {
            SignalKind::GpuPower => "watts",
            _ => "celsius",
        }
    }

    /// The place of the signal in the order.
    pub fn idx(&self) -> (i: usize)
        ensures
            i == self.rank(),
            i < 5,
            SignalKind::nth(i as int) == *self,
    {
        match self {
            SignalKind::MemTemp => 0,
            SignalKind::ThermalMargin => 1,
            SignalKind::GpuTemp => 2,
            SignalKind::GpuPower => 3,
            SignalKind::CpuTemp => 4,
        }
    }

    fn at(i: usize) -> (k: SignalKind)
        requires
            i < 5,
        ensures
            k == SignalKind::nth(i as int),
            k.rank() == i,
    {
        Self::ALL[i]
    }
}

/// The reasons for which the GPU slows itself down, one by one.
#[derive(Debug, Clone, Copy, PartialEq, Eq, Structural)]
pub struct ThrottleFlags {
    pub sw_thermal: bool,
    pub hw_thermal: bool,
    pub hw_power_brake: bool,
    pub sw_power_cap: bool,
}

impl Default for ThrottleFlags {
    fn default() -> (f: Self)
        ensures
            f.is_clear(),
    {
        ThrottleFlags {
            sw_thermal: false,
            hw_thermal: false,
            hw_power_brake: false,
            sw_power_cap: false,
        }
    }
}

impl ThrottleFlags {
    /// Whether no reason is given.
    pub open spec fn is_clear(self) -> bool {
        !self.sw_thermal && !self.hw_thermal && !self.hw_power_brake && !self.sw_power_cap
    }

    /// Whether a reason is given.
    pub open spec fn has(self, r: ThrottleReason) -> bool {
        match r {
            ThrottleReason::SwThermal => self.sw_thermal,
            ThrottleReason::HwThermal => self.hw_thermal,
            ThrottleReason::HwPowerBrake => self.hw_power_brake,
            ThrottleReason::SwPowerCap => self.sw_power_cap,
        }
    }

    /// Whether one of several reasons is given.
    pub open spec fn has_any(self, reasons: Seq<ThrottleReason>) -> bool {
        exists|i: int| 0 <= i < reasons.len() && self.has(#[trigger] reasons[i])
    }

    /// Whether one of `reasons` is given.
    pub fn any_of(&self, reasons: &[ThrottleReason]) -> (b: bool)
        ensures
            b == self.has_any(reasons@),
    {
        let mut i: usize = 0;
        while i < reasons.len()
            invariant
                i <= reasons@.len(),
                forall|k: int| 0 <= k < i ==> !self.has(#[trigger] reasons@[k]),
            decreases reasons@.len() - i,
        {
            let given: bool = match reasons[i] {
                ThrottleReason::SwThermal => self.sw_thermal,
                ThrottleReason::HwThermal => self.hw_thermal,
                ThrottleReason::HwPowerBrake => self.hw_power_brake,
                ThrottleReason::SwPowerCap => self.sw_power_cap,
            };
            if given {
                assert(self.has(reasons@[i as int]));
                return true;
            }
            i = i + 1;
        }
        false
    }
}

/// What was read in one tick. What is missing was not to be had, which is not
/// the same as zero.
#[derive(Debug, Clone, Copy, PartialEq)]
pub struct SignalReadings {
    pub gpu_temp_c: Option<Binary64>,
    pub cpu_temp_c: Option<Binary64>,
    pub gpu_power_w: Option<Binary64>,
    pub gpu_power_limit_w: Option<Binary64>,
    pub thermal_margin_c: Option<Binary64>,
    pub mem_temp_c: Option<Binary64>,
    pub throttle: ThrottleFlags,
}

impl Default for SignalReadings {
    fn default() -> (r: Self)
        ensures
            r.gpu_temp_c is None,
            r.cpu_temp_c is None,
            r.gpu_power_w is None,
            r.gpu_power_limit_w is None,
            r.thermal_margin_c is None,
            r.mem_temp_c is None,
            r.throttle.is_clear(),
    {
        SignalReadings {
            gpu_temp_c: None,
            cpu_temp_c: None,
            gpu_power_w: None,
            gpu_power_limit_w: None,
            thermal_margin_c: None,
            mem_temp_c: None,
            throttle: ThrottleFlags::default(),
        }
    }
}

impl SignalReadings {
    /// The reading of a signal.
    pub open spec fn of(self, kind: SignalKind) -> Option<Binary64> {
        match kind {
            SignalKind::MemTemp => self.mem_temp_c,
            SignalKind::ThermalMargin => self.thermal_margin_c,
            SignalKind::GpuTemp => self.gpu_temp_c,
            SignalKind::GpuPower => self.gpu_power_w,
            SignalKind::CpuTemp => self.cpu_temp_c,
        }
    }
}

/// From `lo` to `hi`, both taken in.
pub open spec fn within(x: Number, lo: Number, hi: Number) -> bool {
    lo.at_most(x) && x.at_most(hi)
}

/// Whether a reading can be true: 1 to 125 degrees, 1 to 2000 watts, a headroom
/// of 40 degrees too little to 200.
pub open spec fn believable(kind: SignalKind, x: Number) -> bool {
    match kind {
        SignalKind::GpuPower => within(x, binary64::whole(1), binary64::whole(2000)),
        SignalKind::ThermalMargin => within(
            x,
            binary64::whole(40).negated(),
            binary64::whole(200),
        ),
        _ => within(x, binary64::whole(1), binary64::whole(125)),
    }
}

/// Whether a reading can be true. A dead sensor may report zero instead of
/// failing.
pub fn plausible(kind: SignalKind, v: Binary64) -> (b: bool)
    ensures
        b == believable(kind, v@),
        b ==> v@ is Finite,
{
    proof {
        lemma_believable_is_finite(kind, v@);
    }
    if !v.is_finite() {
        return false;
    }
    match kind {
        SignalKind::GpuPower => Binary64::from_u64(1).le(v) && v.le(Binary64::from_u64(2000)),
        SignalKind::ThermalMargin => Binary64::from_u64(40).negated().le(v) && v.le(
            Binary64::from_u64(200),
        ),
        _ => Binary64::from_u64(1).le(v) && v.le(Binary64::from_u64(125)),
    }
}

/// No reading that can be true is infinite or not a number.
pub proof fn lemma_believable_is_finite(kind: SignalKind, x: Number)
    ensures
        believable(kind, x) ==> x is Finite,
{
    binary64::lemma_whole_exact(1);
    binary64::lemma_whole_exact(40);
    binary64::lemma_whole_exact(125);
    binary64::lemma_whole_exact(200);
    binary64::lemma_whole_exact(2000);
}

/// `alpha` parts of the sample and the rest of what was before.
pub open spec fn average(prev: Number, sample: Number, alpha: Number) -> Number {
    alpha.product(sample).sum(binary64::whole(1).difference(alpha).product(prev))
}

/// The weighted average of what was before and a sample.
pub fn ewma(prev: Binary64, sample: Binary64, alpha: Binary64) -> (x: Binary64)
    ensures
        x@ == average(prev@, sample@, alpha@),
{
    alpha.times(sample).plus(Binary64::from_u64(1).minus(alpha).times(prev))
}

/// A reading, as a number.
pub open spec fn number(v: Option<Binary64>) -> Option<Number> {
    match v {
        Some(x) => Some(x@),
        None => None,
    }
}

/// A filter, as numbers.
pub struct Smoothing {
    pub value: Option<Number>,
    pub rise: Number,
    pub fall: Number,
}

impl Smoothing {
    /// What the filter holds after a sample. A missing sample changes nothing,
    /// the first one is taken as it is.
    pub open spec fn after(self, sample: Option<Number>) -> Smoothing {
        match (sample, self.value) {
            (None, _) => self,
            (Some(s), None) => Smoothing { value: Some(s), ..self },
            (Some(s), Some(prev)) => Smoothing {
                value: Some(
                    average(
                        prev,
                        s,
                        if prev.below(s) {
                            self.rise
                        } else {
                            self.fall
                        },
                    ),
                ),
                ..self
            },
        }
    }

    /// What the filter gives for a sample: nothing for a missing one.
    pub open spec fn output(self, sample: Option<Number>) -> Option<Number> {
        match sample {
            None => None,
            Some(_) => self.after(sample).value,
        }
    }
}

/// A filter that smooths rising and falling samples differently.
#[derive(Debug, Clone, Copy)]
pub struct AsymEwma {
    pub value: Option<Binary64>,
    pub rise_alpha: Binary64,
    pub fall_alpha: Binary64,
}

impl View for AsymEwma {
    type V = Smoothing;

    open spec fn view(&self) -> Smoothing {
        Smoothing {
            value: number(self.value),
            rise: self.rise_alpha@,
            fall: self.fall_alpha@,
        }
    }
}

impl AsymEwma {
    /// A filter that has seen nothing.
    pub fn new(rise_alpha: Binary64, fall_alpha: Binary64) -> (f: AsymEwma)
        ensures
            f@ == (Smoothing { value: None, rise: rise_alpha@, fall: fall_alpha@ }),
    {
        AsymEwma { value: None, rise_alpha, fall_alpha }
    }

    /// A filter that smooths in both directions alike.
    pub fn symmetric(alpha: Binary64) -> (f: AsymEwma)
        ensures
            f@ == (Smoothing { value: None, rise: alpha@, fall: alpha@ }),
    {
        Self::new(alpha, alpha)
    }

    /// Feeds a sample, or none.
    pub fn update(&mut self, sample: Option<Binary64>) -> (r: Option<Binary64>)
        ensures
            final(self)@ == old(self)@.after(number(sample)),
            number(r) == old(self)@.output(number(sample)),
            old(self).value is None ==> r == sample,
    {
        let s: Binary64 = match sample {
            Some(s) => s,
            None => {
                return None;
            },
        };
        let next: Binary64 = match self.value {
            None => s,
            Some(prev) => {
                let alpha: Binary64 = if prev.lt(s) {
                    self.rise_alpha
                } else {
                    self.fall_alpha
                };
                ewma(prev, s, alpha)
            },
        };
        self.value = Some(next);
        Some(next)
    }

    /// What the filter holds.
    pub fn value(&self) -> (v: Option<Binary64>)
        ensures
            v == self.value,
    {
        self.value
    }

    /// Forgets every sample.
    pub fn reset(&mut self)
        ensures
            final(self)@ == (Smoothing { value: None, ..old(self)@ }),
    {
        self.value = None;
    }
}

/// Readings that were checked and smoothed, and what needs neither.
#[derive(Debug, Clone, Copy, PartialEq)]
pub struct Conditioned {
    pub values: [Option<Binary64>; 5],
    pub gpu_power_limit_w: Option<Binary64>,
    pub throttle: ThrottleFlags,
}

impl Default for Conditioned {
    fn default() -> (c: Self)
        ensures
            forall|i: int| 0 <= i < 5 ==> c.values@[i] is None,
            c.gpu_power_limit_w is None,
            c.throttle.is_clear(),
    {
        Conditioned {
            values: [None, None, None, None, None],
            gpu_power_limit_w: None,
            throttle: ThrottleFlags::default(),
        }
    }
}

/// One filter for each signal.
#[derive(Debug, Clone, Copy)]
pub struct SignalConditioner {
    pub filters: [AsymEwma; 5],
}

/// The filter that a signal starts with.
pub open spec fn fresh_filter(cfg: SignalsConfig, kind: SignalKind) -> Smoothing {
    match kind {
        SignalKind::MemTemp => Smoothing {
            value: None,
            rise: cfg.mem_temp.alpha@,
            fall: cfg.mem_temp.alpha@,
        },
        SignalKind::ThermalMargin => Smoothing {
            value: None,
            rise: cfg.thermal_margin.alpha@,
            fall: cfg.thermal_margin.alpha@,
        },
        SignalKind::GpuTemp => Smoothing {
            value: None,
            rise: cfg.gpu_temp.alpha@,
            fall: cfg.gpu_temp.alpha@,
        },
        SignalKind::GpuPower => Smoothing {
            value: None,
            rise: cfg.gpu_power.rise_alpha@,
            fall: cfg.gpu_power.fall_alpha@,
        },
        SignalKind::CpuTemp => Smoothing {
            value: None,
            rise: cfg.cpu_temp.alpha@,
            fall: cfg.cpu_temp.alpha@,
        },
    }
}

/// The reading of a signal, if it can be true.
pub open spec fn sample_of(raw: SignalReadings, kind: SignalKind) -> Option<Number> {
    match raw.of(kind) {
        Some(v) => if believable(kind, v@) {
            Some(v@)
        } else {
            None
        },
        None => None,
    }
}

impl SignalConditioner {
    /// The filter of a signal.
    pub open spec fn filter(self, kind: SignalKind) -> Smoothing {
        self.filters@[kind.rank()]@
    }

    /// A filter for each signal, smoothing as configured.
    pub fn new(cfg: &SignalsConfig) -> (c: SignalConditioner)
        ensures
            forall|kind: SignalKind| #[trigger] c.filter(kind) == fresh_filter(*cfg, kind),
            c.filters@[0]@.rise == cfg.mem_temp.alpha@,
            c.filters@[0]@.fall == cfg.mem_temp.alpha@,
            c.filters@[1]@.rise == cfg.thermal_margin.alpha@,
            c.filters@[1]@.fall == cfg.thermal_margin.alpha@,
            c.filters@[2]@.rise == cfg.gpu_temp.alpha@,
            c.filters@[2]@.fall == cfg.gpu_temp.alpha@,
            c.filters@[3]@.rise == cfg.gpu_power.rise_alpha@,
            c.filters@[3]@.fall == cfg.gpu_power.fall_alpha@,
            c.filters@[4]@.rise == cfg.cpu_temp.alpha@,
            c.filters@[4]@.fall == cfg.cpu_temp.alpha@,
            forall|i: int| 0 <= i < 5 ==> (#[trigger] c.filters@[i]).value is None,
    {
        SignalConditioner {
            filters: [
                AsymEwma::symmetric(cfg.mem_temp.alpha),
                AsymEwma::symmetric(cfg.thermal_margin.alpha),
                AsymEwma::symmetric(cfg.gpu_temp.alpha),
                AsymEwma::new(cfg.gpu_power.rise_alpha, cfg.gpu_power.fall_alpha),
                AsymEwma::symmetric(cfg.cpu_temp.alpha),
            ],
        }
    }

    /// Checks and smooths the readings of a tick. One that cannot be true is
    /// treated as missing.
    pub fn update(&mut self, raw: &SignalReadings) -> (c: Conditioned)
        ensures
            forall|kind: SignalKind| #[trigger]
                final(self).filter(kind) == old(self).filter(kind).after(sample_of(*raw, kind)),
            forall|kind: SignalKind|
                number(#[trigger] c.values@[kind.rank()]) == old(self).filter(kind).output(
                    sample_of(*raw, kind),
                ),
            c.gpu_power_limit_w == raw.gpu_power_limit_w,
            c.throttle == raw.throttle,
            raw.mem_temp_c is None ==> c.values@[0] is None,
            raw.thermal_margin_c is None ==> c.values@[1] is None,
            raw.gpu_temp_c is None ==> c.values@[2] is None,
            raw.gpu_power_w is None ==> c.values@[3] is None,
            raw.cpu_temp_c is None ==> c.values@[4] is None,
            raw.mem_temp_c matches Some(v) ==> (c.values@[0] is Some <==> believable(
                SignalKind::MemTemp,
                v@,
            )),
            raw.thermal_margin_c matches Some(v) ==> (c.values@[1] is Some <==> believable(
                SignalKind::ThermalMargin,
                v@,
            )),
            raw.gpu_temp_c matches Some(v) ==> (c.values@[2] is Some <==> believable(
                SignalKind::GpuTemp,
                v@,
            )),
            raw.gpu_power_w matches Some(v) ==> (c.values@[3] is Some <==> believable(
                SignalKind::GpuPower,
                v@,
            )),
            raw.cpu_temp_c matches Some(v) ==> (c.values@[4] is Some <==> believable(
                SignalKind::CpuTemp,
                v@,
            )),
    {
        let mut values: [Option<Binary64>; 5] = [None, None, None, None, None];
        let mut i: usize = 0;
        while i < 5
            invariant
                i <= 5,
                forall|k: int|
                    0 <= k < i ==> (#[trigger] self.filters@[k])@ == old(self).filters@[k]@.after(
                        sample_of(*raw, SignalKind::nth(k)),
                    ),
                forall|k: int|
                    i <= k < 5 ==> #[trigger] self.filters@[k] == old(self).filters@[k],
                forall|k: int|
                    0 <= k < i ==> number(#[trigger] values@[k]) == old(
                        self,
                    ).filters@[k]@.output(sample_of(*raw, SignalKind::nth(k))),
            decreases 5 - i,
        {
            let kind: SignalKind = SignalKind::at(i);
            let reading: Option<Binary64> = match kind {
                SignalKind::MemTemp => raw.mem_temp_c,
                SignalKind::ThermalMargin => raw.thermal_margin_c,
                SignalKind::GpuTemp => raw.gpu_temp_c,
                SignalKind::GpuPower => raw.gpu_power_w,
                SignalKind::CpuTemp => raw.cpu_temp_c,
            };
            let sample: Option<Binary64> = match reading {
                Some(v) => {
                    if plausible(kind, v) {
                        Some(v)
                    } else {
                        None
                    }
                },
                None => None,
            };
            let mut filter: AsymEwma = self.filters[i];
            values[i] = filter.update(sample);
            self.filters[i] = filter;
            i = i + 1;
        }
        proof {
            assert forall|kind: SignalKind| #[trigger]
                self.filter(kind) == old(self).filter(kind).after(sample_of(*raw, kind)) by {
                assert(SignalKind::nth(kind.rank()) == kind);
            }
            assert forall|kind: SignalKind|
                number(#[trigger] values@[kind.rank()]) == old(self).filter(kind).output(
                    sample_of(*raw, kind),
                ) by {
                assert(SignalKind::nth(kind.rank()) == kind);
            }
            assert(values@[SignalKind::MemTemp.rank()] == values@[0]);
            assert(values@[SignalKind::ThermalMargin.rank()] == values@[1]);
            assert(values@[SignalKind::GpuTemp.rank()] == values@[2]);
            assert(values@[SignalKind::GpuPower.rank()] == values@[3]);
            assert(values@[SignalKind::CpuTemp.rank()] == values@[4]);
        }
        Conditioned { values, gpu_power_limit_w: raw.gpu_power_limit_w, throttle: raw.throttle }
    }

    /// Forgets what the GPU's own signals have shown, for a GPU that was lost
    /// and found again. What the CPU has shown stays.
    pub fn reset_gpu(&mut self)
        ensures
            forall|kind: SignalKind| #[trigger]
                final(self).filter(kind) == if kind == SignalKind::CpuTemp {
                    old(self).filter(kind)
                } else {
                    Smoothing { value: None, ..old(self).filter(kind) }
                },
            final(self).filters@[4] == old(self).filters@[4],
            forall|i: int| 0 <= i < 4 ==> (#[trigger] final(self).filters@[i]).value is None,
    {
        let mut i: usize = 0;
        while i < 4
            invariant
                i <= 4,
                forall|k: int|
                    0 <= k < i ==> (#[trigger] self.filters@[k])@ == (Smoothing {
                        value: None,
                        ..old(self).filters@[k]@
                    }),
                forall|k: int|
                    i <= k < 5 ==> #[trigger] self.filters@[k] == old(self).filters@[k],
            decreases 4 - i,
        {
            let mut filter: AsymEwma = self.filters[i];
            filter.reset();
            self.filters[i] = filter;
            i = i + 1;
        }
    }
}

/// Holds on to a flag that may come and go between two looks at it.
#[derive(Debug, Clone, Copy)]
pub struct ThrottleLatch {
    pub remaining_secs: u64,
    pub hold_secs: u64,
}

impl ThrottleLatch {
    /// The latch after a look at the flag.
    pub open spec fn after(self, active: bool, elapsed_secs: u64) -> ThrottleLatch {
        ThrottleLatch {
            remaining_secs: if active {
                self.hold_secs
            } else if elapsed_secs >= self.remaining_secs {
                0
            } else {
                (self.remaining_secs - elapsed_secs) as u64
            },
            ..self
        }
    }

    /// A latch that holds for `hold_secs`.
    pub fn new(hold_secs: u64) -> (l: ThrottleLatch)
        ensures
            l.remaining_secs == 0,
            l.hold_secs == hold_secs,
    {
        ThrottleLatch { remaining_secs: 0, hold_secs }
    }

    /// Looks at the flag, `elapsed_secs` after the last look. Gives whether it
    /// is set, or was within the hold.
    pub fn update(&mut self, active: bool, elapsed_secs: u64) -> (b: bool)
        ensures
            *final(self) == old(self).after(active, elapsed_secs),
            b == (active || final(self).remaining_secs > 0),
    {
        if active {
            self.remaining_secs = self.hold_secs;
            true
        } else {
            self.remaining_secs = self.remaining_secs.saturating_sub(elapsed_secs);
            self.remaining_secs > 0
        }
    }

    /// Whether the latch still holds.
    pub fn active(&self) -> (b: bool)
        ensures
            b == (self.remaining_secs > 0),
    {
        self.remaining_secs > 0
    }
}

/// What one signal asks for.
#[derive(Debug, Clone, Copy, PartialEq)]
pub struct Candidate {
    pub kind: SignalKind,
    pub value: Binary64,
    pub duty: u8,
}

/// What the signals ask for, one by one and together.
#[derive(Debug, Clone, Copy, PartialEq)]
pub struct Fusion {
    pub candidates: [Option<Candidate>; 5],
    pub target: Option<u8>,
    pub winner: Option<SignalKind>,
    pub floor_applied: bool,
}

impl Default for Fusion {
    fn default() -> (f: Self)
        ensures
            forall|i: int| 0 <= i < 5 ==> f.candidates@[i] is None,
            f.target is None,
            f.winner is None,
            !f.floor_applied,
    {
        Fusion {
            candidates: [None, None, None, None, None],
            target: None,
            winner: None,
            floor_applied: false,
        }
    }
}

/// Whether a signal is switched on.
pub open spec fn switched_on(cfg: SignalsConfig, kind: SignalKind) -> bool {
    match kind {
        SignalKind::MemTemp => cfg.mem_temp.enabled,
        SignalKind::ThermalMargin => cfg.thermal_margin.enabled,
        SignalKind::GpuTemp => cfg.gpu_temp.enabled,
        SignalKind::GpuPower => cfg.gpu_power.enabled,
        SignalKind::CpuTemp => cfg.cpu_temp.enabled,
    }
}

/// The curve of a signal's own.
pub open spec fn own_curve(cfg: SignalsConfig, kind: SignalKind) -> Seq<CurvePoint> {
    match kind {
        SignalKind::MemTemp => cfg.mem_temp.curve@,
        SignalKind::ThermalMargin => cfg.thermal_margin.curve@,
        SignalKind::GpuTemp => cfg.gpu_temp.curve@,
        SignalKind::GpuPower => cfg.gpu_power.curve@,
        SignalKind::CpuTemp => cfg.cpu_temp.curve@,
    }
}

/// The curve that a signal follows. Only the die temperatures fall back to the
/// top curve: its input axis is theirs.
pub open spec fn followed_curve(
    cfg: SignalsConfig,
    top: Seq<CurvePoint>,
    kind: SignalKind,
) -> Seq<CurvePoint> {
    let own = own_curve(cfg, kind);
    if own.len() == 0 && (kind == SignalKind::GpuTemp || kind == SignalKind::CpuTemp) {
        top
    } else {
        own
    }
}

/// Where a value stands on the curve that its signal follows. A power in
/// percent needs a limit above zero.
pub open spec fn curve_input(
    cfg: SignalsConfig,
    limit: Option<Binary64>,
    kind: SignalKind,
    value: Number,
) -> Option<Number> {
    if kind == SignalKind::CpuTemp {
        Some(value.difference(cfg.cpu_temp.offset_c@))
    } else if kind == SignalKind::GpuPower && cfg.gpu_power.unit == PowerUnit::PercentTdp {
        match limit {
            Some(l) => if binary64::whole(0).below(l@) {
                Some(binary64::whole(100).product(value).quotient(l@))
            } else {
                None
            },
            None => None,
        }
    } else {
        Some(value)
    }
}

/// What a signal asks for, if it is on, has a value, and has a curve to look
/// it up on.
pub open spec fn asked(
    cfg: SignalsConfig,
    top: Seq<CurvePoint>,
    cond: Conditioned,
    kind: SignalKind,
) -> Option<Candidate> {
    let points = followed_curve(cfg, top, kind);
    match cond.values@[kind.rank()] {
        Some(value) => match curve_input(cfg, cond.gpu_power_limit_w, kind, value@) {
            Some(x) => if switched_on(cfg, kind) && points.len() > 0 {
                Some(Candidate { kind, value, duty: curve::interpolated(points, x) })
            } else {
                None
            },
            None => None,
        },
        None => None,
    }
}

/// Whether the candidate at `i` asks for the most, and comes first of those
/// that do.
pub open spec fn wins(candidates: Seq<Option<Candidate>>, i: int) -> bool {
    &&& 0 <= i < candidates.len()
    &&& candidates[i] is Some
    &&& forall|j: int|
        0 <= j < candidates.len() && (#[trigger] candidates[j]) is Some ==> candidates[j]->0.duty
            <= candidates[i]->0.duty
    &&& forall|j: int|
        0 <= j < i && (#[trigger] candidates[j]) is Some ==> candidates[j]->0.duty
            < candidates[i]->0.duty
}

/// The candidate that wins.
pub open spec fn best(candidates: Seq<Option<Candidate>>) -> Option<Candidate> {
    if exists|i: int| wins(candidates, i) {
        candidates[choose|i: int| wins(candidates, i)]
    } else {
        None
    }
}

/// The duty that wins, or zero.
pub open spec fn baseline(b: Option<Candidate>) -> u8 {
    match b {
        Some(c) => c.duty,
        None => 0,
    }
}

/// The target: what wins, raised to the floor while the floor holds.
pub open spec fn fused_target(b: Option<Candidate>, floor: Option<u8>) -> Option<u8> {
    match floor {
        Some(f) => Some(
            if f > baseline(b) {
                f
            } else {
                baseline(b)
            },
        ),
        None => match b {
            Some(c) => Some(c.duty),
            None => None,
        },
    }
}

/// The floor, while it holds.
pub open spec fn active_floor(cfg: SignalsConfig, latched: bool) -> Option<u8> {
    if latched && cfg.throttle.enabled {
        Some(cfg.throttle.floor_duty)
    } else {
        None
    }
}

fn candidate(
    cfg: &SignalsConfig,
    top_curve: &[CurvePoint],
    cond: &Conditioned,
    kind: SignalKind,
) -> (c: Option<Candidate>)
    ensures
        c == asked(*cfg, top_curve@, *cond, kind),
{
    let value: Binary64 = match cond.values[kind.idx()] {
        Some(v) => v,
        None => {
            return None;
        },
    };
    let (enabled, own): (bool, &[CurvePoint]) = match kind {
        SignalKind::MemTemp => (cfg.mem_temp.enabled, cfg.mem_temp.curve.as_slice()),
        SignalKind::ThermalMargin => (
            cfg.thermal_margin.enabled,
            cfg.thermal_margin.curve.as_slice(),
        ),
        SignalKind::GpuTemp => (cfg.gpu_temp.enabled, cfg.gpu_temp.curve.as_slice()),
        SignalKind::GpuPower => (cfg.gpu_power.enabled, cfg.gpu_power.curve.as_slice()),
        SignalKind::CpuTemp => (cfg.cpu_temp.enabled, cfg.cpu_temp.curve.as_slice()),
    };
    if !enabled {
        return None;
    }
    let points: &[CurvePoint] = if own.len() == 0 && (kind == SignalKind::GpuTemp || kind
        == SignalKind::CpuTemp) {
        top_curve
    } else {
        own
    };
    if points.len() == 0 {
        return None;
    }
    let x: Binary64 = if kind == SignalKind::CpuTemp {
        value.minus(cfg.cpu_temp.offset_c)
    } else if kind == SignalKind::GpuPower && cfg.gpu_power.unit == PowerUnit::PercentTdp {
        match cond.gpu_power_limit_w {
            Some(limit) => {
                if !Binary64::from_u64(0).lt(limit) {
                    return None;
                }
                Binary64::from_u64(100).times(value).over(limit)
            },
            None => {
                return None;
            },
        }
    } else {
        value
    };
    Some(Candidate { kind, value, duty: interpolate(points, x) })
}

/// Folds the signals into one duty. The highest wins, and of two that are equal
/// the earlier signal. The floor only ever raises the target, and does so even
/// when no signal asks for anything.
pub fn fuse(
    cfg: &SignalsConfig,
    top_curve: &[CurvePoint],
    cond: &Conditioned,
    throttle_latched: bool,
) -> (f: Fusion)
    ensures
        forall|kind: SignalKind| #[trigger]
            f.candidates@[kind.rank()] == asked(*cfg, top_curve@, *cond, kind),
        f.target == fused_target(best(f.candidates@), active_floor(*cfg, throttle_latched)),
        f.winner == match best(f.candidates@) {
            Some(c) => Some(c.kind),
            None => None,
        },
        f.floor_applied == (active_floor(*cfg, throttle_latched) matches Some(floor) && floor
            > baseline(best(f.candidates@))),
        // Each signal asks by its own section of the configuration.
        f.candidates@[0] is Some ==> cfg.mem_temp.enabled && cond.values@[0] is Some,
        f.candidates@[0] matches Some(c) ==> c.kind == SignalKind::MemTemp && c.value
            == cond.values@[0]->0,
        f.candidates@[1] is Some ==> cfg.thermal_margin.enabled && cond.values@[1] is Some,
        f.candidates@[1] matches Some(c) ==> c.kind == SignalKind::ThermalMargin && c.value
            == cond.values@[1]->0,
        f.candidates@[2] is Some ==> cfg.gpu_temp.enabled && cond.values@[2] is Some,
        f.candidates@[2] matches Some(c) ==> c.kind == SignalKind::GpuTemp && c.value
            == cond.values@[2]->0,
        f.candidates@[3] is Some ==> cfg.gpu_power.enabled && cond.values@[3] is Some,
        f.candidates@[3] matches Some(c) ==> c.kind == SignalKind::GpuPower && c.value
            == cond.values@[3]->0,
        f.candidates@[4] is Some ==> cfg.cpu_temp.enabled && cond.values@[4] is Some,
        f.candidates@[4] matches Some(c) ==> c.kind == SignalKind::CpuTemp && c.value
            == cond.values@[4]->0,
        cfg.mem_temp.curve@.len() == 0 ==> f.candidates@[0] is None,
        cfg.mem_temp.enabled && cfg.mem_temp.curve@.len() > 0 ==> (cond.values@[0] matches Some(
            v,
        ) ==> (f.candidates@[0] matches Some(c) && c.duty == curve::interpolated(
            cfg.mem_temp.curve@,
            v@,
        ))),
        cfg.thermal_margin.curve@.len() == 0 ==> f.candidates@[1] is None,
        cfg.thermal_margin.enabled && cfg.thermal_margin.curve@.len() > 0 ==> (cond.values@[1] matches Some(
            v,
        ) ==> (f.candidates@[1] matches Some(c) && c.duty == curve::interpolated(
            cfg.thermal_margin.curve@,
            v@,
        ))),
        cfg.gpu_temp.enabled && cfg.gpu_temp.curve@.len() > 0 ==> (cond.values@[2] matches Some(
            v,
        ) ==> (f.candidates@[2] matches Some(c) && c.duty == curve::interpolated(
            cfg.gpu_temp.curve@,
            v@,
        ))),
        cfg.gpu_temp.enabled && cfg.gpu_temp.curve@.len() == 0 && top_curve@.len() > 0 ==> (
        cond.values@[2] matches Some(v) ==> (f.candidates@[2] matches Some(c) && c.duty
            == curve::interpolated(top_curve@, v@))),
        cfg.gpu_power.curve@.len() == 0 ==> f.candidates@[3] is None,
        cfg.gpu_power.enabled && cfg.gpu_power.curve@.len() > 0 && cfg.gpu_power.unit
            == PowerUnit::Watts ==> (cond.values@[3] matches Some(v) ==> (
        f.candidates@[3] matches Some(c) && c.duty == curve::interpolated(
            cfg.gpu_power.curve@,
            v@,
        ))),
        cfg.gpu_power.enabled && cfg.gpu_power.curve@.len() > 0 && cfg.gpu_power.unit
            == PowerUnit::PercentTdp ==> (cond.values@[3] matches Some(v) ==> (
        cond.gpu_power_limit_w matches Some(l) ==> (binary64::whole(0).below(l@) ==> (
        f.candidates@[3] matches Some(c) && c.duty == curve::interpolated(
            cfg.gpu_power.curve@,
            binary64::whole(100).product(v@).quotient(l@),
        ))))),
        cfg.gpu_power.unit == PowerUnit::PercentTdp && !(cond.gpu_power_limit_w matches Some(l)
            && binary64::whole(0).below(l@)) ==> f.candidates@[3] is None,
        cfg.cpu_temp.enabled && cfg.cpu_temp.curve@.len() > 0 ==> (cond.values@[4] matches Some(
            v,
        ) ==> (f.candidates@[4] matches Some(c) && c.duty == curve::interpolated(
            cfg.cpu_temp.curve@,
            v@.difference(cfg.cpu_temp.offset_c@),
        ))),
        cfg.cpu_temp.enabled && cfg.cpu_temp.curve@.len() == 0 && top_curve@.len() > 0 ==> (
        cond.values@[4] matches Some(v) ==> (f.candidates@[4] matches Some(c) && c.duty
            == curve::interpolated(top_curve@, v@.difference(cfg.cpu_temp.offset_c@)))),
        // The highest duty is the target, unless the floor is higher.
        f.target is None <==> (forall|k: int|
            0 <= k < 5 ==> (#[trigger] f.candidates@[k]) is None) && !(throttle_latched
            && cfg.throttle.enabled),
        forall|k: int|
            0 <= k < 5 && (#[trigger] f.candidates@[k]) is Some ==> (f.target matches Some(t) && t
                >= f.candidates@[k]->0.duty),
        throttle_latched && cfg.throttle.enabled ==> (f.target matches Some(t) && t
            >= cfg.throttle.floor_duty),
        f.target matches Some(t) ==> (throttle_latched && cfg.throttle.enabled && t
            == cfg.throttle.floor_duty) || exists|k: int|
            0 <= k < 5 && (#[trigger] f.candidates@[k]) is Some && f.candidates@[k]->0.duty == t,
        // The winner asks for the most, and comes first of those that do.
        f.winner is None <==> forall|k: int|
            0 <= k < 5 ==> (#[trigger] f.candidates@[k]) is None,
        f.winner matches Some(w) ==> exists|k: int| #[trigger]
            wins(f.candidates@, k) && f.candidates@[k]->0.kind == w && (forall|j: int|
                0 <= j < 5 && (#[trigger] f.candidates@[j]) is Some ==> f.candidates@[j]->0.duty
                    <= f.candidates@[k]->0.duty && (j < k ==> f.candidates@[j]->0.duty
                    < f.candidates@[k]->0.duty)),
        f.floor_applied <==> throttle_latched && cfg.throttle.enabled && cfg.throttle.floor_duty
            > 0 && forall|k: int|
            0 <= k < 5 && (#[trigger] f.candidates@[k]) is Some ==> f.candidates@[k]->0.duty
                < cfg.throttle.floor_duty,
{
    let mut candidates: [Option<Candidate>; 5] = [None, None, None, None, None];
    let mut i: usize = 0;
    let mut top: Option<Candidate> = None;
    let ghost mut place: int = 0;
    while i < 5
        invariant
            i <= 5,
            forall|k: int|
                0 <= k < i ==> #[trigger] candidates@[k] == asked(
                    *cfg,
                    top_curve@,
                    *cond,
                    SignalKind::nth(k),
                ),
            forall|k: int| i <= k < 5 ==> (#[trigger] candidates@[k]) is None,
            match top {
                Some(b) => wins(candidates@, place) && candidates@[place] == Some(b),
                None => forall|k: int| 0 <= k < 5 ==> (#[trigger] candidates@[k]) is None,
            },
        decreases 5 - i,
    {
        let c: Option<Candidate> = candidate(cfg, top_curve, cond, SignalKind::at(i));
        let ghost before = candidates@;
        candidates[i] = c;
        assert(candidates@ =~= before.update(i as int, c));
        match c {
            Some(new) => {
                let better: bool = match top {
                    Some(b) => new.duty > b.duty,
                    None => true,
                };
                if better {
                    top = Some(new);
                    proof {
                        place = i as int;
                    }
                }
            },
            None => {},
        }
        proof {
            if top is Some {
                assert(wins(candidates@, place));
            }
        }
        i = i + 1;
    }
    proof {
        if top is Some {
            let p = choose|p: int| wins(candidates@, p);
            assert(wins(candidates@, p));
            assert(p == place);
        } else if exists|p: int| wins(candidates@, p) {
            let p = choose|p: int| wins(candidates@, p);
            assert(wins(candidates@, p));
        }
        assert(best(candidates@) == top);
        assert forall|kind: SignalKind| #[trigger]
            candidates@[kind.rank()] == asked(*cfg, top_curve@, *cond, kind) by {
            assert(SignalKind::nth(kind.rank()) == kind);
        }
        assert(candidates@[SignalKind::MemTemp.rank()] == candidates@[0]);
        assert(candidates@[SignalKind::ThermalMargin.rank()] == candidates@[1]);
        assert(candidates@[SignalKind::GpuTemp.rank()] == candidates@[2]);
        assert(candidates@[SignalKind::GpuPower.rank()] == candidates@[3]);
        assert(candidates@[SignalKind::CpuTemp.rank()] == candidates@[4]);
        if top is Some {
            assert(wins(candidates@, place));
            assert(candidates@[place] is Some);
        }
    }
    let mut target: Option<u8> = match top {
        Some(c) => Some(c.duty),
        None => None,
    };
    let winner: Option<SignalKind> = match top {
        Some(c) => Some(c.kind),
        None => None,
    };
    let mut floor_applied: bool = false;
    if throttle_latched && cfg.throttle.enabled {
        let floor: u8 = cfg.throttle.floor_duty;
        let base: u8 = match top {
            Some(c) => c.duty,
            None => 0,
        };
        floor_applied = floor > base;
        target = Some(
            if floor > base {
                floor
            } else {
                base
            },
        );
    }
    Fusion { candidates, target, winner, floor_applied }
}

} // verus!
