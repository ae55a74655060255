//! Configuration: its parts, their defaults and what makes one acceptable.

use crate::binary64;
use crate::binary64::{Binary64, Number};
use crate::ordered::OrderedMap;
use crate::rgb::ColorStop;
use crate::text;
use crate::text::decimal;
use vstd::prelude::*;

verus! {

/// One point of a curve: an input value and the duty it maps to.
#[derive(Debug, Clone, Copy, PartialEq)]
pub struct CurvePoint {
    /// Where the point stands on the input axis: a temperature, a power or a
    /// thermal headroom.
    pub temp: Binary64,
    /// The duty, in percent.
    pub duty: u8,
}

/// The alarm ladder on the LEDs.
#[derive(Debug, Clone)]
pub struct AlertsConfig {
    pub enabled: bool,
    pub sustained_hot_c: Binary64,
    pub sustained_after_secs: u64,
    pub near_limit_margin_c: Binary64,
    pub escalate_every_secs: u64,
    pub cooldown_secs: u64,
    pub alert_color: [u8; 3],
    pub fault_colors: [[u8; 3]; 2],
}

/// Where the metrics are served.
#[derive(Debug, Clone)]
pub struct MetricsConfig {
    pub listen: String,
}

/// The LEDs.
#[derive(Debug, Clone)]
pub struct RgbConfig {
    pub enabled: bool,
    /// The number of fans chained to a channel that `fans` does not list.
    pub fans_per_channel: u8,
    /// The number of fans chained to a channel, by the channel's number as
    /// text.
    pub fans: OrderedMap<String, u8>,
    pub brightness: u8,
    pub buckets: u8,
    pub stops: Vec<ColorStop>,
    pub alerts: AlertsConfig,
}

/// A reason for which the GPU slows itself down.
#[derive(Debug, Clone, Copy, PartialEq, Eq, Structural)]
pub enum ThrottleReason {
    SwThermal,
    HwThermal,
    HwPowerBrake,
    SwPowerCap,
}

/// The unit of the input axis of the power curve.
#[derive(Debug, Clone, Copy, PartialEq, Eq, Structural)]
pub enum PowerUnit {
    Watts,
    PercentTdp,
}

/// GPU die temperature. Without a curve of its own it follows the top one.
#[derive(Debug, Clone)]
pub struct GpuTempConfig {
    pub enabled: bool,
    pub curve: Vec<CurvePoint>,
    pub alpha: Binary64,
}

/// CPU temperature. Without a curve of its own it follows the top one.
#[derive(Debug, Clone)]
pub struct CpuTempConfig {
    pub enabled: bool,
    pub curve: Vec<CurvePoint>,
    pub offset_c: Binary64,
    pub alpha: Binary64,
}

/// GPU power.
#[derive(Debug, Clone)]
pub struct GpuPowerConfig {
    pub enabled: bool,
    pub curve: Vec<CurvePoint>,
    pub unit: PowerUnit,
    pub rise_alpha: Binary64,
    pub fall_alpha: Binary64,
}

/// Headroom to the thermal limit.
#[derive(Debug, Clone)]
pub struct MarginConfig {
    pub enabled: bool,
    pub curve: Vec<CurvePoint>,
    pub alpha: Binary64,
}

/// Memory temperature.
#[derive(Debug, Clone)]
pub struct MemTempConfig {
    pub enabled: bool,
    pub curve: Vec<CurvePoint>,
    pub alpha: Binary64,
}

/// The duty floor while the GPU slows itself down.
#[derive(Debug, Clone)]
pub struct ThrottleConfig {
    pub enabled: bool,
    pub floor_duty: u8,
    pub hold_secs: u64,
    pub reasons: Vec<ThrottleReason>,
}

/// The signals that are folded into a duty.
#[derive(Debug, Clone)]
pub struct SignalsConfig {
    pub enabled: bool,
    pub rise_alpha: Binary64,
    pub fall_alpha: Binary64,
    pub gpu_temp: GpuTempConfig,
    pub cpu_temp: CpuTempConfig,
    pub gpu_power: GpuPowerConfig,
    pub thermal_margin: MarginConfig,
    pub mem_temp: MemTempConfig,
    pub throttle: ThrottleConfig,
}

/// The whole configuration.
#[derive(Debug, Clone)]
pub struct Config {
    pub poll_interval_secs: u64,
    pub channels: Vec<u8>,
    pub fallback_duty: u8,
    pub cpu_offset: Binary64,
    pub hysteresis_c: Binary64,
    pub min_duty_delta: u8,
    pub max_step_per_tick: u8,
    pub curve: Vec<CurvePoint>,
    pub metrics: MetricsConfig,
    pub rgb: RgbConfig,
    pub signals: SignalsConfig,
}

/// The number nearest to `n / d`.
pub open spec fn decimal_fraction(n: nat, d: nat) -> Number {
    binary64::whole(n).quotient(binary64::whole(d))
}

pub fn d_sustained_hot_c() -> (x: Binary64)
    ensures
        x@ == binary64::whole(75),
{
    Binary64::from_u64(75)
}

pub fn d_sustained_after_secs() -> (n: u64)
    ensures
        n == 120,
{
    120
}

pub fn d_near_limit_margin_c() -> (x: Binary64)
    ensures
        x@ == binary64::whole(3),
{
    Binary64::from_u64(3)
}

pub fn d_escalate_every_secs() -> (n: u64)
    ensures
        n == 30,
{
    30
}

pub fn d_cooldown_secs() -> (n: u64)
    ensures
        n == 60,
{
    60
}

pub fn d_alert_color() -> (c: [u8; 3])
    ensures
        c@ == seq![255u8, 0, 0],
{
    [255, 0, 0]
}

pub fn d_fault_colors() -> (c: [[u8; 3]; 2])
    ensures
        c@[0]@ == seq![255u8, 80, 0],
        c@[1]@ == seq![255u8, 0, 0],
{
    [[255, 80, 0], [255, 0, 0]]
}

pub fn d_poll() -> (n: u64)
    ensures
        n == 5,
{
    5
}

pub fn d_channels() -> (v: Vec<u8>)
    ensures
        v@ == seq![1u8, 2],
{
    vec![1, 2]
}

pub fn d_fallback() -> (n: u8)
    ensures
        n == 60,
{
    60
}

pub fn d_cpu_offset() -> (x: Binary64)
    ensures
        x@ == binary64::whole(10),
{
    Binary64::from_u64(10)
}

pub fn d_hysteresis() -> (x: Binary64)
    ensures
        x@ == binary64::whole(2),
{
    Binary64::from_u64(2)
}

pub fn d_min_delta() -> (n: u8)
    ensures
        n == 5,
{
    5
}

pub fn d_max_step() -> (n: u8)
    ensures
        n == 10,
{
    10
}

pub fn d_listen() -> (s: String)
    ensures
        s@ == "0.0.0.0:9877"@,
{
    "0.0.0.0:9877".to_owned()
}

/// Six is the longest chain. The hub leaves the fans dark that a shorter
/// declaration does not reach.
pub fn d_rgb_fans() -> (n: u8)
    ensures
        n == 6,
{
    6
}

pub fn d_rgb_brightness() -> (n: u8)
    ensures
        n == 0,
{
    0
}

pub fn d_rgb_buckets() -> (n: u8)
    ensures
        n == 8,
{
    8
}

pub fn d_true() -> (b: bool)
    ensures
        b,
{
    true
}

pub fn d_signal_alpha_one() -> (x: Binary64)
    ensures
        x@ == binary64::whole(1),
{
    Binary64::from_u64(1)
}

pub fn d_margin_alpha() -> (x: Binary64)
    ensures
        x@ == decimal_fraction(4, 10),
{
    Binary64::ratio(4, 10)
}

pub fn d_power_unit() -> (u: PowerUnit)
    ensures
        u == PowerUnit::Watts,
{
    PowerUnit::Watts
}

pub fn d_power_rise_alpha() -> (x: Binary64)
    ensures
        x@ == decimal_fraction(5, 10),
{
    Binary64::ratio(5, 10)
}

pub fn d_power_fall_alpha() -> (x: Binary64)
    ensures
        x@ == decimal_fraction(1, 10),
{
    Binary64::ratio(1, 10)
}

pub fn d_signals_rise_alpha() -> (x: Binary64)
    ensures
        x@ == decimal_fraction(5, 10),
{
    Binary64::ratio(5, 10)
}

pub fn d_signals_fall_alpha() -> (x: Binary64)
    ensures
        x@ == decimal_fraction(1, 10),
{
    Binary64::ratio(1, 10)
}

pub fn d_throttle_floor_duty() -> (n: u8)
    ensures
        n == 85,
{
    85
}

pub fn d_throttle_hold_secs() -> (n: u64)
    ensures
        n == 30,
{
    30
}

pub fn d_throttle_reasons() -> (v: Vec<ThrottleReason>)
    ensures
        v@ == seq![
            ThrottleReason::SwThermal,
            ThrottleReason::HwThermal,
            ThrottleReason::HwPowerBrake,
        ],
{
    vec![ThrottleReason::SwThermal, ThrottleReason::HwThermal, ThrottleReason::HwPowerBrake]
}

/// Whether a stop has a duty and a color.
pub open spec fn stop_is(s: ColorStop, duty: u8, r: u8, g: u8, b: u8) -> bool {
    s.duty == duty && s.color@ == seq![r, g, b]
}

/// From blue over green and yellow to red.
pub open spec fn default_stops(v: Seq<ColorStop>) -> bool {
    &&& v.len() == 5
    &&& stop_is(v[0], 30, 0, 0, 255)
    &&& stop_is(v[1], 50, 0, 255, 0)
    &&& stop_is(v[2], 75, 255, 255, 0)
    &&& stop_is(v[3], 90, 255, 128, 0)
    &&& stop_is(v[4], 100, 255, 0, 0)
}

pub fn d_rgb_stops() -> (v: Vec<ColorStop>)
    ensures
        default_stops(v@),
{
    vec![
        ColorStop { duty: 30, color: [0, 0, 255] },
        ColorStop { duty: 50, color: [0, 255, 0] },
        ColorStop { duty: 75, color: [255, 255, 0] },
        ColorStop { duty: 90, color: [255, 128, 0] },
        ColorStop { duty: 100, color: [255, 0, 0] },
    ]
}

impl AlertsConfig {
    /// The defaults, field by field.
    pub open spec fn is_default(self) -> bool {
        &&& !self.enabled
        &&& self.sustained_hot_c@ == binary64::whole(75)
        &&& self.sustained_after_secs == 120
        &&& self.near_limit_margin_c@ == binary64::whole(3)
        &&& self.escalate_every_secs == 30
        &&& self.cooldown_secs == 60
        &&& self.alert_color@ == seq![255u8, 0, 0]
        &&& self.fault_colors@[0]@ == seq![255u8, 80, 0]
        &&& self.fault_colors@[1]@ == seq![255u8, 0, 0]
    }
}

impl Default for AlertsConfig {
    fn default() -> (c: Self)
        ensures
            c.is_default(),
    {
        AlertsConfig {
            enabled: false,
            sustained_hot_c: d_sustained_hot_c(),
            sustained_after_secs: d_sustained_after_secs(),
            near_limit_margin_c: d_near_limit_margin_c(),
            escalate_every_secs: d_escalate_every_secs(),
            cooldown_secs: d_cooldown_secs(),
            alert_color: d_alert_color(),
            fault_colors: d_fault_colors(),
        }
    }
}

impl Default for MetricsConfig {
    fn default() -> (c: Self)
        ensures
            c.listen@ == "0.0.0.0:9877"@,
    {
        MetricsConfig { listen: d_listen() }
    }
}

impl RgbConfig {
    /// The defaults, field by field.
    pub open spec fn is_default(self) -> bool {
        &&& !self.enabled
        &&& self.fans_per_channel == 6
        &&& self.fans.wf()
        &&& self.fans.entries().len() == 0
        &&& self.brightness == 0
        &&& self.buckets == 8
        &&& default_stops(self.stops@)
        &&& self.alerts.is_default()
    }
}

impl Default for RgbConfig {
    fn default() -> (c: Self)
        ensures
            c.is_default(),
    {
        RgbConfig {
            enabled: false,
            fans_per_channel: d_rgb_fans(),
            fans: OrderedMap::new(),
            brightness: d_rgb_brightness(),
            buckets: d_rgb_buckets(),
            stops: d_rgb_stops(),
            alerts: AlertsConfig::default(),
        }
    }
}

impl Default for PowerUnit {
    fn default() -> (u: Self)
        ensures
            u == PowerUnit::Watts,
    {
        PowerUnit::Watts
    }
}

impl GpuTempConfig {
    /// The defaults, field by field.
    pub open spec fn is_default(self) -> bool {
        self.enabled && self.curve@.len() == 0 && self.alpha@ == binary64::whole(1)
    }
}

impl Default for GpuTempConfig {
    fn default() -> (c: Self)
        ensures
            c.is_default(),
    {
        GpuTempConfig { enabled: d_true(), curve: Vec::new(), alpha: d_signal_alpha_one() }
    }
}

impl CpuTempConfig {
    /// The defaults, field by field.
    pub open spec fn is_default(self) -> bool {
        &&& self.enabled
        &&& self.curve@.len() == 0
        &&& self.offset_c@ == binary64::whole(10)
        &&& self.alpha@ == binary64::whole(1)
    }
}

impl Default for CpuTempConfig {
    fn default() -> (c: Self)
        ensures
            c.is_default(),
    {
        CpuTempConfig {
            enabled: d_true(),
            curve: Vec::new(),
            offset_c: d_cpu_offset(),
            alpha: d_signal_alpha_one(),
        }
    }
}

impl GpuPowerConfig {
    /// The defaults, field by field.
    pub open spec fn is_default(self) -> bool {
        &&& !self.enabled
        &&& self.curve@.len() == 0
        &&& self.unit == PowerUnit::Watts
        &&& self.rise_alpha@ == decimal_fraction(5, 10)
        &&& self.fall_alpha@ == decimal_fraction(1, 10)
    }
}

impl Default for GpuPowerConfig {
    fn default() -> (c: Self)
        ensures
            c.is_default(),
    {
        GpuPowerConfig {
            enabled: false,
            curve: Vec::new(),
            unit: d_power_unit(),
            rise_alpha: d_power_rise_alpha(),
            fall_alpha: d_power_fall_alpha(),
        }
    }
}

impl MarginConfig {
    /// The defaults, field by field.
    pub open spec fn is_default(self) -> bool {
        !self.enabled && self.curve@.len() == 0 && self.alpha@ == decimal_fraction(4, 10)
    }
}

impl Default for MarginConfig {
    fn default() -> (c: Self)
        ensures
            c.is_default(),
    {
        MarginConfig { enabled: false, curve: Vec::new(), alpha: d_margin_alpha() }
    }
}

impl MemTempConfig {
    /// The defaults, field by field.
    pub open spec fn is_default(self) -> bool {
        !self.enabled && self.curve@.len() == 0 && self.alpha@ == binary64::whole(1)
    }
}

impl Default for MemTempConfig {
    fn default() -> (c: Self)
        ensures
            c.is_default(),
    {
        MemTempConfig { enabled: false, curve: Vec::new(), alpha: d_signal_alpha_one() }
    }
}

impl ThrottleConfig {
    /// The defaults, field by field.
    pub open spec fn is_default(self) -> bool {
        &&& !self.enabled
        &&& self.floor_duty == 85
        &&& self.hold_secs == 30
        &&& self.reasons@ == seq![
            ThrottleReason::SwThermal,
            ThrottleReason::HwThermal,
            ThrottleReason::HwPowerBrake,
        ]
    }
}

impl Default for ThrottleConfig {
    fn default() -> (c: Self)
        ensures
            c.is_default(),
    {
        ThrottleConfig {
            enabled: false,
            floor_duty: d_throttle_floor_duty(),
            hold_secs: d_throttle_hold_secs(),
            reasons: d_throttle_reasons(),
        }
    }
}

impl SignalsConfig {
    /// The defaults, field by field.
    pub open spec fn is_default(self) -> bool {
        &&& !self.enabled
        &&& self.rise_alpha@ == decimal_fraction(5, 10)
        &&& self.fall_alpha@ == decimal_fraction(1, 10)
        &&& self.gpu_temp.is_default()
        &&& self.cpu_temp.is_default()
        &&& self.gpu_power.is_default()
        &&& self.thermal_margin.is_default()
        &&& self.mem_temp.is_default()
        &&& self.throttle.is_default()
    }
}

impl Default for SignalsConfig {
    fn default() -> (c: Self)
        ensures
            c.is_default(),
    {
        SignalsConfig {
            enabled: false,
            rise_alpha: d_signals_rise_alpha(),
            fall_alpha: d_signals_fall_alpha(),
            gpu_temp: GpuTempConfig::default(),
            cpu_temp: CpuTempConfig::default(),
            gpu_power: GpuPowerConfig::default(),
            thermal_margin: MarginConfig::default(),
            mem_temp: MemTempConfig::default(),
            throttle: ThrottleConfig::default(),
        }
    }
}

impl RgbConfig {
    /// The number of fans declared for `channel`: its own entry, else the
    /// common number.
    pub open spec fn fans_on(self, channel: u8) -> u8 {
        let key = text::decimal_text(channel as nat);
        if self.fans@.contains_key(key) {
            self.fans@[key]
        } else {
            self.fans_per_channel
        }
    }

    /// The number of fans to declare to the hub for `channel`. The hub lights
    /// no more fans than that.
    pub fn fans_for_channel(&self, channel: u8) -> (n: u8)
        requires
            self.fans.wf(),
        ensures
            n == self.fans_on(channel),
    {
        match self.fans.get(&decimal(channel as u64)) {
            Some(n) => *n,
            None => self.fans_per_channel,
        }
    }
}

} // verus!
