//! The control loop, without its input and output: what each answer of the
//! hardware leads to.
//!
//! A tick goes: look at the sensors, write the duty, light the LEDs, advance
//! the alarm ladder, read the speeds, find the hub again if it stopped
//! answering, find missing sensors again.

use crate::alarm;
use crate::alarm::{AlarmInputs, AlarmMachine, LedCommand};
use crate::binary64::Binary64;
use crate::config::{Config, RgbConfig};
use crate::config_laws;
use crate::control::{read_temps, SensorRead, TempReadings};
use crate::curve;
use crate::curve::Controller;
use crate::hid;
use crate::hid::{effect_speed_write, effect_writes, rgb_writes, HubWrite};
use crate::metrics::Metrics;
use crate::rgb;
use crate::rgb::{bucket, bucket_duty, duty_color, MODE_BREATHING, MODE_RUNWAY, SPEEDS};
use crate::sensors;
use crate::sensors::{control_temp, should_reprobe, REDISCOVERY_INTERVAL_TICKS};
use crate::signals;
use vstd::prelude::*;

verus! {

/// What the loop remembers from tick to tick.
pub struct ControlLoop {
    pub ctl: Controller,
    /// Failures of the hub since it last answered well.
    pub consecutive_errors: u32,
    /// The duty decided last, whether or not it could be written.
    pub last_applied: Option<u8>,
    /// The bin of the duty whose color the LEDs show. None makes the color be
    /// written again.
    pub last_bucket: Option<u8>,
    /// The animation that the LEDs show. None stands for the plain gradient, or
    /// for nothing written yet.
    pub last_led: Option<LedCommand>,
    /// The alarm ladder, if the LEDs are on.
    pub alarm: Option<AlarmMachine>,
    pub cpu_fail_streak: u32,
    pub gpu_fail_streak: u32,
    pub ticks_since_cpu_probe: u32,
    pub ticks_since_gpu_probe: u32,
}

/// What a look at the sensors led to.
#[derive(Debug, Clone, Copy)]
pub struct Tick {
    pub control_temp: Option<Binary64>,
    pub degraded: bool,
    /// Whether every sensor is lost.
    pub fallback_active: bool,
    /// The duty to write, if it is to change.
    pub decision: Option<u8>,
}

/// What to do with the LEDs.
#[derive(Debug, Clone, Copy)]
pub enum LedAction {
    Nothing,
    /// Show the color of a duty's bin.
    Gradient { bucket: u8, color: (u8, u8, u8) },
    /// Show an animation. If only its speed differs from the one shown, the
    /// speed alone is written.
    Animate { command: LedCommand, speed_only: bool },
}

/// Whether two animations are the same.
fn same_command(a: LedCommand, b: LedCommand) -> (r: bool)
    ensures
        r == (a == b),
{
    match (a, b) {
        (
            LedCommand::Breathing { color: c1, speed_idx: s1 },
            LedCommand::Breathing { color: c2, speed_idx: s2 },
        ) => c1.0 == c2.0 && c1.1 == c2.1 && c1.2 == c2.2 && s1 == s2,
        (
            LedCommand::Runway { colors: c1, speed_idx: s1 },
            LedCommand::Runway { colors: c2, speed_idx: s2 },
        ) => {
            let (p1, p2): ((u8, u8, u8), (u8, u8, u8)) = (c1[0], c1[1]);
            let (q1, q2): ((u8, u8, u8), (u8, u8, u8)) = (c2[0], c2[1]);
            let same: bool = p1.0 == q1.0 && p1.1 == q1.1 && p1.2 == q1.2 && p2.0 == q2.0 && p2.1
                == q2.1 && p2.2 == q2.2;
            proof {
                if same {
                    assert(c1@[0] == c2@[0] && c1@[1] == c2@[1]);
                    assert(c1 =~= c2);
                }
            }
            same && s1 == s2
        },
        _ => false,
    }
}

/// Whether only the speed differs between the animation shown and a new one.
pub open spec fn only_speed_differs(prev: Option<LedCommand>, cmd: LedCommand) -> bool {
    match (prev, cmd) {
        (
            Some(LedCommand::Breathing { color: c1, .. }),
            LedCommand::Breathing { color: c2, .. },
        ) => c1 == c2,
        _ => false,
    }
}

/// The animation to show for the one that the ladder asks for: sustained heat
/// breathes in the color of the duty's bin.
pub open spec fn tinted(cfg: RgbConfig, duty: u8, cmd: LedCommand) -> LedCommand {
    match cmd {
        LedCommand::Breathing { speed_idx, .. } => if speed_idx == 0 {
            let b = rgb::bucket_of(duty, cfg.buckets) as u8;
            LedCommand::Breathing {
                color: rgb::gradient(cfg.stops@, rgb::bucket_edge(b, cfg.buckets) as u8),
                speed_idx: 0,
            }
        } else {
            cmd
        },
        _ => cmd,
    }
}

/// Whether the speed of an animation is one of the five.
pub open spec fn has_speed(cmd: LedCommand) -> bool {
    match cmd {
        LedCommand::Breathing { speed_idx, .. } => speed_idx <= 4,
        LedCommand::Runway { speed_idx, .. } => speed_idx <= 4,
    }
}

/// A streak of failures after one more read. An absent sensor leaves it as it
/// was.
pub open spec fn streak_after(streak: u32, read: SensorRead) -> int {
    match read {
        SensorRead::Absent => streak as int,
        SensorRead::Failed => streak + 1,
        SensorRead::Value(_) => 0,
    }
}

fn next_streak(streak: u32, read: SensorRead) -> (n: u32)
    requires
        streak < u32::MAX,
    ensures
        n == streak_after(streak, read),
{
    match read {
        SensorRead::Absent => streak,
        SensorRead::Failed => streak + 1,
        SensorRead::Value(_) => 0,
    }
}

/// A duty, with zero for none.
pub open spec fn duty_or_zero(d: Option<u8>) -> u8 {
    match d {
        Some(d) => d,
        None => 0,
    }
}

fn shown_duty(d: Option<u8>) -> (n: u8)
    ensures
        n == duty_or_zero(d),
{
    match d {
        Some(d) => d,
        None => 0,
    }
}

impl ControlLoop {
    /// What holds of every loop that runs on `cfg`.
    pub open spec fn wf(self, cfg: Config) -> bool {
        &&& self.alarm is Some <==> cfg.rgb.enabled
        &&& self.alarm matches Some(a) ==> a.wf() && a.follows(
            cfg.rgb.alerts,
            cfg.curve@.last().temp@,
        )
        &&& self.ctl.last_duty matches Some(d) ==> d <= 100
        &&& self.last_applied matches Some(d) ==> d <= 100
        &&& self.ctl.max_step == cfg.max_step_per_tick
        &&& self.ctl.min_duty_delta == cfg.min_duty_delta
        &&& self.ctl.hysteresis_c == cfg.hysteresis_c
    }

    /// Whether nothing has happened yet.
    pub open spec fn is_fresh(self) -> bool {
        &&& self.ctl.last_duty is None
        &&& self.ctl.last_temp@ is NotANumber
        &&& self.consecutive_errors == 0
        &&& self.last_applied is None
        &&& self.last_bucket is None
        &&& self.last_led is None
        &&& self.alarm matches Some(a) ==> a.is_fresh()
        &&& self.cpu_fail_streak == 0
        &&& self.gpu_fail_streak == 0
        &&& self.ticks_since_cpu_probe == 0
        &&& self.ticks_since_gpu_probe == 0
    }

    /// Whether no counter can run over in the next step.
    pub open spec fn has_room(self) -> bool {
        &&& self.consecutive_errors < u32::MAX
        &&& self.cpu_fail_streak < u32::MAX
        &&& self.gpu_fail_streak < u32::MAX
        &&& self.ticks_since_cpu_probe < u32::MAX
        &&& self.ticks_since_gpu_probe < u32::MAX
    }

    /// Whether no counter can run over in the next step.
    pub fn can_step(&self) -> (b: bool)
        ensures
            b == self.has_room(),
    {
        self.consecutive_errors < u32::MAX && self.cpu_fail_streak < u32::MAX
            && self.gpu_fail_streak < u32::MAX && self.ticks_since_cpu_probe < u32::MAX
            && self.ticks_since_gpu_probe < u32::MAX
    }

    /// A loop that has not ticked yet.
    pub fn new(cfg: &Config) -> (l: ControlLoop)
        requires
            config_laws::accepted(*cfg),
        ensures
            l.wf(*cfg),
            l.has_room(),
            l.is_fresh(),
    {
        let alarm: Option<AlarmMachine> = if cfg.rgb.enabled {
            let last: Binary64 = cfg.curve[cfg.curve.len() - 1].temp;
            Some(AlarmMachine::new(&cfg.rgb.alerts, last))
        } else {
            None
        };
        ControlLoop {
            ctl: Controller::new(cfg.hysteresis_c, cfg.min_duty_delta, cfg.max_step_per_tick),
            consecutive_errors: 0,
            last_applied: None,
            last_bucket: None,
            last_led: None,
            alarm,
            cpu_fail_streak: 0,
            gpu_fail_streak: 0,
            ticks_since_cpu_probe: 0,
            ticks_since_gpu_probe: 0,
        }
    }

    /// The duty to write for a control temperature, if it is to change. Without
    /// a temperature it is the fallback duty.
    pub open spec fn decided(self, cfg: Config, control: Option<Binary64>) -> Option<u8> {
        match control {
            Some(x) => self.ctl.decision(curve::interpolated(cfg.curve@, x@), Some(x)),
            None => Some(cfg.fallback_duty),
        }
    }

    /// The loop after a look at the sensors.
    pub open spec fn observed(
        self,
        cfg: Config,
        cpu: SensorRead,
        gpu: SensorRead,
        control: Option<Binary64>,
    ) -> ControlLoop {
        ControlLoop {
            ctl: match control {
                Some(x) => self.ctl.after(curve::interpolated(cfg.curve@, x@), Some(x)),
                None => Controller { last_duty: Some(cfg.fallback_duty), ..self.ctl },
            },
            last_applied: match self.decided(cfg, control) {
                Some(d) => Some(d),
                None => self.last_applied,
            },
            cpu_fail_streak: streak_after(self.cpu_fail_streak, cpu) as u32,
            gpu_fail_streak: streak_after(self.gpu_fail_streak, gpu) as u32,
            ..self
        }
    }

    /// Looks at what the sensors gave and decides on the duty. Without any
    /// temperature, the fallback duty is taken at once, whatever the slew limit
    /// says.
    pub fn observe(&mut self, cfg: &Config, cpu: SensorRead, gpu: SensorRead) -> (t: Tick)
        requires
            config_laws::accepted(*cfg),
            old(self).wf(*cfg),
            old(self).has_room(),
        ensures
            final(self).wf(*cfg),
            (signals::number(t.control_temp), t.degraded) == sensors::control_number(
                signals::number(gpu.value()),
                signals::number(cpu.value()),
                cfg.cpu_offset@,
            ),
            t.fallback_active == (t.control_temp is None),
            t.decision == old(self).decided(*cfg, t.control_temp),
            t.decision matches Some(d) ==> d <= 100,
            *final(self) == old(self).observed(*cfg, cpu, gpu, t.control_temp),
    {
        self.cpu_fail_streak = next_streak(self.cpu_fail_streak, cpu);
        self.gpu_fail_streak = next_streak(self.gpu_fail_streak, gpu);
        let temps: TempReadings = read_temps(cpu, gpu);
        let (control_temp, degraded) = control_temp(temps.gpu, temps.cpu, cfg.cpu_offset);
        let mut fallback_active: bool = false;
        let decision: Option<u8> = match control_temp {
            Some(x) => {
                proof {
                    config_laws::law_accepted_curve_gives_percent(*cfg, x@);
                }
                self.ctl.decide(cfg.curve.as_slice(), x)
            },
            None => {
                fallback_active = true;
                self.ctl.force(cfg.fallback_duty);
                Some(cfg.fallback_duty)
            },
        };
        if let Some(d) = decision {
            self.last_applied = Some(d);
        }
        Tick { control_temp, degraded, fallback_active, decision }
    }

    /// The loop after a duty was written. Success ends a streak of errors.
    pub open spec fn after_duty(self, all_ok: bool) -> ControlLoop {
        ControlLoop {
            consecutive_errors: if all_ok {
                0
            } else {
                (self.consecutive_errors + 1) as u32
            },
            ..self
        }
    }

    /// Takes over whether the decided duty was written to every channel.
    pub fn duty_written(&mut self, all_ok: bool)
        requires
            all_ok || old(self).consecutive_errors < u32::MAX,
        ensures
            *final(self) == old(self).after_duty(all_ok),
    {
        if all_ok {
            self.consecutive_errors = 0;
        } else {
            self.consecutive_errors = self.consecutive_errors + 1;
        }
    }

    /// The animation that the alarm ladder asks for.
    pub open spec fn ladder_command(self) -> Option<LedCommand> {
        match self.alarm {
            Some(a) => a.command(),
            None => None,
        }
    }

    /// The loop before it lights the LEDs: back on the plain gradient, the
    /// animation is forgotten and the color is written again.
    pub open spec fn before_leds(self, cfg: Config, duty_write_failed: bool) -> ControlLoop {
        if cfg.rgb.enabled && !duty_write_failed && self.ladder_command() is None
            && self.last_led is Some {
            ControlLoop { last_led: None, last_bucket: None, ..self }
        } else {
            self
        }
    }

    /// What to do with the LEDs.
    pub open spec fn led_plan(self, cfg: Config, duty_write_failed: bool) -> LedAction {
        let duty = duty_or_zero(self.last_applied);
        if !cfg.rgb.enabled || duty_write_failed {
            LedAction::Nothing
        } else {
            match self.ladder_command() {
                None => {
                    let b = rgb::bucket_of(duty, cfg.rgb.buckets) as u8;
                    if self.before_leds(cfg, duty_write_failed).last_bucket == Some(b) {
                        LedAction::Nothing
                    } else {
                        LedAction::Gradient {
                            bucket: b,
                            color: rgb::gradient(cfg.rgb.stops@, duty),
                        }
                    }
                },
                Some(asked) => {
                    let command = tinted(cfg.rgb, duty, asked);
                    if self.last_led == Some(command) {
                        LedAction::Nothing
                    } else {
                        LedAction::Animate {
                            command,
                            speed_only: only_speed_differs(self.last_led, command),
                        }
                    }
                },
            }
        }
    }

    /// Decides what to do with the LEDs: nothing right after a failed duty
    /// write, nothing if they already show what they should.
    pub fn light(&mut self, cfg: &Config, duty_write_failed: bool) -> (a: LedAction)
        requires
            config_laws::accepted(*cfg),
            old(self).wf(*cfg),
        ensures
            final(self).wf(*cfg),
            *final(self) == old(self).before_leds(*cfg, duty_write_failed),
            a == old(self).led_plan(*cfg, duty_write_failed),
            a matches LedAction::Animate { command, .. } ==> has_speed(command),
    {
        if !cfg.rgb.enabled || duty_write_failed {
            return LedAction::Nothing;
        }
        proof {
            config_laws::law_accepted_stops(*cfg);
        }
        let duty: u8 = shown_duty(self.last_applied);
        let asked: Option<LedCommand> = match &self.alarm {
            Some(machine) => machine.led(),
            None => None,
        };
        match asked {
            None => {
                if self.last_led.is_some() {
                    self.last_led = None;
                    self.last_bucket = None;
                }
                let b: u8 = bucket(duty, cfg.rgb.buckets);
                let shown: bool = match self.last_bucket {
                    Some(x) => x == b,
                    None => false,
                };
                if shown {
                    LedAction::Nothing
                } else {
                    LedAction::Gradient {
                        bucket: b,
                        color: duty_color(cfg.rgb.stops.as_slice(), duty),
                    }
                }
            },
            Some(cmd) => {
                let command: LedCommand = match cmd {
                    LedCommand::Breathing { speed_idx, .. } => {
                        if speed_idx == 0 {
                            let b: u8 = bucket(duty, cfg.rgb.buckets);
                            let rep: u8 = bucket_duty(b, cfg.rgb.buckets);
                            let color: (u8, u8, u8) = duty_color(cfg.rgb.stops.as_slice(), rep);
                            LedCommand::Breathing { color, speed_idx: 0 }
                        } else {
                            cmd
                        }
                    },
                    _ => cmd,
                };
                let (shown, speed_only): (bool, bool) = match self.last_led {
                    Some(prev) => (
                        same_command(prev, command),
                        match (prev, command) {
                            (
                                LedCommand::Breathing { color: c1, .. },
                                LedCommand::Breathing { color: c2, .. },
                            ) => c1.0 == c2.0 && c1.1 == c2.1 && c1.2 == c2.2,
                            _ => false,
                        },
                    ),
                    None => (false, false),
                };
                if shown {
                    LedAction::Nothing
                } else {
                    LedAction::Animate { command, speed_only }
                }
            },
        }
    }

    /// The loop after an action was carried out, or failed.
    pub open spec fn after_leds(self, action: LedAction, all_ok: bool) -> ControlLoop {
        if !all_ok {
            self
        } else {
            match action {
                LedAction::Gradient { bucket, .. } => ControlLoop {
                    last_bucket: Some(bucket),
                    ..self
                },
                LedAction::Animate { command, .. } => ControlLoop {
                    last_led: Some(command),
                    ..self
                },
                LedAction::Nothing => self,
            }
        }
    }

    /// Takes over whether the LEDs of every channel could be written. After a
    /// failure they are written again on the next tick.
    pub fn leds_written(&mut self, action: &LedAction, all_ok: bool)
        ensures
            *final(self) == old(self).after_leds(*action, all_ok),
    {
        if all_ok {
            match *action {
                LedAction::Gradient { bucket, .. } => {
                    self.last_bucket = Some(bucket);
                },
                LedAction::Animate { command, .. } => {
                    self.last_led = Some(command);
                },
                LedAction::Nothing => {},
            }
        }
    }

    /// What the alarm ladder looks at on a tick.
    pub open spec fn alarm_inputs(self, t: Tick) -> AlarmInputs {
        AlarmInputs {
            control_temp: t.control_temp,
            duty: duty_or_zero(self.last_applied),
            fallback_active: t.fallback_active,
        }
    }

    /// The loop after the alarm ladder was advanced.
    pub open spec fn after_alarm(self, t: Tick, elapsed: u64) -> ControlLoop {
        match self.alarm {
            Some(a) => ControlLoop { alarm: Some(a.after(self.alarm_inputs(t), elapsed)), ..self },
            None => self,
        }
    }

    /// The step of the alarm ladder.
    pub open spec fn step(self) -> u8 {
        match self.alarm {
            Some(a) => a.state,
            None => 0,
        }
    }

    /// Advances the alarm ladder, `elapsed` seconds after the tick before.
    /// Gives the name of its step if it changed.
    pub fn advance_alarm(&mut self, t: &Tick, elapsed: u64) -> (name: Option<&'static str>)
        requires
            old(self).alarm matches Some(a) ==> a.wf(),
        ensures
            final(self).alarm matches Some(a) ==> a.wf(),
            *final(self) == old(self).after_alarm(*t, elapsed),
            match name {
                Some(s) => final(self).step() != old(self).step() && s@ == alarm::state_text(
                    final(self).step(),
                ),
                None => final(self).step() == old(self).step(),
            },
    {
        let inputs: AlarmInputs = AlarmInputs {
            control_temp: t.control_temp,
            duty: shown_duty(self.last_applied),
            fallback_active: t.fallback_active,
        };
        match self.alarm {
            Some(a) => {
                let mut machine: AlarmMachine = a;
                let name: Option<&'static str> = machine.tick(&inputs, elapsed);
                self.alarm = Some(machine);
                name
            },
            None => None,
        }
    }

    /// The step of the alarm ladder.
    pub fn led_state(&self) -> (n: u8)
        ensures
            n == self.step(),
    {
        match &self.alarm {
            Some(a) => a.state_code(),
            None => 0,
        }
    }

    /// The loop after the speeds were read.
    pub open spec fn after_rpms(self, failed: bool) -> ControlLoop {
        ControlLoop {
            consecutive_errors: if failed {
                (self.consecutive_errors + 1) as u32
            } else {
                self.consecutive_errors
            },
            ..self
        }
    }

    /// Takes over whether a speed could not be read. However many channels
    /// failed, a tick counts once.
    pub fn rpms_read(&mut self, failed: bool)
        requires
            old(self).consecutive_errors < u32::MAX,
        ensures
            *final(self) == old(self).after_rpms(failed),
    {
        if failed {
            self.consecutive_errors = self.consecutive_errors + 1;
        }
    }

    /// Whether the hub has failed so often that it has to be found again.
    pub fn must_reopen(&self) -> (b: bool)
        ensures
            b == (self.consecutive_errors >= 3),
    {
        self.consecutive_errors >= 3
    }

    /// The loop after the hub was found and set up again.
    pub open spec fn after_reopening(self) -> ControlLoop {
        ControlLoop {
            last_bucket: None,
            last_led: None,
            consecutive_errors: if self.last_applied is None {
                0
            } else {
                self.consecutive_errors
            },
            ..self
        }
    }

    /// Takes over that the hub was found and set up again. It has forgotten its
    /// colors and its duty; the duty to write to it at once, if one was ever
    /// decided, is given back.
    pub fn reopened(&mut self) -> (duty: Option<u8>)
        ensures
            duty == old(self).last_applied,
            *final(self) == old(self).after_reopening(),
    {
        self.last_bucket = None;
        self.last_led = None;
        if self.last_applied.is_none() {
            self.consecutive_errors = 0;
        }
        self.last_applied
    }

    /// Whether to look for the CPU sensor again in this tick.
    pub open spec fn probes_cpu(self, present: bool) -> bool {
        (!present || self.cpu_fail_streak >= 3) && self.ticks_since_cpu_probe
            >= REDISCOVERY_INTERVAL_TICKS
    }

    /// Whether to look for the GPU again in this tick.
    pub open spec fn probes_gpu(self, present: bool) -> bool {
        (!present || self.gpu_fail_streak >= 3) && self.ticks_since_gpu_probe
            >= REDISCOVERY_INTERVAL_TICKS
    }

    /// The loop after the question whether to look for the CPU again.
    pub open spec fn after_cpu_probe(self, present: bool) -> ControlLoop {
        ControlLoop {
            ticks_since_cpu_probe: if self.probes_cpu(present) {
                0
            } else {
                (self.ticks_since_cpu_probe + 1) as u32
            },
            ..self
        }
    }

    /// The loop after looking for the CPU.
    pub open spec fn with_cpu_found(self, found: bool) -> ControlLoop {
        if found {
            ControlLoop { cpu_fail_streak: 0, ..self }
        } else {
            self
        }
    }

    /// Decides whether to look for the CPU sensor again: one that is missing, or
    /// has failed three times in a row, and not too often.
    pub fn probe_cpu(&mut self, present: bool) -> (b: bool)
        requires
            old(self).ticks_since_cpu_probe < u32::MAX,
        ensures
            b == old(self).probes_cpu(present),
            *final(self) == old(self).after_cpu_probe(present),
            b <==> old(self).ticks_since_cpu_probe >= 12 && (!present || old(
                self,
            ).cpu_fail_streak >= 3),
            final(self).ticks_since_cpu_probe == if b {
                0
            } else {
                old(self).ticks_since_cpu_probe + 1
            },
    {
        if should_reprobe(
            !present || self.cpu_fail_streak >= 3,
            self.ticks_since_cpu_probe,
            REDISCOVERY_INTERVAL_TICKS,
        ) {
            self.ticks_since_cpu_probe = 0;
            true
        } else {
            self.ticks_since_cpu_probe = self.ticks_since_cpu_probe + 1;
            false
        }
    }

    /// Takes over that the CPU sensor was found.
    pub fn cpu_found(&mut self)
        ensures
            *final(self) == old(self).with_cpu_found(true),
    {
        self.cpu_fail_streak = 0;
    }

    /// The loop after the question whether to look for the GPU again.
    pub open spec fn after_gpu_probe(self, present: bool) -> ControlLoop {
        ControlLoop {
            ticks_since_gpu_probe: if self.probes_gpu(present) {
                0
            } else {
                (self.ticks_since_gpu_probe + 1) as u32
            },
            ..self
        }
    }

    /// The loop after looking for the GPU.
    pub open spec fn with_gpu_found(self, found: bool) -> ControlLoop {
        if found {
            ControlLoop { gpu_fail_streak: 0, ..self }
        } else {
            self
        }
    }

    /// Decides whether to look for the GPU again, by the same rule.
    pub fn probe_gpu(&mut self, present: bool) -> (b: bool)
        requires
            old(self).ticks_since_gpu_probe < u32::MAX,
        ensures
            b == old(self).probes_gpu(present),
            *final(self) == old(self).after_gpu_probe(present),
            b <==> old(self).ticks_since_gpu_probe >= 12 && (!present || old(
                self,
            ).gpu_fail_streak >= 3),
            final(self).ticks_since_gpu_probe == if b {
                0
            } else {
                old(self).ticks_since_gpu_probe + 1
            },
    {
        if should_reprobe(
            !present || self.gpu_fail_streak >= 3,
            self.ticks_since_gpu_probe,
            REDISCOVERY_INTERVAL_TICKS,
        ) {
            self.ticks_since_gpu_probe = 0;
            true
        } else {
            self.ticks_since_gpu_probe = self.ticks_since_gpu_probe + 1;
            false
        }
    }

    /// Takes over that the GPU was found.
    pub fn gpu_found(&mut self)
        ensures
            *final(self) == old(self).with_gpu_found(true),
    {
        self.gpu_fail_streak = 0;
    }
}

/// Takes over the temperatures of a tick.
pub fn record_tick(temps: &TempReadings, t: &Tick, m: &mut Metrics)
    requires
        old(m).wf(),
    ensures
        final(m).wf(),
        final(m).temps@ == with_temp(
            with_temp(with_temp(old(m).temps@, "gpu"@, temps.gpu), "cpu"@, temps.cpu),
            "control"@,
            t.control_temp,
        ),
        *final(m) == (Metrics {
            temps: final(m).temps,
            degraded: t.degraded,
            fallback_active: t.fallback_active,
            ..*old(m)
        }),
        temps.gpu matches Some(x) ==> final(m).temps@["gpu"@] == x,
        temps.cpu matches Some(x) ==> final(m).temps@["cpu"@] == x,
        t.control_temp matches Some(x) ==> final(m).temps@["control"@] == x,
        forall|source: Seq<char>|
            source != "gpu"@ && source != "cpu"@ && source != "control"@ ==> (
            #[trigger] final(m).temps@.contains_key(source) <==> old(m).temps@.contains_key(
                source,
            )),
{
    proof {
        reveal_strlit("gpu");
        reveal_strlit("cpu");
        reveal_strlit("control");
        assert("gpu"@[0] != "cpu"@[0]);
        assert("gpu"@.len() != "control"@.len());
        assert("cpu"@.len() != "control"@.len());
    }
    if let Some(x) = temps.gpu {
        m.set_temp("gpu", x);
    }
    if let Some(x) = temps.cpu {
        m.set_temp("cpu", x);
    }
    m.set_degraded(t.degraded);
    if let Some(x) = t.control_temp {
        m.set_temp("control", x);
    }
    m.set_fallback_active(t.fallback_active);
}

/// Temperatures with one more, if there is one.
pub open spec fn with_temp(
    temps: Map<Seq<char>, Binary64>,
    source: Seq<char>,
    t: Option<Binary64>,
) -> Map<Seq<char>, Binary64> {
    match t {
        Some(x) => temps.insert(source, x),
        None => temps,
    }
}

/// The writes that carry out an action on one channel.
pub open spec fn action_plan(cfg: Config, action: LedAction, channel: u8) -> Seq<hid::Write> {
    let fans = cfg.rgb.fans_on(channel);
    let brightness = cfg.rgb.brightness;
    match action {
        LedAction::Nothing => Seq::empty(),
        LedAction::Gradient { color, .. } => hid::rgb_plan(channel, fans, color, brightness),
        LedAction::Animate { command, speed_only } => match command {
            LedCommand::Breathing { color, speed_idx } => if speed_only {
                seq![
                    hid::commit_write(
                        channel,
                        MODE_BREATHING,
                        SPEEDS@[speed_idx as int],
                        brightness,
                        0,
                    ),
                ]
            } else {
                hid::effect_plan(
                    channel,
                    fans,
                    seq![color],
                    MODE_BREATHING,
                    SPEEDS@[speed_idx as int],
                    brightness,
                )
            },
            LedCommand::Runway { colors, speed_idx } => hid::effect_plan(
                channel,
                fans,
                colors@,
                MODE_RUNWAY,
                SPEEDS@[speed_idx as int],
                brightness,
            ),
        },
    }
}

/// The writes that carry out an action on one channel.
pub fn action_writes(cfg: &Config, action: &LedAction, channel: u8) -> (plan: Vec<HubWrite>)
    requires
        config_laws::accepted(*cfg),
        cfg.rgb.enabled,
        cfg.rgb.fans.wf(),
        cfg.channels@.contains(channel),
        *action matches LedAction::Animate { command, .. } ==> has_speed(command),
    ensures
        hid::writes(plan@) == action_plan(*cfg, *action, channel),
{
    proof {
        let i = choose|i: int| 0 <= i < cfg.channels@.len() && cfg.channels@[i] == channel;
        config_laws::law_accepted_channels_are_addressable(*cfg, i);
    }
    let fans: u8 = cfg.rgb.fans_for_channel(channel);
    let brightness: u8 = cfg.rgb.brightness;
    match *action {
        LedAction::Nothing => {
            let plan: Vec<HubWrite> = Vec::new();
            assert(hid::writes(plan@) =~= action_plan(*cfg, *action, channel));
            plan
        },
        LedAction::Gradient { color, .. } => rgb_writes(channel, fans, color, brightness),
        LedAction::Animate { command, speed_only } => match command {
            LedCommand::Breathing { color, speed_idx } => {
                let speed: u8 = SPEEDS[speed_idx as usize];
                if speed_only {
                    let mut plan: Vec<HubWrite> = Vec::new();
                    plan.push(effect_speed_write(channel, MODE_BREATHING, speed, brightness));
                    assert(hid::writes(plan@) =~= action_plan(*cfg, *action, channel));
                    plan
                } else {
                    let colors: [(u8, u8, u8); 1] = [color];
                    assert(colors@ =~= seq![color]);
                    effect_writes(channel, fans, &colors, MODE_BREATHING, speed, brightness)
                }
            },
            LedCommand::Runway { colors, speed_idx } => effect_writes(
                channel,
                fans,
                &colors,
                MODE_RUNWAY,
                SPEEDS[speed_idx as usize],
                brightness,
            ),
        },
    }
}

} // verus!
