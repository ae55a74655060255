//! The order of a tick: what is asked of the hardware next, given its answer to
//! what was asked before.

use crate::config::Config;
use crate::config_laws;
use crate::control::SensorRead;
use crate::daemon;
use crate::daemon::{ControlLoop, LedAction, Tick};
use crate::sensors;
use crate::signals;
use vstd::prelude::*;

verus! {

/// What is asked of the hardware.
#[derive(Debug, Clone, Copy)]
pub enum Request {
    /// Read both sensors.
    ReadSensors,
    /// Write a duty to every channel.
    WriteDuty { duty: u8 },
    /// Light every channel.
    WriteLeds { action: LedAction },
    /// Say how long ago this was last asked.
    MeasureElapsed,
    /// Read the speed of every channel.
    ReadSpeeds,
    /// Find the hub, open it and set it up.
    ReopenHub,
    /// Write the duty again to a hub that was found again.
    Reassert { duty: u8 },
    /// Look for the CPU sensor.
    FindCpu,
    /// Look for the GPU.
    FindGpu,
    /// Show life and wait for the next tick.
    Rest,
}

/// An answer of the hardware.
#[derive(Debug, Clone, Copy)]
pub enum Event {
    Sensors { cpu: SensorRead, gpu: SensorRead },
    /// Whether every channel could be written.
    Written { all_ok: bool },
    Elapsed { secs: u64 },
    /// Whether a speed could not be read.
    SpeedsRead { failed: bool },
    /// Whether the hub was found and set up.
    Reopened { ok: bool },
    /// Whether the sensor was found.
    Looked { found: bool },
    Rested,
}

/// The control loop within a tick.
pub struct TickMachine {
    pub state: ControlLoop,
    /// What is asked now.
    pub pending: Request,
    /// What the sensors last led to.
    pub tick: Tick,
    /// Whether the sensors were there when they were last read.
    pub cpu_present: bool,
    pub gpu_present: bool,
}

/// Whether an event answers a request.
pub open spec fn answers(request: Request, event: Event) -> bool {
    match request {
        Request::ReadSensors => event is Sensors,
        Request::WriteDuty { .. } => event is Written,
        Request::WriteLeds { .. } => event is Written,
        Request::MeasureElapsed => event is Elapsed,
        Request::ReadSpeeds => event is SpeedsRead,
        Request::ReopenHub => event is Reopened,
        Request::Reassert { .. } => event is Written,
        Request::FindCpu => event is Looked,
        Request::FindGpu => event is Looked,
        Request::Rest => event is Rested,
    }
}

impl TickMachine {
    /// What holds of every machine that runs on `cfg`.
    pub open spec fn wf(self, cfg: Config) -> bool {
        &&& self.state.wf(cfg)
        &&& self.pending matches Request::WriteDuty { duty } ==> duty <= 100
        &&& self.pending matches Request::Reassert { duty } ==> duty <= 100
        &&& self.pending matches Request::WriteLeds { action } ==> cfg.rgb.enabled && (
        action matches LedAction::Animate { command, .. } ==> daemon::has_speed(command))
    }

    /// The machine with something else asked.
    pub open spec fn asking(self, pending: Request) -> TickMachine {
        TickMachine { pending, ..self }
    }

    /// On to the LEDs.
    pub open spec fn lighting(self, cfg: Config, duty_write_failed: bool) -> TickMachine {
        let m = TickMachine {
            state: self.state.before_leds(cfg, duty_write_failed),
            ..self
        };
        match self.state.led_plan(cfg, duty_write_failed) {
            LedAction::Nothing => m.timing(),
            action => m.asking(Request::WriteLeds { action }),
        }
    }

    /// On to the alarm ladder, if there is one.
    pub open spec fn timing(self) -> TickMachine {
        if self.state.alarm is Some {
            self.asking(Request::MeasureElapsed)
        } else {
            self.asking(Request::ReadSpeeds)
        }
    }

    /// On to the CPU sensor.
    pub open spec fn probing(self) -> TickMachine {
        let m = TickMachine { state: self.state.after_cpu_probe(self.cpu_present), ..self };
        if self.state.probes_cpu(self.cpu_present) {
            m.asking(Request::FindCpu)
        } else {
            m.probing_gpu()
        }
    }

    /// On to the GPU.
    pub open spec fn probing_gpu(self) -> TickMachine {
        let m = TickMachine { state: self.state.after_gpu_probe(self.gpu_present), ..self };
        if self.state.probes_gpu(self.gpu_present) {
            m.asking(Request::FindGpu)
        } else {
            m.asking(Request::Rest)
        }
    }

    /// What the sensors lead to, given the control temperature found from them.
    pub open spec fn sensed(
        self,
        cfg: Config,
        cpu: SensorRead,
        gpu: SensorRead,
        tick: Tick,
    ) -> TickMachine {
        let m = TickMachine {
            state: self.state.observed(cfg, cpu, gpu, tick.control_temp),
            tick,
            cpu_present: !(cpu is Absent),
            gpu_present: !(gpu is Absent),
            ..self
        };
        match tick.decision {
            Some(duty) => m.asking(Request::WriteDuty { duty }),
            None => m.lighting(cfg, false),
        }
    }

    /// What an answer to what is asked leads to. Where the answer is that of
    /// the sensors, `tick` is what they led to.
    pub open spec fn next(self, cfg: Config, event: Event, tick: Tick) -> TickMachine {
        match (self.pending, event) {
            (Request::ReadSensors, Event::Sensors { cpu, gpu }) => self.sensed(cfg, cpu, gpu, tick),
            (Request::WriteDuty { .. }, Event::Written { all_ok }) => (TickMachine {
                state: self.state.after_duty(all_ok),
                ..self
            }).lighting(cfg, !all_ok),
            (Request::WriteLeds { action }, Event::Written { all_ok }) => (TickMachine {
                state: self.state.after_leds(action, all_ok),
                ..self
            }).timing(),
            (Request::MeasureElapsed, Event::Elapsed { secs }) => (TickMachine {
                state: self.state.after_alarm(self.tick, secs),
                ..self
            }).asking(Request::ReadSpeeds),
            (Request::ReadSpeeds, Event::SpeedsRead { failed }) => {
                let m = TickMachine { state: self.state.after_rpms(failed), ..self };
                if m.state.consecutive_errors >= 3 {
                    m.asking(Request::ReopenHub)
                } else {
                    m.probing()
                }
            },
            (Request::ReopenHub, Event::Reopened { ok }) => if ok {
                let m = TickMachine { state: self.state.after_reopening(), ..self };
                match self.state.last_applied {
                    Some(duty) => m.asking(Request::Reassert { duty }),
                    None => m.probing(),
                }
            } else {
                self.probing()
            },
            (Request::Reassert { .. }, Event::Written { all_ok }) => (TickMachine {
                state: self.state.after_duty(all_ok),
                ..self
            }).probing(),
            (Request::FindCpu, Event::Looked { found }) => (TickMachine {
                state: self.state.with_cpu_found(found),
                ..self
            }).probing_gpu(),
            (Request::FindGpu, Event::Looked { found }) => (TickMachine {
                state: self.state.with_gpu_found(found),
                ..self
            }).asking(Request::Rest),
            (Request::Rest, Event::Rested) => self.asking(Request::ReadSensors),
            _ => self,
        }
    }

    /// Whether a tick is what the sensors lead to from here.
    pub open spec fn leads_to(
        self,
        cfg: Config,
        cpu: SensorRead,
        gpu: SensorRead,
        tick: Tick,
    ) -> bool {
        &&& (signals::number(tick.control_temp), tick.degraded) == sensors::control_number(
            signals::number(gpu.value()),
            signals::number(cpu.value()),
            cfg.cpu_offset@,
        )
        &&& tick.fallback_active == (tick.control_temp is None)
        &&& tick.decision == self.state.decided(cfg, tick.control_temp)
    }

    /// A machine that first asks for the sensors.
    pub fn new(cfg: &Config) -> (m: TickMachine)
        requires
            config_laws::accepted(*cfg),
        ensures
            m.wf(*cfg),
            m.state.has_room(),
            m.pending is ReadSensors,
            m.state.is_fresh(),
            m.tick == (Tick {
                control_temp: None,
                degraded: false,
                fallback_active: false,
                decision: None,
            }),
            !m.cpu_present,
            !m.gpu_present,
    {
        TickMachine {
            state: ControlLoop::new(cfg),
            pending: Request::ReadSensors,
            tick: Tick {
                control_temp: None,
                degraded: false,
                fallback_active: false,
                decision: None,
            },
            cpu_present: false,
            gpu_present: false,
        }
    }

    fn go_on_to_timing(&mut self)
        ensures
            *final(self) == old(self).timing(),
    {
        if self.state.alarm.is_some() {
            self.pending = Request::MeasureElapsed;
        } else {
            self.pending = Request::ReadSpeeds;
        }
    }

    fn go_on_to_lighting(&mut self, cfg: &Config, duty_write_failed: bool)
        requires
            config_laws::accepted(*cfg),
            old(self).state.wf(*cfg),
        ensures
            final(self).wf(*cfg),
            *final(self) == old(self).lighting(*cfg, duty_write_failed),
    {
        match self.state.light(cfg, duty_write_failed) {
            LedAction::Nothing => {
                self.go_on_to_timing();
            },
            action => {
                self.pending = Request::WriteLeds { action };
            },
        }
    }

    fn go_on_to_gpu(&mut self)
        requires
            old(self).state.ticks_since_gpu_probe < u32::MAX,
        ensures
            *final(self) == old(self).probing_gpu(),
    {
        if self.state.probe_gpu(self.gpu_present) {
            self.pending = Request::FindGpu;
        } else {
            self.pending = Request::Rest;
        }
    }

    fn go_on_to_sensors(&mut self)
        requires
            old(self).state.ticks_since_cpu_probe < u32::MAX,
            old(self).state.ticks_since_gpu_probe < u32::MAX,
        ensures
            *final(self) == old(self).probing(),
    {
        if self.state.probe_cpu(self.cpu_present) {
            self.pending = Request::FindCpu;
        } else {
            self.go_on_to_gpu();
        }
    }

    /// Takes the answer to what is asked, and asks for the next thing.
    pub fn advance(&mut self, cfg: &Config, event: &Event) -> (r: Request)
        requires
            config_laws::accepted(*cfg),
            old(self).wf(*cfg),
            old(self).state.has_room(),
            answers(old(self).pending, *event),
        ensures
            final(self).wf(*cfg),
            r == final(self).pending,
            *final(self) == old(self).next(*cfg, *event, final(self).tick),
            *event matches Event::Sensors { cpu, gpu } ==> old(self).leads_to(
                *cfg,
                cpu,
                gpu,
                final(self).tick,
            ),
            !(*event is Sensors) ==> final(self).tick == old(self).tick,
    {
        match (self.pending, *event) {
            (Request::ReadSensors, Event::Sensors { cpu, gpu }) => {
                let tick: Tick = self.state.observe(cfg, cpu, gpu);
                self.tick = tick;
                self.cpu_present = match cpu {
                    SensorRead::Absent => false,
                    _ => true,
                };
                self.gpu_present = match gpu {
                    SensorRead::Absent => false,
                    _ => true,
                };
                match tick.decision {
                    Some(duty) => {
                        self.pending = Request::WriteDuty { duty };
                    },
                    None => {
                        self.go_on_to_lighting(cfg, false);
                    },
                }
            },
            (Request::WriteDuty { .. }, Event::Written { all_ok }) => {
                self.state.duty_written(all_ok);
                self.go_on_to_lighting(cfg, !all_ok);
            },
            (Request::WriteLeds { action }, Event::Written { all_ok }) => {
                self.state.leds_written(&action, all_ok);
                self.go_on_to_timing();
            },
            (Request::MeasureElapsed, Event::Elapsed { secs }) => {
                let tick: Tick = self.tick;
                self.state.advance_alarm(&tick, secs);
                self.pending = Request::ReadSpeeds;
            },
            (Request::ReadSpeeds, Event::SpeedsRead { failed }) => {
                self.state.rpms_read(failed);
                if self.state.must_reopen() {
                    self.pending = Request::ReopenHub;
                } else {
                    self.go_on_to_sensors();
                }
            },
            (Request::ReopenHub, Event::Reopened { ok }) => {
                if ok {
                    match self.state.reopened() {
                        Some(duty) => {
                            self.pending = Request::Reassert { duty };
                        },
                        None => {
                            self.go_on_to_sensors();
                        },
                    }
                } else {
                    self.go_on_to_sensors();
                }
            },
            (Request::Reassert { .. }, Event::Written { all_ok }) => {
                self.state.duty_written(all_ok);
                self.go_on_to_sensors();
            },
            (Request::FindCpu, Event::Looked { found }) => {
                if found {
                    self.state.cpu_found();
                }
                self.go_on_to_gpu();
            },
            (Request::FindGpu, Event::Looked { found }) => {
                if found {
                    self.state.gpu_found();
                }
                self.pending = Request::Rest;
            },
            (Request::Rest, Event::Rested) => {
                self.pending = Request::ReadSensors;
            },
            _ => {},
        }
        self.pending
    }
}

} // verus!
