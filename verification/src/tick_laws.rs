//! What holds of every tick.

use crate::alarm::AlarmInputs;
use crate::config::Config;
use crate::control::SensorRead;
use crate::daemon::Tick;
use crate::tick;
use crate::tick::{Event, Request, TickMachine};
use vstd::prelude::*;

verus! {

/// How much of a tick is left.
pub open spec fn stages_left(r: Request) -> int {
    match r {
        Request::ReadSensors => 9,
        Request::WriteDuty { .. } => 8,
        Request::WriteLeds { .. } => 7,
        Request::MeasureElapsed => 6,
        Request::ReadSpeeds => 5,
        Request::ReopenHub => 4,
        Request::Reassert { .. } => 3,
        Request::FindCpu => 2,
        Request::FindGpu => 1,
        Request::Rest => 0,
    }
}

/// Every answer brings the tick nearer to its end, so a tick never goes round
/// in itself, whatever the hardware answers.
pub proof fn law_tick_ends(m: TickMachine, cfg: Config, event: Event, t: Tick)
    requires
        tick::answers(m.pending, event),
        !(m.pending is Rest),
    ensures
        stages_left(m.next(cfg, event, t).pending) < stages_left(m.pending),
{
}

/// No tick passes over the speeds: a hub that has stopped answering is noticed
/// even while no duty is written to it.
pub proof fn law_speeds_are_read_in_every_tick(m: TickMachine, cfg: Config, event: Event, t: Tick)
    requires
        tick::answers(m.pending, event),
        stages_left(m.pending) > stages_left(Request::ReadSpeeds),
    ensures
        stages_left(m.next(cfg, event, t).pending) >= stages_left(Request::ReadSpeeds),
{
}

/// With an alarm ladder, no tick passes over it.
pub proof fn law_alarm_advances_in_every_tick(m: TickMachine, cfg: Config, event: Event, t: Tick)
    requires
        m.state.alarm is Some,
        tick::answers(m.pending, event),
        stages_left(m.pending) > stages_left(Request::MeasureElapsed),
    ensures
        stages_left(m.next(cfg, event, t).pending) >= stages_left(Request::MeasureElapsed),
        m.next(cfg, event, t).state.alarm is Some,
{
}

/// A duty that is decided on is the next thing written.
pub proof fn law_decision_is_written(
    m: TickMachine,
    cfg: Config,
    cpu: SensorRead,
    gpu: SensorRead,
    t: Tick,
    duty: u8,
)
    requires
        m.pending is ReadSensors,
        t.decision == Some(duty),
    ensures
        m.next(cfg, Event::Sensors { cpu, gpu }, t).pending == (Request::WriteDuty { duty }),
{
}

/// With every sensor lost, the fallback duty is the next thing written.
pub proof fn law_lost_sensors_write_fallback(
    m: TickMachine,
    cfg: Config,
    cpu: SensorRead,
    gpu: SensorRead,
    t: Tick,
)
    requires
        m.pending is ReadSensors,
        m.leads_to(cfg, cpu, gpu, t),
        cpu.value() is None,
        gpu.value() is None,
    ensures
        t.fallback_active,
        m.next(cfg, Event::Sensors { cpu, gpu }, t).pending == (Request::WriteDuty {
            duty: cfg.fallback_duty,
        }),
{
}

/// The tick of a failed duty write leaves the LEDs alone.
pub proof fn law_failed_write_skips_leds(m: TickMachine, cfg: Config, t: Tick)
    requires
        m.pending is WriteDuty,
    ensures
        !(m.next(cfg, Event::Written { all_ok: false }, t).pending is WriteLeds),
        m.next(cfg, Event::Written { all_ok: false }, t).state.last_led == m.state.last_led,
        m.next(cfg, Event::Written { all_ok: false }, t).state.last_bucket == m.state.last_bucket,
{
}

/// A duty that is held does not keep the LEDs from following the alarm.
pub proof fn law_held_duty_still_lights(
    m: TickMachine,
    cfg: Config,
    cpu: SensorRead,
    gpu: SensorRead,
    t: Tick,
)
    requires
        m.pending is ReadSensors,
        t.decision is None,
        !(m.state.observed(cfg, cpu, gpu, t.control_temp).led_plan(cfg, false) is Nothing),
    ensures
        m.next(cfg, Event::Sensors { cpu, gpu }, t).pending is WriteLeds,
{
}

/// The hub is found again exactly when it has failed three times without a
/// success between.
pub proof fn law_reopening_needs_three_errors(m: TickMachine, cfg: Config, failed: bool, t: Tick)
    requires
        m.pending is ReadSpeeds,
        m.state.has_room(),
    ensures
        m.next(cfg, Event::SpeedsRead { failed }, t).pending is ReopenHub <==> (
        m.state.consecutive_errors + (if failed {
            1int
        } else {
            0int
        })) >= 3,
{
}

/// A hub that was found again is told the duty decided last, at once.
pub proof fn law_reopened_hub_is_told_the_duty(m: TickMachine, cfg: Config, t: Tick, duty: u8)
    requires
        m.pending is ReopenHub,
        m.state.last_applied == Some(duty),
    ensures
        m.next(cfg, Event::Reopened { ok: true }, t).pending == (Request::Reassert { duty }),
        m.next(cfg, Event::Reopened { ok: true }, t).state.last_bucket is None,
        m.next(cfg, Event::Reopened { ok: true }, t).state.last_led is None,
{
}

/// A hub that could not be found, or did not take its duty, is looked for again
/// in the next tick.
pub proof fn law_lost_hub_is_looked_for_again(m: TickMachine, cfg: Config, t: Tick)
    requires
        m.state.consecutive_errors >= 3,
        m.state.has_room(),
    ensures
        m.pending is ReopenHub ==> m.next(
            cfg,
            Event::Reopened { ok: false },
            t,
        ).state.consecutive_errors >= 3,
        m.pending is Reassert ==> m.next(
            cfg,
            Event::Written { all_ok: false },
            t,
        ).state.consecutive_errors >= 3,
{
}

/// Only writing a duty, reading the speeds and finding the hub again touch the
/// count of errors; lighting the LEDs never does.
pub proof fn law_leds_never_count_as_errors(m: TickMachine, cfg: Config, all_ok: bool, t: Tick)
    requires
        m.pending is WriteLeds,
    ensures
        m.next(cfg, Event::Written { all_ok }, t).state.consecutive_errors
            == m.state.consecutive_errors,
        m.next(cfg, Event::Written { all_ok }, t).state.ctl == m.state.ctl,
        m.next(cfg, Event::Written { all_ok }, t).state.last_applied == m.state.last_applied,
{
}

/// Which sensor is looked for at the end of a tick: the CPU's first, then the
/// GPU, each if it is absent or its last three reads failed, and if twelve ticks
/// have passed since it was last looked for.
pub proof fn law_sensors_are_looked_for_in_turn(
    m: TickMachine,
    cfg: Config,
    failed: bool,
    found: bool,
    t: Tick,
)
    requires
        m.state.has_room(),
    ensures
        ({
            let cpu = m.state.ticks_since_cpu_probe >= 12 && (!m.cpu_present
                || m.state.cpu_fail_streak >= 3);
            let gpu = m.state.ticks_since_gpu_probe >= 12 && (!m.gpu_present
                || m.state.gpu_fail_streak >= 3);
            let end = m.next(cfg, Event::SpeedsRead { failed }, t);
            let later = m.next(cfg, Event::Looked { found }, t);
            let errors = m.state.consecutive_errors + (if failed {
                1int
            } else {
                0int
            });
            &&& m.pending is ReadSpeeds && errors < 3 ==> {
                &&& end.pending is FindCpu <==> cpu
                &&& end.pending is FindGpu <==> !cpu && gpu
                &&& end.pending is Rest <==> !cpu && !gpu
                &&& end.state.ticks_since_cpu_probe == if cpu {
                    0
                } else {
                    m.state.ticks_since_cpu_probe + 1
                }
            }
            &&& m.pending is FindCpu ==> {
                &&& later.pending is FindGpu <==> gpu
                &&& later.pending is Rest <==> !gpu
                &&& found ==> later.state.cpu_fail_streak == 0
                &&& !found ==> later.state.cpu_fail_streak == m.state.cpu_fail_streak
                &&& later.state.ticks_since_gpu_probe == if gpu {
                    0
                } else {
                    m.state.ticks_since_gpu_probe + 1
                }
            }
            &&& m.pending is FindGpu ==> {
                &&& later.pending is Rest
                &&& found ==> later.state.gpu_fail_streak == 0
                &&& !found ==> later.state.gpu_fail_streak == m.state.gpu_fail_streak
            }
        }),
{
}

/// A sensor that is there, failing or not, counts as present; the failing ones
/// are counted.
pub proof fn law_presence_of_sensors(
    m: TickMachine,
    cfg: Config,
    cpu: SensorRead,
    gpu: SensorRead,
    t: Tick,
)
    requires
        m.pending is ReadSensors,
        m.state.has_room(),
    ensures
        ({
            let end = m.next(cfg, Event::Sensors { cpu, gpu }, t);
            &&& end.cpu_present <==> !(cpu is Absent)
            &&& end.gpu_present <==> !(gpu is Absent)
            &&& cpu is Failed ==> end.state.cpu_fail_streak == m.state.cpu_fail_streak + 1
            &&& gpu is Failed ==> end.state.gpu_fail_streak == m.state.gpu_fail_streak + 1
            &&& cpu is Value ==> end.state.cpu_fail_streak == 0
            &&& gpu is Value ==> end.state.gpu_fail_streak == 0
            &&& end.tick == t
        }),
{
}

/// The ladder sees the temperature of this tick, the duty decided on last and
/// whether the sensors are lost, and the seconds that were measured.
pub proof fn law_ladder_sees_the_tick(m: TickMachine, cfg: Config, secs: u64, t: Tick)
    requires
        m.pending is MeasureElapsed,
    ensures
        ({
            let end = m.next(cfg, Event::Elapsed { secs }, t);
            &&& end.pending is ReadSpeeds
            &&& m.state.alarm matches Some(a) ==> end.state.alarm == Some(
                a.after(
                    AlarmInputs {
                        control_temp: m.tick.control_temp,
                        duty: match m.state.last_applied {
                            Some(d) => d,
                            None => 0,
                        },
                        fallback_active: m.tick.fallback_active,
                    },
                    secs,
                ),
            )
        }),
{
}

/// How the errors of the hub are counted: one for a tick with a failed duty
/// write, one for a tick with a failed read of a speed, none any more after a
/// duty was written everywhere. Finding the hub again does not by itself end the
/// count, unless there is no duty to tell it.
pub proof fn law_errors_of_the_hub(m: TickMachine, cfg: Config, t: Tick)
    requires
        m.state.has_room(),
    ensures
        m.pending is WriteDuty || m.pending is Reassert ==> {
            &&& m.next(cfg, Event::Written { all_ok: true }, t).state.consecutive_errors == 0
            &&& m.next(cfg, Event::Written { all_ok: false }, t).state.consecutive_errors
                == m.state.consecutive_errors + 1
        },
        m.pending is ReadSpeeds ==> {
            &&& m.next(cfg, Event::SpeedsRead { failed: false }, t).state.consecutive_errors
                == m.state.consecutive_errors
            &&& m.next(cfg, Event::SpeedsRead { failed: true }, t).state.consecutive_errors
                == m.state.consecutive_errors + 1
        },
        m.pending is ReopenHub ==> {
            &&& m.next(cfg, Event::Reopened { ok: false }, t).state.consecutive_errors
                == m.state.consecutive_errors
            &&& m.state.last_applied is Some ==> m.next(
                cfg,
                Event::Reopened { ok: true },
                t,
            ).state.consecutive_errors == m.state.consecutive_errors
            &&& m.state.last_applied is None ==> m.next(
                cfg,
                Event::Reopened { ok: true },
                t,
            ).state.consecutive_errors == 0
        },
{
}

/// A tick that is over starts the next one with the sensors, and a duty that was
/// written everywhere goes on to the LEDs or what comes after them.
pub proof fn law_ticks_follow_each_other(m: TickMachine, cfg: Config, t: Tick)
    ensures
        m.pending is Rest ==> m.next(cfg, Event::Rested, t) == (TickMachine {
            pending: Request::ReadSensors,
            ..m
        }),
        m.pending is WriteLeds && m.state.alarm is Some ==> m.next(
            cfg,
            Event::Written { all_ok: true },
            t,
        ).pending is MeasureElapsed,
        m.pending is WriteLeds && m.state.alarm is None ==> m.next(
            cfg,
            Event::Written { all_ok: true },
            t,
        ).pending is ReadSpeeds,
        m.pending is WriteDuty && !cfg.rgb.enabled && m.state.alarm is None ==> m.next(
            cfg,
            Event::Written { all_ok: true },
            t,
        ).pending is ReadSpeeds,
{
}

} // verus!
