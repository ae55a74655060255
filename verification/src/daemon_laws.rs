//! What holds of every run of the control loop.

use crate::alarm::LedCommand;
use crate::binary64::Binary64;
use crate::config::{Config, RgbConfig};
use crate::config_laws;
use crate::control::SensorRead;
use crate::curve;
use crate::daemon;
use crate::daemon::{ControlLoop, LedAction};
use crate::rgb;
use crate::sensors;
use crate::signals;
use vstd::prelude::*;

verus! {

/// With every sensor absent or failing, the fallback duty is decided on and
/// remembered, whatever the hysteresis and the slew limit say.
pub proof fn law_lost_sensors_force_fallback(
    l: ControlLoop,
    cfg: Config,
    cpu: SensorRead,
    gpu: SensorRead,
)
    requires
        cpu.value() is None,
        gpu.value() is None,
    ensures
        sensors::control_number(
            signals::number(gpu.value()),
            signals::number(cpu.value()),
            cfg.cpu_offset@,
        ).0 is None,
        l.decided(cfg, None) == Some(cfg.fallback_duty),
        l.observed(cfg, cpu, gpu, None).last_applied == Some(cfg.fallback_duty),
        l.observed(cfg, cpu, gpu, None).ctl.last_duty == Some(cfg.fallback_duty),
{
}

/// The first look at the sensors always leads to a duty, so the hub is never
/// left with what it booted with.
pub proof fn law_first_look_decides(l: ControlLoop, cfg: Config, control: Option<Binary64>)
    requires
        l.ctl.last_duty is None,
    ensures
        l.decided(cfg, control) is Some,
{
}

/// A duty that is decided on is what a hub that is found again gets, until the
/// next decision.
pub proof fn law_decided_duty_is_remembered(
    l: ControlLoop,
    cfg: Config,
    cpu: SensorRead,
    gpu: SensorRead,
    control: Option<Binary64>,
)
    ensures
        l.decided(cfg, control) matches Some(d) ==> l.observed(
            cfg,
            cpu,
            gpu,
            control,
        ).last_applied == Some(d),
        l.decided(cfg, control) is None ==> l.observed(cfg, cpu, gpu, control).last_applied
            == l.last_applied,
{
}

/// Whatever becomes of the LEDs, neither the duty nor the count of errors of
/// the hub changes.
pub proof fn law_leds_are_cosmetic(
    l: ControlLoop,
    cfg: Config,
    duty_write_failed: bool,
    action: LedAction,
    all_ok: bool,
)
    ensures
        ({
            let end = l.before_leds(cfg, duty_write_failed).after_leds(action, all_ok);
            &&& end.ctl == l.ctl
            &&& end.consecutive_errors == l.consecutive_errors
            &&& end.last_applied == l.last_applied
            &&& end.alarm == l.alarm
            &&& end.cpu_fail_streak == l.cpu_fail_streak
            &&& end.gpu_fail_streak == l.gpu_fail_streak
            &&& end.ticks_since_cpu_probe == l.ticks_since_cpu_probe
            &&& end.ticks_since_gpu_probe == l.ticks_since_gpu_probe
        }),
{
}

/// Right after a failed duty write, the LEDs are left alone.
pub proof fn law_failed_duty_write_silences_leds(l: ControlLoop, cfg: Config)
    ensures
        l.led_plan(cfg, true) is Nothing,
        l.before_leds(cfg, true) == l,
{
}

/// Once the LEDs show what they should, a tick that changes neither the duty's
/// bin nor the alarm writes nothing.
pub proof fn law_leds_settle(l: ControlLoop, cfg: Config)
    requires
        config_laws::accepted(cfg),
    ensures
        l.before_leds(cfg, false).after_leds(l.led_plan(cfg, false), true).led_plan(
            cfg,
            false,
        ) is Nothing,
{
    if cfg.rgb.enabled {
        config_laws::law_accepted_stops(cfg);
    }
}

/// What could not be written to the LEDs is tried again.
pub proof fn law_failed_leds_are_retried(l: ControlLoop, cfg: Config)
    ensures
        l.before_leds(cfg, false).after_leds(l.led_plan(cfg, false), false).led_plan(cfg, false)
            == l.led_plan(cfg, false),
{
}

/// Leaving an alarm always brings the plain gradient back.
pub proof fn law_gradient_returns_after_alarm(l: ControlLoop, cfg: Config)
    requires
        cfg.rgb.enabled,
        l.ladder_command() is None,
        l.last_led is Some,
    ensures
        l.led_plan(cfg, false) is Gradient,
{
}

/// A hub that was found again is told the duty, and its LEDs are written anew.
pub proof fn law_reopened_hub_is_restored(l: ControlLoop, cfg: Config)
    requires
        cfg.rgb.enabled,
    ensures
        l.after_reopening().last_applied == l.last_applied,
        !(l.after_reopening().led_plan(cfg, false) is Nothing),
        l.after_reopening().led_plan(cfg, false) matches LedAction::Animate { speed_only, .. }
            ==> !speed_only,
{
}

/// The speed alone is written only over the same animation in the same color.
pub proof fn law_speed_alone_keeps_the_animation(l: ControlLoop, cfg: Config)
    requires
        l.led_plan(cfg, false) matches LedAction::Animate { speed_only, .. } && speed_only,
    ensures
        l.led_plan(cfg, false) matches LedAction::Animate {
            command: LedCommand::Breathing { color, .. },
            ..
        } && l.last_led matches Some(LedCommand::Breathing { color: shown, .. }) && shown == color,
{
}

/// Over the same animation in the same color, the speed alone is written; any
/// other animation is written whole.
pub proof fn law_same_color_changes_the_speed_alone(l: ControlLoop, cfg: Config)
    ensures
        l.led_plan(cfg, false) matches LedAction::Animate { command, speed_only } ==> match (
            l.last_led,
            command,
        ) {
            (
                Some(LedCommand::Breathing { color: shown, .. }),
                LedCommand::Breathing { color, .. },
            ) => speed_only == (shown.0 == color.0 && shown.1 == color.1 && shown.2 == color.2),
            _ => !speed_only,
        },
{
}

/// Duties in the same bin breathe in the same color, so small moves of the duty
/// do not start the animation over.
pub proof fn law_breathing_color_is_stable(rgb_cfg: RgbConfig, d1: u8, d2: u8, cmd: LedCommand)
    requires
        rgb::bucket_of(d1, rgb_cfg.buckets) == rgb::bucket_of(d2, rgb_cfg.buckets),
    ensures
        daemon::tinted(rgb_cfg, d1, cmd) == daemon::tinted(rgb_cfg, d2, cmd),
{
}

/// The loop after `n` duty writes that all failed.
pub open spec fn after_failures(l: ControlLoop, n: nat) -> ControlLoop
    decreases n,
{
    if n == 0 {
        l
    } else {
        after_failures(l, (n - 1) as nat).after_duty(false)
    }
}

/// Three failures in a row make the hub be found again, and one success sets
/// the count back.
pub proof fn law_failing_hub_is_reopened(l: ControlLoop, n: nat)
    requires
        l.consecutive_errors + n <= u32::MAX,
    ensures
        after_failures(l, n).consecutive_errors == l.consecutive_errors + n,
        n >= 3 ==> after_failures(l, n).consecutive_errors >= 3,
        after_failures(l, n).after_duty(true).consecutive_errors == 0,
    decreases n,
{
    if n > 0 {
        law_failing_hub_is_reopened(l, (n - 1) as nat);
    }
}

/// A sensor that answers is never looked for; one that is missing is, within
/// the interval.
pub proof fn law_missing_sensor_is_found_again(l: ControlLoop)
    ensures
        l.cpu_fail_streak < 3 ==> !l.probes_cpu(true),
        l.gpu_fail_streak < 3 ==> !l.probes_gpu(true),
        l.ticks_since_cpu_probe >= sensors::REDISCOVERY_INTERVAL_TICKS ==> l.probes_cpu(false),
        l.ticks_since_gpu_probe >= sensors::REDISCOVERY_INTERVAL_TICKS ==> l.probes_gpu(false),
        l.ticks_since_cpu_probe < sensors::REDISCOVERY_INTERVAL_TICKS ==> !l.probes_cpu(false),
        l.ticks_since_gpu_probe < sensors::REDISCOVERY_INTERVAL_TICKS ==> !l.probes_gpu(false),
{
}

/// A sensor that is there but whose last three reads or more failed is looked
/// for again once the interval has passed, and not before; so is one that is
/// absent. The interval is twelve ticks, and it starts anew with every attempt.
pub proof fn law_failing_sensor_is_found_again(l: ControlLoop, present: bool)
    requires
        l.has_room(),
    ensures
        l.cpu_fail_streak >= 3 && l.ticks_since_cpu_probe >= 12 ==> l.probes_cpu(present),
        l.gpu_fail_streak >= 3 && l.ticks_since_gpu_probe >= 12 ==> l.probes_gpu(present),
        l.ticks_since_cpu_probe >= 12 ==> l.probes_cpu(false),
        l.ticks_since_gpu_probe >= 12 ==> l.probes_gpu(false),
        l.ticks_since_cpu_probe < 12 ==> !l.probes_cpu(present),
        l.ticks_since_gpu_probe < 12 ==> !l.probes_gpu(present),
        l.probes_cpu(present) ==> l.after_cpu_probe(present).ticks_since_cpu_probe == 0,
        l.probes_gpu(present) ==> l.after_gpu_probe(present).ticks_since_gpu_probe == 0,
        !l.probes_cpu(present) ==> l.after_cpu_probe(present).ticks_since_cpu_probe
            == l.ticks_since_cpu_probe + 1,
        !l.probes_gpu(present) ==> l.after_gpu_probe(present).ticks_since_gpu_probe
            == l.ticks_since_gpu_probe + 1,
        l.after_cpu_probe(present).gpu_fail_streak == l.gpu_fail_streak,
        l.after_cpu_probe(present).ticks_since_gpu_probe == l.ticks_since_gpu_probe,
        l.with_cpu_found(true).cpu_fail_streak == 0,
        l.with_gpu_found(true).gpu_fail_streak == 0,
        l.with_cpu_found(false) == l,
        l.with_gpu_found(false) == l,
{
}

/// Every failed read adds one to the streak of its sensor, a value ends it, and
/// an absent sensor leaves it as it was; the other sensor has no part in it.
pub proof fn law_failures_are_counted_by_sensor(
    l: ControlLoop,
    cfg: Config,
    cpu: SensorRead,
    gpu: SensorRead,
    control: Option<Binary64>,
)
    requires
        l.has_room(),
    ensures
        ({
            let end = l.observed(cfg, cpu, gpu, control);
            &&& cpu is Failed ==> end.cpu_fail_streak == l.cpu_fail_streak + 1
            &&& gpu is Failed ==> end.gpu_fail_streak == l.gpu_fail_streak + 1
            &&& cpu is Value ==> end.cpu_fail_streak == 0
            &&& gpu is Value ==> end.gpu_fail_streak == 0
            &&& cpu is Absent ==> end.cpu_fail_streak == l.cpu_fail_streak
            &&& gpu is Absent ==> end.gpu_fail_streak == l.gpu_fail_streak
            &&& end.ticks_since_cpu_probe == l.ticks_since_cpu_probe
            &&& end.ticks_since_gpu_probe == l.ticks_since_gpu_probe
        }),
{
}

/// What a single look at the sensors reports is what the first tick decides.
pub proof fn law_oneshot_foretells_the_first_tick(l: ControlLoop, cfg: Config, x: Binary64)
    requires
        l.ctl.last_duty is None,
    ensures
        l.decided(cfg, Some(x)) == Some(curve::interpolated(cfg.curve@, x@)),
{
}

/// The duty of a tick, by the configuration: towards what its curve gives for the
/// temperature, by no more than its step, and not at all if neither the duty nor
/// the temperature would move by enough. The first duty is that of the curve.
pub proof fn law_duty_goes_by_the_configuration(l: ControlLoop, cfg: Config, x: Binary64)
    requires
        l.wf(cfg),
    ensures
        ({
            let target = curve::interpolated(cfg.curve@, x@);
            let r = l.decided(cfg, Some(x));
            let moved = cfg.hysteresis_c@.at_most(
                x@.difference(l.ctl.last_temp@).magnitude(),
            );
            match l.ctl.last_duty {
                None => r == Some(target),
                Some(last) => {
                    let gap = if target >= last {
                        target - last
                    } else {
                        last - target
                    };
                    &&& r is None <==> gap == 0 || (gap < cfg.min_duty_delta && !moved)
                    &&& r matches Some(next) ==> {
                        &&& target > last && gap <= cfg.max_step_per_tick ==> next == target
                        &&& target < last && gap <= cfg.max_step_per_tick ==> next == target
                        &&& target > last && gap > cfg.max_step_per_tick ==> next == last
                            + cfg.max_step_per_tick
                        &&& target < last && gap > cfg.max_step_per_tick ==> next == last
                            - cfg.max_step_per_tick
                    }
                },
            }
        }),
{
}

/// After a look at the sensors, the controller goes on from the duty decided on,
/// and nothing but the controller, the duty and the streaks has changed.
pub proof fn law_look_changes_only_the_duty(
    l: ControlLoop,
    cfg: Config,
    cpu: SensorRead,
    gpu: SensorRead,
    control: Option<Binary64>,
)
    ensures
        ({
            let end = l.observed(cfg, cpu, gpu, control);
            &&& l.decided(cfg, control) matches Some(d) ==> end.ctl.last_duty == Some(d)
            &&& l.decided(cfg, control) is None ==> end.ctl.last_duty == l.ctl.last_duty
            &&& control is None ==> end.ctl.last_temp == l.ctl.last_temp
            &&& l.decided(cfg, control) is Some && control is Some ==> Some(end.ctl.last_temp)
                == control
            &&& end.consecutive_errors == l.consecutive_errors
            &&& end.last_bucket == l.last_bucket
            &&& end.last_led == l.last_led
            &&& end.alarm == l.alarm
        }),
{
}

/// What the LEDs are told, by the step of the ladder: the color of the duty if
/// nothing is wrong, a slow pulse in the color of its bin in lasting heat, a pulse
/// in the configured alert color near the limit, the two configured fault colors
/// in a fault. They are told nothing only if they show it already.
pub proof fn law_leds_by_step(l: ControlLoop, cfg: Config)
    requires
        l.wf(cfg),
        cfg.rgb.enabled,
        config_laws::accepted(cfg),
    ensures
        ({
            let duty = match l.last_applied {
                Some(d) => d,
                None => 0,
            };
            let bin = rgb::bucket_of(duty, cfg.rgb.buckets) as u8;
            let plan = l.led_plan(cfg, false);
            let alert = cfg.rgb.alerts.alert_color@;
            let fault = cfg.rgb.alerts.fault_colors@;
            &&& l.alarm->0.state == 0 ==> match plan {
                LedAction::Nothing => l.last_led is None && l.last_bucket == Some(bin),
                LedAction::Gradient { bucket, color } => bucket == bin && color == rgb::gradient(
                    cfg.rgb.stops@,
                    duty,
                ),
                LedAction::Animate { .. } => false,
            }
            &&& l.alarm->0.state == 1 ==> match plan {
                LedAction::Nothing => l.last_led matches Some(
                    LedCommand::Breathing { color, speed_idx },
                ) && speed_idx == 0 && color == rgb::gradient(
                    cfg.rgb.stops@,
                    rgb::bucket_edge(bin, cfg.rgb.buckets) as u8,
                ),
                LedAction::Gradient { .. } => false,
                LedAction::Animate { command, .. } => command matches LedCommand::Breathing {
                    color,
                    speed_idx,
                } && speed_idx == 0 && color == rgb::gradient(
                    cfg.rgb.stops@,
                    rgb::bucket_edge(bin, cfg.rgb.buckets) as u8,
                ),
            }
            &&& l.alarm->0.state == 2 ==> match plan {
                LedAction::Nothing => l.last_led matches Some(
                    LedCommand::Breathing { color, speed_idx },
                ) && 1 <= speed_idx <= 4 && color == (alert[0], alert[1], alert[2]),
                LedAction::Gradient { .. } => false,
                LedAction::Animate { command, .. } => command matches LedCommand::Breathing {
                    color,
                    speed_idx,
                } && 1 <= speed_idx <= 4 && color == (alert[0], alert[1], alert[2]),
            }
            &&& l.alarm->0.state == 3 ==> match plan {
                LedAction::Nothing => l.last_led matches Some(
                    LedCommand::Runway { colors, speed_idx },
                ) && speed_idx == 2 && colors@[0] == (fault[0]@[0], fault[0]@[1], fault[0]@[2])
                    && colors@[1] == (fault[1]@[0], fault[1]@[1], fault[1]@[2]),
                LedAction::Gradient { .. } => false,
                LedAction::Animate { command, speed_only } => !speed_only && (
                command matches LedCommand::Runway { colors, speed_idx } && speed_idx == 2
                    && colors@[0] == (fault[0]@[0], fault[0]@[1], fault[0]@[2]) && colors@[1] == (
                    fault[1]@[0],
                    fault[1]@[1],
                    fault[1]@[2],
                )),
            }
        }),
{
}

/// The speed bytes of the five speeds, slowest first.
pub proof fn law_speed_bytes()
    ensures
        rgb::SPEEDS@ =~= seq![2u8, 1, 0, 255, 254],
{
}

/// How an action stands on the wire: nothing for nothing; three packets with the
/// mode, the speed and the configured brightness in the last of them, and the
/// configured number of fans in the first; the last of them alone if only the
/// speed changes.
pub proof fn law_actions_on_the_wire(cfg: Config, action: LedAction, channel: u8)
    requires
        1 <= channel <= 4,
        cfg.rgb.fans_on(channel) <= 6,
        action matches LedAction::Animate { command, .. } ==> daemon::has_speed(command),
    ensures
        ({
            let plan = daemon::action_plan(cfg, action, channel);
            match action {
                LedAction::Nothing => plan.len() == 0,
                LedAction::Gradient { color, .. } => {
                    &&& plan.len() == 3
                    &&& plan[0].bytes[3] == 16 * (channel - 1) + cfg.rgb.fans_on(channel)
                    &&& plan[1].bytes == rgb::color_bytes(channel, seq![color])
                    &&& plan[2].bytes[2] == 1 && plan[2].bytes[3] == 2
                    &&& plan[2].bytes[5] == cfg.rgb.brightness
                },
                LedAction::Animate { command, speed_only } => match command {
                    LedCommand::Breathing { color, speed_idx } => {
                        let last = plan[plan.len() - 1].bytes;
                        &&& plan.len() == if speed_only {
                            1int
                        } else {
                            3int
                        }
                        &&& !speed_only ==> plan[0].bytes[3] == 16 * (channel - 1)
                            + cfg.rgb.fans_on(channel) && plan[1].bytes == rgb::color_bytes(
                            channel,
                            seq![color],
                        )
                        &&& last[1] == 15 + channel
                        &&& last[2] == 2
                        &&& last[3] == seq![2u8, 1, 0, 255, 254][speed_idx as int]
                        &&& last[5] == cfg.rgb.brightness
                    },
                    LedCommand::Runway { colors, speed_idx } => {
                        &&& plan.len() == 3
                        &&& plan[0].bytes[3] == 16 * (channel - 1) + cfg.rgb.fans_on(channel)
                        &&& plan[1].bytes == rgb::color_bytes(channel, colors@)
                        &&& plan[2].bytes[2] == 0x1C
                        &&& plan[2].bytes[3] == seq![2u8, 1, 0, 255, 254][speed_idx as int]
                        &&& plan[2].bytes[5] == cfg.rgb.brightness
                    },
                },
            }
        }),
{
    law_speed_bytes();
}

/// What was carried out is what the LEDs are taken to show, and nothing else.
pub proof fn law_shown_is_what_was_written(l: ControlLoop, action: LedAction)
    ensures
        ({
            let end = l.after_leds(action, true);
            &&& action matches LedAction::Gradient { bucket, .. } ==> end.last_bucket == Some(
                bucket,
            ) && end.last_led == l.last_led
            &&& action matches LedAction::Animate { command, .. } ==> end.last_led == Some(command)
                && end.last_bucket == l.last_bucket
            &&& action is Nothing ==> end == l
            &&& l.after_leds(action, false) == l
        }),
{
}

} // verus!
