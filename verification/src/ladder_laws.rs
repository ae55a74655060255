//! What holds of every tick of the alarm ladder, trigger by trigger.

use crate::alarm;
use crate::alarm::{AlarmInputs, AlarmMachine, LedCommand};
use crate::config::Config;
use crate::daemon::ControlLoop;
use vstd::prelude::*;

verus! {

/// Heat lasts for as long as every temperature is at or above the threshold: it
/// grows by the seconds that went by, a cooler temperature ends it, a missing one
/// leaves it as it was.
pub proof fn law_heat_is_timed(m: AlarmMachine, inputs: AlarmInputs, elapsed: u64)
    requires
        m.enabled,
        m.hot_secs + elapsed <= u64::MAX,
    ensures
        ({
            let hot = m.after(inputs, elapsed).hot_secs;
            match inputs.control_temp {
                Some(t) => {
                    &&& m.sustained_hot_c@.at_most(t@) ==> hot == m.hot_secs + elapsed
                    &&& !m.sustained_hot_c@.at_most(t@) ==> hot == 0
                },
                None => hot == m.hot_secs,
            }
        }),
{
}

/// The highest trigger that holds is shown at once: all sensors lost, then a
/// temperature at the limit or full duty, then lasting heat. The step rises for
/// no other reason.
pub proof fn law_highest_trigger_wins(m: AlarmMachine, inputs: AlarmInputs, elapsed: u64)
    requires
        m.wf(),
        m.enabled,
    ensures
        ({
            let end = m.after(inputs, elapsed);
            let near = inputs.duty >= 100 || (inputs.control_temp matches Some(t)
                && m.near_limit_temp@.at_most(t@));
            let lasting = end.hot_secs >= m.sustained_after_secs;
            &&& inputs.fallback_active ==> end.state == 3
            &&& near ==> end.state >= 2
            &&& lasting ==> end.state >= 1
            &&& end.state > m.state ==> {
                ||| end.state == 3 && inputs.fallback_active
                ||| end.state == 2 && near && !inputs.fallback_active
                ||| end.state == 1 && lasting && !near && !inputs.fallback_active
            }
        }),
{
}

/// The step falls only if its own trigger and all higher ones are gone and have
/// been for the cooldown, and then to the highest trigger that still holds. Until
/// then the step stays and the seconds are counted.
pub proof fn law_step_falls_after_the_cooldown(m: AlarmMachine, inputs: AlarmInputs, elapsed: u64)
    requires
        m.wf(),
        m.enabled,
        m.state > 0,
        m.clear_secs + elapsed <= u64::MAX,
    ensures
        ({
            let end = m.after(inputs, elapsed);
            let near = inputs.duty >= 100 || (inputs.control_temp matches Some(t)
                && m.near_limit_temp@.at_most(t@));
            let lasting = end.hot_secs >= m.sustained_after_secs;
            let quiet = !inputs.fallback_active && (m.state <= 2 ==> !near) && (m.state == 1
                ==> !lasting);
            &&& end.state < m.state <==> quiet && m.clear_secs + elapsed >= m.cooldown_secs
            &&& end.state < m.state ==> end.state == if near {
                2int
            } else if lasting {
                1int
            } else {
                0int
            }
            &&& quiet && m.clear_secs + elapsed < m.cooldown_secs ==> end.state == m.state
                && end.clear_secs == m.clear_secs + elapsed
            &&& !quiet ==> end.clear_secs == 0
        }),
{
}

/// The time on a step starts with the step and runs on while it stays.
pub proof fn law_time_on_a_step(m: AlarmMachine, inputs: AlarmInputs, elapsed: u64)
    requires
        m.wf(),
        m.enabled,
        m.in_state_secs + elapsed <= u64::MAX,
    ensures
        ({
            let end = m.after(inputs, elapsed);
            &&& end.state == m.state ==> end.in_state_secs == m.in_state_secs + elapsed
            &&& end.state != m.state ==> end.in_state_secs == 0 && end.clear_secs == 0
            &&& end.enabled
            &&& end.sustained_hot_c == m.sustained_hot_c
            &&& end.sustained_after_secs == m.sustained_after_secs
            &&& end.near_limit_temp == m.near_limit_temp
            &&& end.escalate_every_secs == m.escalate_every_secs
            &&& end.cooldown_secs == m.cooldown_secs
            &&& end.alert_color == m.alert_color
            &&& end.fault_colors == m.fault_colors
        }),
{
}

/// Seconds of several ticks in which a temperature is at or above a threshold.
pub open spec fn all_hot(m: AlarmMachine, ticks: Seq<(AlarmInputs, u64)>) -> bool {
    forall|i: int|
        0 <= i < ticks.len() ==> ((#[trigger] ticks[i]).0.control_temp matches Some(t)
            && m.sustained_hot_c@.at_most(t@))
}

/// Heat that lasts for the configured time without a cooler temperature is shown
/// at the latest then, however the time is cut into ticks.
pub proof fn law_lasting_heat_is_shown(m: AlarmMachine, ticks: Seq<(AlarmInputs, u64)>)
    requires
        m.wf(),
        m.enabled,
        ticks.len() > 0,
        all_hot(m, ticks),
        m.hot_secs + alarm::total_secs(ticks) <= u64::MAX,
    ensures
        alarm::after_ticks(m, ticks).hot_secs == m.hot_secs + alarm::total_secs(ticks),
        m.hot_secs + alarm::total_secs(ticks) >= m.sustained_after_secs ==> alarm::after_ticks(
            m,
            ticks,
        ).state >= 1,
    decreases ticks.len(),
{
    let front = ticks.drop_last();
    let last = ticks[ticks.len() - 1];
    assert(last == ticks.last());
    alarm::lemma_settings_stay(m, front);
    if front.len() > 0 {
        assert forall|i: int| 0 <= i < front.len() implies ((#[trigger] front[i]).0.control_temp
            matches Some(t) && m.sustained_hot_c@.at_most(t@)) by {
            assert(front[i] == ticks[i]);
        }
        law_lasting_heat_is_shown(m, front);
    } else {
        assert(alarm::after_ticks(m, front) == m);
        assert(alarm::total_secs(front) == 0);
    }
    let before = alarm::after_ticks(m, front);
    law_heat_is_timed(before, last.0, last.1);
    law_highest_trigger_wins(before, last.0, last.1);
}

/// What the LEDs show on each step: nothing special, a slow pulse, a pulse in the
/// alert color, the two fault colors running. The pulse near the limit is one of
/// four rates, and each next one comes after one more interval.
pub proof fn law_animations(m: AlarmMachine, k: int)
    requires
        m.wf(),
        0 <= k <= 3,
    ensures
        m.state == 0 ==> m.command() is None,
        m.state == 1 ==> (m.command() matches Some(LedCommand::Breathing { color, speed_idx })
            && color == m.alert_color && speed_idx == 0),
        m.state == 2 ==> (m.command() matches Some(LedCommand::Breathing { color, speed_idx })
            && color == m.alert_color && 1 <= speed_idx <= 4 && (speed_idx >= 1 + k
            <==> m.in_state_secs >= k * m.escalate_every_secs)),
        m.state == 3 ==> (m.command() matches Some(LedCommand::Runway { colors, speed_idx })
            && colors == m.fault_colors && speed_idx == 2),
{
    let e = m.escalate_every_secs as int;
    let s = m.in_state_secs as int;
    vstd::arithmetic::div_mod::lemma_fundamental_div_mod(s, e);
    vstd::arithmetic::div_mod::lemma_mod_bound(s, e);
    let q = s / e;
    assert(q >= k <==> s >= k * e) by (nonlinear_arith)
        requires
            s == e * q + s % e,
            0 <= s % e < e,
            e >= 1,
    ;
}

/// The ladder of a running loop goes by the configuration, setting by setting,
/// and there is one exactly if the LEDs are on.
pub proof fn law_ladder_is_the_configured_one(l: ControlLoop, cfg: Config)
    requires
        l.wf(cfg),
    ensures
        l.alarm is Some <==> cfg.rgb.enabled,
        l.alarm matches Some(a) ==> {
            &&& a.enabled == cfg.rgb.alerts.enabled
            &&& a.sustained_hot_c == cfg.rgb.alerts.sustained_hot_c
            &&& a.sustained_after_secs == cfg.rgb.alerts.sustained_after_secs
            &&& a.near_limit_temp@ == cfg.curve@[cfg.curve@.len() - 1].temp@.difference(
                cfg.rgb.alerts.near_limit_margin_c@,
            )
            &&& cfg.rgb.alerts.escalate_every_secs > 0 ==> a.escalate_every_secs
                == cfg.rgb.alerts.escalate_every_secs
            &&& a.cooldown_secs == cfg.rgb.alerts.cooldown_secs
            &&& a.alert_color.0 == cfg.rgb.alerts.alert_color@[0]
            &&& a.alert_color.1 == cfg.rgb.alerts.alert_color@[1]
            &&& a.alert_color.2 == cfg.rgb.alerts.alert_color@[2]
            &&& forall|i: int|
                #![trigger a.fault_colors@[i]]
                0 <= i < 2 ==> {
                    &&& a.fault_colors@[i].0 == cfg.rgb.alerts.fault_colors@[i]@[0]
                    &&& a.fault_colors@[i].1 == cfg.rgb.alerts.fault_colors@[i]@[1]
                    &&& a.fault_colors@[i].2 == cfg.rgb.alerts.fault_colors@[i]@[2]
                }
        },
        l.ctl.max_step == cfg.max_step_per_tick,
        l.ctl.min_duty_delta == cfg.min_duty_delta,
        l.ctl.hysteresis_c == cfg.hysteresis_c,
{
}

/// In a running loop, a temperature within the configured margin of the curve's
/// end brings the ladder at least to the step near the limit, and so does full
/// duty; lost sensors bring it to the fault.
pub proof fn law_ladder_of_the_loop(l: ControlLoop, cfg: Config, t: crate::daemon::Tick, secs: u64)
    requires
        l.wf(cfg),
        cfg.rgb.enabled,
        cfg.rgb.alerts.enabled,
    ensures
        t.fallback_active ==> l.after_alarm(t, secs).step() == 3,
        (t.control_temp matches Some(x) && cfg.curve@[cfg.curve@.len() - 1].temp@.difference(
            cfg.rgb.alerts.near_limit_margin_c@,
        ).at_most(x@)) ==> l.after_alarm(t, secs).step() >= 2,
        l.last_applied == Some(100u8) ==> l.after_alarm(t, secs).step() >= 2,
        l.after_alarm(t, secs).last_applied == l.last_applied,
        l.after_alarm(t, secs).ctl == l.ctl,
        l.after_alarm(t, secs).consecutive_errors == l.consecutive_errors,
        l.after_alarm(t, secs).last_led == l.last_led,
        l.after_alarm(t, secs).last_bucket == l.last_bucket,
{
    law_ladder_is_the_configured_one(l, cfg);
}

/// Each step has a name of its own, and what is no step has that of the lowest.
pub proof fn law_names_of_the_steps(state: u8, other: u8)
    requires
        state <= 3,
        other <= 3,
    ensures
        alarm::state_text(0) == "Normal"@,
        alarm::state_text(1) == "SustainedHot"@,
        alarm::state_text(2) == "NearLimit"@,
        alarm::state_text(3) == "Fault"@,
        state != other ==> alarm::state_text(state) != alarm::state_text(other),
{
    reveal_strlit("Normal");
    reveal_strlit("SustainedHot");
    reveal_strlit("NearLimit");
    reveal_strlit("Fault");
    assert("Normal"@.len() == 6);
    assert("SustainedHot"@.len() == 12);
    assert("NearLimit"@.len() == 9);
    assert("Fault"@.len() == 5);
}

} // verus!
