//! The alarm ladder: how long heat has lasted, and what the LEDs say about it.
//!
//! From the top: fault, near the limit, sustained heat, normal. Going up takes
//! effect at once. Going down waits until nothing has asked for the present
//! step, or a higher one, for the cooldown.

use crate::binary64::{Binary64, Number};
use crate::config::AlertsConfig;
use crate::rgb;
use vstd::prelude::*;

verus! {

/// An animation for the LEDs.
#[derive(Debug, Clone, Copy, PartialEq)]
pub enum LedCommand {
    Breathing { color: (u8, u8, u8), speed_idx: u8 },
    Runway { colors: [(u8, u8, u8); 2], speed_idx: u8 },
}

/// What the ladder looks at on each tick.
#[derive(Debug, Clone, Copy)]
pub struct AlarmInputs {
    pub control_temp: Option<Binary64>,
    pub duty: u8,
    /// Whether every sensor is lost.
    pub fallback_active: bool,
}

/// The ladder. Its step is 0 for normal, 1 for sustained heat, 2 for near the
/// limit and 3 for a fault.
#[derive(Debug, Clone, Copy)]
pub struct AlarmMachine {
    pub enabled: bool,
    pub sustained_hot_c: Binary64,
    pub sustained_after_secs: u64,
    pub near_limit_temp: Binary64,
    pub escalate_every_secs: u64,
    pub cooldown_secs: u64,
    pub alert_color: (u8, u8, u8),
    pub fault_colors: [(u8, u8, u8); 2],
    pub state: u8,
    /// How long the heat has lasted. A tick without a temperature leaves it as
    /// it is, a cooler one sets it to zero.
    pub hot_secs: u64,
    /// How long the present step has been shown.
    pub in_state_secs: u64,
    /// How long nothing has asked for the present step.
    pub clear_secs: u64,
}

fn tuple3(a: [u8; 3]) -> (t: (u8, u8, u8))
    ensures
        t == rgb::triple(a),
{
    (a[0], a[1], a[2])
}

/// The name of a step.
pub open spec fn state_text(state: u8) -> Seq<char> {
    if state == 1 {
        "SustainedHot"@
    } else if state == 2 {
        "NearLimit"@
    } else if state == 3 {
        "Fault"@
    } else {
        "Normal"@
    }
}

/// The name of a step.
pub fn state_name(state: u8) -> (s: &'static str)
    ensures
        s@ == state_text(state),
{
    match state {
        1 => "SustainedHot",
        2 => "NearLimit",
        3 => "Fault",
        _ => "Normal",
    }
}

/// `a + b`, or the largest number that fits.
pub open spec fn clamped_sum(a: u64, b: u64) -> u64 {
    if a + b <= u64::MAX {
        (a + b) as u64
    } else {
        u64::MAX
    }
}

impl AlarmMachine {
    /// What holds of every ladder.
    pub open spec fn wf(self) -> bool {
        self.state <= 3 && self.escalate_every_secs >= 1
    }

    /// Whether the settings of the ladder are those of `cfg`, with a curve that
    /// ends at `curve_max`.
    pub open spec fn follows(self, cfg: AlertsConfig, curve_max: Number) -> bool {
        &&& self.enabled == cfg.enabled
        &&& self.sustained_hot_c == cfg.sustained_hot_c
        &&& self.sustained_after_secs == cfg.sustained_after_secs
        &&& self.near_limit_temp@ == curve_max.difference(cfg.near_limit_margin_c@)
        &&& self.escalate_every_secs == if cfg.escalate_every_secs == 0 {
            1
        } else {
            cfg.escalate_every_secs
        }
        &&& self.cooldown_secs == cfg.cooldown_secs
        &&& self.alert_color == rgb::triple(cfg.alert_color)
        &&& self.fault_colors@ == seq![
            rgb::triple(cfg.fault_colors@[0]),
            rgb::triple(cfg.fault_colors@[1]),
        ]
    }

    /// Whether the ladder stands on its lowest step and has counted nothing.
    pub open spec fn is_fresh(self) -> bool {
        self.state == 0 && self.hot_secs == 0 && self.in_state_secs == 0 && self.clear_secs == 0
    }

    /// Whether a reading is at or above `limit`. A missing one is not.
    pub open spec fn reaches(t: Option<Binary64>, limit: Number) -> bool {
        t matches Some(x) && limit.at_most(x@)
    }

    /// How long the heat has lasted after a tick.
    pub open spec fn hot_after(self, inputs: AlarmInputs, elapsed: u64) -> u64 {
        if Self::reaches(inputs.control_temp, self.sustained_hot_c@) {
            clamped_sum(self.hot_secs, elapsed)
        } else if inputs.control_temp is Some {
            0
        } else {
            self.hot_secs
        }
    }

    /// The highest step that a tick asks for.
    pub open spec fn wanted(self, inputs: AlarmInputs, elapsed: u64) -> u8 {
        if inputs.fallback_active {
            3
        } else if inputs.duty >= 100 || Self::reaches(inputs.control_temp, self.near_limit_temp@) {
            2
        } else if self.hot_after(inputs, elapsed) >= self.sustained_after_secs {
            1
        } else {
            0
        }
    }

    /// The ladder on a new step.
    pub open spec fn entered(self, state: u8) -> AlarmMachine {
        AlarmMachine { state, in_state_secs: 0, clear_secs: 0, ..self }
    }

    /// The ladder after a tick: up at once, down after the cooldown.
    pub open spec fn after(self, inputs: AlarmInputs, elapsed: u64) -> AlarmMachine {
        let w = self.wanted(inputs, elapsed);
        let m = AlarmMachine { hot_secs: self.hot_after(inputs, elapsed), ..self };
        let clear = clamped_sum(self.clear_secs, elapsed);
        if !self.enabled {
            self
        } else if w > self.state {
            m.entered(w)
        } else if w == self.state {
            AlarmMachine {
                clear_secs: 0,
                in_state_secs: clamped_sum(self.in_state_secs, elapsed),
                ..m
            }
        } else if clear >= self.cooldown_secs {
            m.entered(w)
        } else {
            AlarmMachine {
                clear_secs: clear,
                in_state_secs: clamped_sum(self.in_state_secs, elapsed),
                ..m
            }
        }
    }

    /// A ladder on its lowest step. The limit is what the curve ends with.
    pub fn new(cfg: &AlertsConfig, curve_max_temp: Binary64) -> (m: AlarmMachine)
        ensures
            m.wf(),
            m.follows(*cfg, curve_max_temp@),
            m.is_fresh(),
            m.state == 0 && m.hot_secs == 0 && m.in_state_secs == 0 && m.clear_secs == 0,
            m.enabled == cfg.enabled,
            m.sustained_hot_c == cfg.sustained_hot_c,
            m.sustained_after_secs == cfg.sustained_after_secs,
            m.near_limit_temp@ == curve_max_temp@.difference(cfg.near_limit_margin_c@),
            m.cooldown_secs == cfg.cooldown_secs,
            m.escalate_every_secs >= cfg.escalate_every_secs,
            cfg.escalate_every_secs > 0 ==> m.escalate_every_secs == cfg.escalate_every_secs,
            cfg.escalate_every_secs == 0 ==> m.escalate_every_secs == 1,
            m.alert_color.0 == cfg.alert_color@[0],
            m.alert_color.1 == cfg.alert_color@[1],
            m.alert_color.2 == cfg.alert_color@[2],
            forall|i: int| #![trigger m.fault_colors@[i]] 0 <= i < 2 ==> {
                &&& m.fault_colors@[i].0 == cfg.fault_colors@[i]@[0]
                &&& m.fault_colors@[i].1 == cfg.fault_colors@[i]@[1]
                &&& m.fault_colors@[i].2 == cfg.fault_colors@[i]@[2]
            },
            // Within the configured margin of the curve's end, whatever went
            // before, the step is at least the one near the limit.
            forall|past: Seq<(AlarmInputs, u64)>, inputs: AlarmInputs, elapsed: u64|
                cfg.enabled && !inputs.fallback_active && (inputs.control_temp matches Some(t)
                    && curve_max_temp@.difference(cfg.near_limit_margin_c@).at_most(t@))
                    ==> (#[trigger] after_ticks(m, past).after(inputs, elapsed)).state >= 2,
            // On the first tick it is that step, below full duty, only then.
            forall|inputs: AlarmInputs, elapsed: u64|
                (#[trigger] m.after(inputs, elapsed)).state == 2 && inputs.duty < 100 ==> (
                inputs.control_temp matches Some(t) && curve_max_temp@.difference(
                    cfg.near_limit_margin_c@,
                ).at_most(t@)),
            // A fault shows whatever went before.
            forall|past: Seq<(AlarmInputs, u64)>, inputs: AlarmInputs, elapsed: u64|
                cfg.enabled && inputs.fallback_active ==> (#[trigger] after_ticks(m, past).after(
                    inputs,
                    elapsed,
                )).state == 3,
            // Without the switch nothing ever shows.
            forall|past: Seq<(AlarmInputs, u64)>|
                !cfg.enabled ==> (#[trigger] after_ticks(m, past)).state == 0,
    {
        let m: AlarmMachine = AlarmMachine {
            enabled: cfg.enabled,
            sustained_hot_c: cfg.sustained_hot_c,
            sustained_after_secs: cfg.sustained_after_secs,
            near_limit_temp: curve_max_temp.minus(cfg.near_limit_margin_c),
            escalate_every_secs: if cfg.escalate_every_secs == 0 {
                1
            } else {
                cfg.escalate_every_secs
            },
            cooldown_secs: cfg.cooldown_secs,
            alert_color: tuple3(cfg.alert_color),
            fault_colors: [tuple3(cfg.fault_colors[0]), tuple3(cfg.fault_colors[1])],
            state: 0,
            hot_secs: 0,
            in_state_secs: 0,
            clear_secs: 0,
        };
        proof {
            assert forall|past: Seq<(AlarmInputs, u64)>, inputs: AlarmInputs, elapsed: u64|
                cfg.enabled && !inputs.fallback_active && (inputs.control_temp matches Some(t)
                    && curve_max_temp@.difference(cfg.near_limit_margin_c@).at_most(
                    t@,
                )) implies (#[trigger] after_ticks(m, past).after(inputs, elapsed)).state >= 2 by {
                lemma_settings_stay(m, past);
            }
            assert forall|past: Seq<(AlarmInputs, u64)>, inputs: AlarmInputs, elapsed: u64|
                cfg.enabled && inputs.fallback_active implies (#[trigger] after_ticks(
                m,
                past,
            ).after(inputs, elapsed)).state == 3 by {
                lemma_settings_stay(m, past);
            }
            assert forall|past: Seq<(AlarmInputs, u64)>| !cfg.enabled implies (
            #[trigger] after_ticks(m, past)).state == 0 by {
                lemma_settings_stay(m, past);
            }
        }
        m
    }

    fn enter_state(&mut self, state: u8)
        ensures
            *final(self) == old(self).entered(state),
    {
        self.state = state;
        self.in_state_secs = 0;
        self.clear_secs = 0;
    }

    /// Advances the ladder by a tick, `elapsed` seconds after the one before.
    /// Gives the name of the step if it changed.
    pub fn tick(&mut self, inputs: &AlarmInputs, elapsed: u64) -> (name: Option<&'static str>)
        requires
            old(self).wf(),
        ensures
            final(self).wf(),
            *final(self) == old(self).after(*inputs, elapsed),
            match name {
                Some(s) => final(self).state != old(self).state && s@ == state_text(
                    final(self).state,
                ),
                None => final(self).state == old(self).state,
            },
            !old(self).enabled ==> *final(self) == *old(self),
            old(self).enabled && inputs.fallback_active ==> final(self).state == 3,
            old(self).enabled && !inputs.fallback_active && (inputs.duty >= 100 || (
            inputs.control_temp matches Some(t) && old(self).near_limit_temp@.at_most(t@))) ==>
                final(self).state >= 2,
            final(self).state == 2 && old(self).state < 2 ==> inputs.duty >= 100 || (
            inputs.control_temp matches Some(t) && old(self).near_limit_temp@.at_most(t@)),
            final(self).near_limit_temp == old(self).near_limit_temp,
    {
        if !self.enabled {
            return None;
        }
        let mut near_limit: bool = inputs.duty >= 100;
        match inputs.control_temp {
            Some(t) => {
                if self.sustained_hot_c.le(t) {
                    self.hot_secs = self.hot_secs.saturating_add(elapsed);
                } else {
                    self.hot_secs = 0;
                }
                if self.near_limit_temp.le(t) {
                    near_limit = true;
                }
            },
            None => {},
        }
        let fault: bool = inputs.fallback_active;
        let sustained: bool = self.hot_secs >= self.sustained_after_secs;
        let prev: u8 = self.state;
        if fault && self.state != 3 {
            self.enter_state(3);
        } else if !fault && near_limit && self.state < 2 {
            self.enter_state(2);
        } else if !fault && !near_limit && sustained && self.state < 1 {
            self.enter_state(1);
        } else {
            let holds: bool = match self.state {
                3 => fault,
                2 => near_limit,
                1 => sustained,
                _ => true,
            };
            self.in_state_secs = self.in_state_secs.saturating_add(elapsed);
            if holds {
                self.clear_secs = 0;
            } else {
                self.clear_secs = self.clear_secs.saturating_add(elapsed);
                if self.clear_secs >= self.cooldown_secs {
                    let next: u8 = if self.state > 2 && near_limit {
                        2
                    } else if self.state > 1 && sustained {
                        1
                    } else {
                        0
                    };
                    self.enter_state(next);
                }
            }
        }
        if self.state != prev {
            Some(state_name(self.state))
        } else {
            None
        }
    }

    /// Which of the animation speeds shows how long the limit has been near:
    /// one faster every `escalate_every_secs`, up to the fastest.
    pub open spec fn pulse_speed(self) -> u8 {
        if self.in_state_secs / self.escalate_every_secs >= 3 {
            4
        } else {
            (1 + self.in_state_secs / self.escalate_every_secs) as u8
        }
    }

    /// The animation of the present step, or none for the plain gradient.
    pub open spec fn command(self) -> Option<LedCommand> {
        if self.state == 3 {
            Some(LedCommand::Runway { colors: self.fault_colors, speed_idx: 2 })
        } else if self.state == 2 {
            Some(LedCommand::Breathing { color: self.alert_color, speed_idx: self.pulse_speed() })
        } else if self.state == 1 {
            Some(LedCommand::Breathing { color: self.alert_color, speed_idx: 0 })
        } else {
            None
        }
    }

    /// The animation of the present step, or none for the plain gradient.
    pub fn led(&self) -> (c: Option<LedCommand>)
        requires
            self.wf(),
        ensures
            c == self.command(),
    {
        match self.state {
            3 => Some(LedCommand::Runway { colors: self.fault_colors, speed_idx: 2 }),
            2 => {
                let steps: u64 = self.in_state_secs / self.escalate_every_secs;
                let speed_idx: u8 = if steps >= 3 {
                    4
                } else {
                    (1 + steps) as u8
                };
                Some(LedCommand::Breathing { color: self.alert_color, speed_idx })
            },
            1 => Some(LedCommand::Breathing { color: self.alert_color, speed_idx: 0 }),
            _ => None,
        }
    }

    /// The present step.
    pub fn state_code(&self) -> (state: u8)
        ensures
            state == self.state,
    {
        self.state
    }
}

/// A fault is shown on the very tick that reports it.
pub proof fn law_fault_is_immediate(m: AlarmMachine, inputs: AlarmInputs, elapsed: u64)
    requires
        m.wf(),
        m.enabled,
        inputs.fallback_active,
    ensures
        m.after(inputs, elapsed).state == 3,
{
}

/// A higher step is shown on the very tick that asks for it.
pub proof fn law_escalation_is_immediate(m: AlarmMachine, inputs: AlarmInputs, elapsed: u64)
    requires
        m.wf(),
        m.enabled,
        m.wanted(inputs, elapsed) >= m.state,
    ensures
        m.after(inputs, elapsed).state == m.wanted(inputs, elapsed),
{
}

/// A tick only ever leads to the step it asks for, or leaves the present one.
pub proof fn law_step_is_present_or_wanted(m: AlarmMachine, inputs: AlarmInputs, elapsed: u64)
    requires
        m.wf(),
    ensures
        m.after(inputs, elapsed).wf(),
        m.after(inputs, elapsed).state == m.state || m.after(inputs, elapsed).state == m.wanted(
            inputs,
            elapsed,
        ),
{
}

/// The ladder after several ticks.
pub open spec fn after_ticks(m: AlarmMachine, ticks: Seq<(AlarmInputs, u64)>) -> AlarmMachine
    decreases ticks.len(),
{
    if ticks.len() == 0 {
        m
    } else {
        after_ticks(m, ticks.drop_last()).after(ticks.last().0, ticks.last().1)
    }
}

/// No tick changes the settings, and a ladder that is switched off stays on its
/// step.
pub proof fn lemma_settings_stay(m: AlarmMachine, ticks: Seq<(AlarmInputs, u64)>)
    requires
        m.wf(),
    ensures
        ({
            let end = after_ticks(m, ticks);
            &&& end.wf()
            &&& end.enabled == m.enabled
            &&& end.sustained_hot_c == m.sustained_hot_c
            &&& end.sustained_after_secs == m.sustained_after_secs
            &&& end.near_limit_temp == m.near_limit_temp
            &&& end.escalate_every_secs == m.escalate_every_secs
            &&& end.cooldown_secs == m.cooldown_secs
            &&& end.alert_color == m.alert_color
            &&& end.fault_colors == m.fault_colors
            &&& !m.enabled ==> end.state == m.state
        }),
    decreases ticks.len(),
{
    if ticks.len() > 0 {
        lemma_settings_stay(m, ticks.drop_last());
    }
}

/// The seconds that several ticks take.
pub open spec fn total_secs(ticks: Seq<(AlarmInputs, u64)>) -> nat
    decreases ticks.len(),
{
    if ticks.len() == 0 {
        0
    } else {
        total_secs(ticks.drop_last()) + ticks.last().1 as nat
    }
}

/// Whether each of several ticks asks for less than the step then present.
pub open spec fn all_clear(m: AlarmMachine, ticks: Seq<(AlarmInputs, u64)>) -> bool
    decreases ticks.len(),
{
    ticks.len() > 0 ==> {
        let before = after_ticks(m, ticks.drop_last());
        &&& all_clear(m, ticks.drop_last())
        &&& before.wanted(ticks.last().0, ticks.last().1) < before.state
    }
}

/// A step stays until nothing has asked for it, or for a higher one, for the
/// whole cooldown.
pub proof fn law_step_outlasts_cooldown(m: AlarmMachine, ticks: Seq<(AlarmInputs, u64)>)
    requires
        m.wf(),
        m.enabled,
        all_clear(m, ticks),
        m.clear_secs + total_secs(ticks) < m.cooldown_secs,
    ensures
        after_ticks(m, ticks).state == m.state,
        after_ticks(m, ticks).clear_secs == m.clear_secs + total_secs(ticks),
        after_ticks(m, ticks).enabled,
        after_ticks(m, ticks).cooldown_secs == m.cooldown_secs,
    decreases ticks.len(),
{
    if ticks.len() > 0 {
        law_step_outlasts_cooldown(m, ticks.drop_last());
    }
}

/// A tick that asks for less, once the cooldown is over, leads down to what it
/// asks for.
pub proof fn law_step_drops_after_cooldown(m: AlarmMachine, inputs: AlarmInputs, elapsed: u64)
    requires
        m.wf(),
        m.enabled,
        m.wanted(inputs, elapsed) < m.state,
        m.clear_secs + elapsed >= m.cooldown_secs,
    ensures
        m.after(inputs, elapsed).state == m.wanted(inputs, elapsed),
        m.after(inputs, elapsed).clear_secs == 0,
{
}

/// A tick without a temperature neither adds to the heat nor clears it.
pub proof fn law_gap_freezes_heat(m: AlarmMachine, inputs: AlarmInputs, elapsed: u64)
    requires
        inputs.control_temp is None,
    ensures
        m.after(inputs, elapsed).hot_secs == m.hot_secs,
{
}

/// A ladder that is switched off never changes and shows nothing.
pub proof fn law_disabled_ladder_is_inert(m: AlarmMachine, inputs: AlarmInputs, elapsed: u64)
    requires
        !m.enabled,
    ensures
        m.after(inputs, elapsed) == m,
        m.state == 0 ==> m.command() is None,
{
}

/// Every animation has one of the five speeds; the pulse near the limit never
/// has the slowest, which stands for sustained heat.
pub proof fn law_speed_is_in_range(m: AlarmMachine)
    requires
        m.wf(),
    ensures
        m.command() matches Some(LedCommand::Breathing { speed_idx, .. }) ==> speed_idx <= 4 && (
        speed_idx == 0 <==> m.state == 1),
        m.command() matches Some(LedCommand::Runway { speed_idx, .. }) ==> speed_idx <= 4,
{
}

/// The longer the limit has been near, the faster the pulse.
pub proof fn law_pulse_quickens(m: AlarmMachine, inputs: AlarmInputs, elapsed: u64)
    requires
        m.wf(),
        m.state == 2,
        m.after(inputs, elapsed).state == 2,
    ensures
        m.pulse_speed() <= m.after(inputs, elapsed).pulse_speed(),
{
    let a = m.in_state_secs as int;
    let b = m.after(inputs, elapsed).in_state_secs as int;
    vstd::arithmetic::div_mod::lemma_div_is_ordered(a, b, m.escalate_every_secs as int);
}

} // verus!
