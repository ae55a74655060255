//! Fan curves and the controller that follows them.

use crate::binary64;
use crate::binary64::{Binary64, Number};
use crate::config::CurvePoint;
use vstd::prelude::*;

verus! {

/// `x` moved towards `y` by the fraction `f` of their distance, to the nearest
/// whole number.
pub open spec fn blend(f: Number, x: u8, y: u8) -> u8 {
    let from = binary64::whole(x as nat);
    let step = f.product(binary64::whole(y as nat).difference(from));
    from.sum(step).nearest_byte()
}

/// How far `t` stands from `a` to `b`.
pub open spec fn fraction(t: Number, a: Number, b: Number) -> Number {
    t.difference(a).quotient(b.difference(a))
}

/// Duty on the straight line from point `a` to point `b`.
pub open spec fn segment_duty(a: CurvePoint, b: CurvePoint, t: Number) -> u8 {
    blend(fraction(t, a.temp@, b.temp@), a.duty, b.duty)
}

/// Duty from the first segment, counted by its right end from `i` on, that
/// ends at or after `t`.
pub open spec fn duty_from(curve: Seq<CurvePoint>, t: Number, i: int) -> u8
    decreases curve.len() - i,
{
    if i >= curve.len() {
        curve.last().duty
    } else if t.at_most(curve[i].temp@) {
        segment_duty(curve[i - 1], curve[i], t)
    } else {
        duty_from(curve, t, i + 1)
    }
}

/// The duty that a curve gives for `t`: the end duties outside the curve, the
/// straight line between neighbouring points inside it.
pub open spec fn interpolated(curve: Seq<CurvePoint>, t: Number) -> u8 {
    if t.at_most(curve[0].temp@) {
        curve[0].duty
    } else if curve.last().temp@.at_most(t) {
        curve.last().duty
    } else {
        duty_from(curve, t, 1)
    }
}

/// `x` moved towards `y` by the fraction `f` of their distance.
pub fn blended(f: Binary64, x: u8, y: u8) -> (d: u8)
    ensures
        d == blend(f@, x, y),
{
    let from: Binary64 = Binary64::from_u64(x as u64);
    let to: Binary64 = Binary64::from_u64(y as u64);
    from.plus(f.times(to.minus(from))).nearest_byte()
}

/// Piecewise-linear interpolation over a sorted curve, clamped at both ends.
pub fn interpolate(curve: &[CurvePoint], temp: Binary64) -> (duty: u8)
    requires
        curve@.len() > 0,
    ensures
        duty == interpolated(curve@, temp@),
        temp@.at_most(curve@[0].temp@) ==> duty == curve@[0].duty,
        curve@[0].temp@.below(temp@) && curve@.last().temp@.at_most(temp@) ==> duty
            == curve@.last().duty,
{
    if temp.le(curve[0].temp) {
        return curve[0].duty;
    }
    let last: CurvePoint = curve[curve.len() - 1];
    if last.temp.le(temp) {
        return last.duty;
    }
    let mut i: usize = 1;
    while i < curve.len()
        invariant
            1 <= i <= curve@.len(),
            last == curve@.last(),
            interpolated(curve@, temp@) == duty_from(curve@, temp@, i as int),
        decreases curve@.len() - i,
    {
        let a: CurvePoint = curve[i - 1];
        let b: CurvePoint = curve[i];
        if temp.le(b.temp) {
            let f: Binary64 = temp.minus(a.temp).over(b.temp.minus(a.temp));
            return blended(f, a.duty, b.duty);
        }
        i = i + 1;
    }
    last.duty
}

/// Decides when and how far to move fan duty: hysteresis suppresses noise,
/// slew limiting smooths ramps.
pub struct Controller {
    /// Temperature change below which small duty changes are held.
    pub hysteresis_c: Binary64,
    /// Duty change below which a change is held.
    pub min_duty_delta: u8,
    /// Largest duty change of one decision.
    pub max_step: u8,
    /// The duty decided last.
    pub last_duty: Option<u8>,
    /// The temperature of the last decision that was not held.
    pub last_temp: Binary64,
}

/// Distance between two duties.
pub open spec fn duty_gap(a: u8, b: u8) -> int {
    if a >= b {
        a - b
    } else {
        b - a
    }
}

/// The duty one step of at most `max_step` from `last` towards `target`.
pub open spec fn stepped(last: u8, target: u8, max_step: u8) -> u8 {
    if duty_gap(target, last) <= max_step {
        target
    } else if target > last {
        (last + max_step) as u8
    } else {
        (last - max_step) as u8
    }
}

impl Controller {
    /// Whether `temp` is at least the hysteresis away from the last one.
    pub open spec fn temp_moved(self, temp: Option<Binary64>) -> bool {
        match temp {
            Some(t) => self.hysteresis_c@.at_most(t@.difference(self.last_temp@).magnitude()),
            None => false,
        }
    }

    /// Whether a decision is held: there was one before, and neither the
    /// temperature nor the duty moved enough.
    pub open spec fn holds(self, target: u8, temp: Option<Binary64>) -> bool {
        match self.last_duty {
            None => false,
            Some(last) => !self.temp_moved(temp) && duty_gap(target, last) < self.min_duty_delta,
        }
    }

    /// What a decision towards `target` gives.
    pub open spec fn decision(self, target: u8, temp: Option<Binary64>) -> Option<u8> {
        match self.last_duty {
            None => Some(target),
            Some(last) => if self.holds(target, temp) || target == last {
                None
            } else {
                Some(stepped(last, target, self.max_step))
            },
        }
    }

    /// The controller after a decision towards `target`: a held decision
    /// leaves everything as it was, any other remembers the temperature.
    pub open spec fn after(self, target: u8, temp: Option<Binary64>) -> Controller {
        if self.holds(target, temp) {
            self
        } else {
            Controller {
                last_duty: match self.decision(target, temp) {
                    Some(next) => Some(next),
                    None => self.last_duty,
                },
                last_temp: match temp {
                    Some(t) => t,
                    None => self.last_temp,
                },
                ..self
            }
        }
    }

    /// A controller that has not decided anything yet.
    pub fn new(hysteresis_c: Binary64, min_duty_delta: u8, max_step: u8) -> (ctl: Controller)
        ensures
            ctl.hysteresis_c == hysteresis_c,
            ctl.min_duty_delta == min_duty_delta,
            ctl.max_step == max_step,
            ctl.last_duty is None,
            ctl.last_temp@ is NotANumber,
    {
        Controller {
            hysteresis_c,
            min_duty_delta,
            max_step,
            last_duty: None,
            last_temp: Binary64::nan(),
        }
    }

    /// Takes `duty` as decided, whatever the curve says.
    pub fn force(&mut self, duty: u8)
        ensures
            *final(self) == (Controller { last_duty: Some(duty), ..*old(self) }),
    {
        self.last_duty = Some(duty);
    }

    /// One decision towards what the curve gives for `temp`.
    pub fn decide(&mut self, curve: &[CurvePoint], temp: Binary64) -> (r: Option<u8>)
        requires
            curve@.len() > 0,
        ensures
            r == old(self).decision(interpolated(curve@, temp@), Some(temp)),
            *final(self) == old(self).after(interpolated(curve@, temp@), Some(temp)),
    {
        let target: u8 = interpolate(curve, temp);
        self.step_toward(target, Some(temp))
    }

    /// One decision towards a duty that was found otherwise. The temperature
    /// plays no part in it and is not remembered.
    pub fn decide_target(&mut self, target: u8) -> (r: Option<u8>)
        ensures
            r == old(self).decision(target, None),
            *final(self) == old(self).after(target, None),
    {
        self.step_toward(target, None)
    }

    /// Hysteresis hold, then a slew-limited step.
    pub fn step_toward(&mut self, target: u8, temp: Option<Binary64>) -> (r: Option<u8>)
        ensures
            r == old(self).decision(target, temp),
            *final(self) == old(self).after(target, temp),
            old(self).last_duty is None ==> r == Some(target),
            old(self).last_duty matches Some(last) ==> match r {
                None => target == last || (target - last < old(self).min_duty_delta && last - target
                    < old(self).min_duty_delta),
                Some(next) => if target > last {
                    next == target && next - last <= old(self).max_step || next == last + old(
                        self,
                    ).max_step && next < target
                } else {
                    next == target && target < last && last - next <= old(self).max_step || next
                        == last - old(self).max_step && target < next
                },
            },
            r is Some ==> final(self).last_duty == r,
            r is None ==> final(self).last_duty == old(self).last_duty,
            final(self).hysteresis_c == old(self).hysteresis_c,
            final(self).min_duty_delta == old(self).min_duty_delta,
            final(self).max_step == old(self).max_step,
    {
        let next: u8 = match self.last_duty {
            None => target,
            Some(last) => {
                let temp_moved: bool = match temp {
                    Some(t) => self.hysteresis_c.le(t.minus(self.last_temp).magnitude()),
                    None => false,
                };
                let gap: u8 = if target >= last {
                    target - last
                } else {
                    last - target
                };
                if !temp_moved && gap < self.min_duty_delta {
                    return None;
                }
                if gap == 0 {
                    if let Some(t) = temp {
                        self.last_temp = t;
                    }
                    return None;
                }
                let step: u8 = if gap < self.max_step {
                    gap
                } else {
                    self.max_step
                };
                if target > last {
                    last + step
                } else {
                    last - step
                }
            },
        };
        self.last_duty = Some(next);
        if let Some(t) = temp {
            self.last_temp = t;
        }
        Some(next)
    }
}

} // verus!
