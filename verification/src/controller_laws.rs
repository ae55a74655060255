//! What holds of every controller.

use crate::binary64::{Binary64, Number};
use crate::curve;
use crate::curve::Controller;
use vstd::prelude::*;

verus! {

/// One decision, in all cases. Without a duty before, the target itself. With
/// one, nothing if the target is reached, or if the duty would move by less than
/// the least change and the temperature by less than the hysteresis. Otherwise
/// a duty exactly as far towards the target as the step limit allows. Only a
/// duty that is given replaces the one before.
pub proof fn law_decision_is_exact(ctl: Controller, target: u8, temp: Option<Binary64>)
    ensures
        ctl.last_duty is None ==> ctl.decision(target, temp) == Some(target),
        ctl.last_duty matches Some(last) ==> {
            let gap = curve::duty_gap(target, last);
            let moved = temp matches Some(t) && ctl.hysteresis_c@.at_most(
                t@.difference(ctl.last_temp@).magnitude(),
            );
            let step = if gap <= ctl.max_step {
                gap
            } else {
                ctl.max_step as int
            };
            &&& ctl.decision(target, temp) is None <==> gap == 0 || (gap < ctl.min_duty_delta
                && !moved)
            &&& ctl.decision(target, temp) matches Some(next) ==> next == if target > last {
                last + step
            } else {
                last - step
            }
        },
        ctl.decision(target, temp) is None ==> ctl.after(target, temp).last_duty == ctl.last_duty,
        ctl.decision(target, temp) is Some ==> ctl.after(target, temp).last_duty == ctl.decision(
            target,
            temp,
        ),
{
}

/// What a controller can be asked.
pub enum Call {
    /// To take a duty as decided.
    Force { duty: u8 },
    /// To decide, with or without a temperature.
    Decide { target: u8, temp: Option<Binary64> },
}

/// The duty that a call gives or takes, if any.
pub open spec fn given(ctl: Controller, call: Call) -> Option<u8> {
    match call {
        Call::Force { duty } => Some(duty),
        Call::Decide { target, temp } => ctl.decision(target, temp),
    }
}

/// The temperature of a decision that is not held.
pub open spec fn noted(ctl: Controller, call: Call) -> Option<Binary64> {
    match call {
        Call::Force { .. } => None,
        Call::Decide { target, temp } => if ctl.holds(target, temp) {
            None
        } else {
            temp
        },
    }
}

/// The controller after a call.
pub open spec fn called(ctl: Controller, call: Call) -> Controller {
    match call {
        Call::Force { duty } => Controller { last_duty: Some(duty), ..ctl },
        Call::Decide { target, temp } => ctl.after(target, temp),
    }
}

/// The controller after the first `n` calls.
pub open spec fn after_calls(ctl: Controller, calls: Seq<Call>, n: int) -> Controller
    decreases n,
{
    if n <= 0 {
        ctl
    } else {
        called(after_calls(ctl, calls, n - 1), calls[n - 1])
    }
}

/// Whether none of the calls from `i` up to `n` gives a duty.
pub open spec fn gives_none(ctl: Controller, calls: Seq<Call>, i: int, n: int) -> bool {
    forall|j: int|
        i <= j < n ==> given(#[trigger] after_calls(ctl, calls, j), calls[j]) is None
}

/// Whether none of the calls from `i` up to `n` notes a temperature.
pub open spec fn notes_none(ctl: Controller, calls: Seq<Call>, i: int, n: int) -> bool {
    forall|j: int|
        i <= j < n ==> noted(#[trigger] after_calls(ctl, calls, j), calls[j]) is None
}

proof fn lemma_duty_stays(ctl: Controller, calls: Seq<Call>, i: int, n: int)
    requires
        0 <= i <= n,
        gives_none(ctl, calls, i, n),
    ensures
        after_calls(ctl, calls, n).last_duty == after_calls(ctl, calls, i).last_duty,
    decreases n - i,
{
    if i < n {
        lemma_duty_stays(ctl, calls, i, n - 1);
        assert(given(after_calls(ctl, calls, n - 1), calls[n - 1]) is None);
    }
}

proof fn lemma_temperature_stays(ctl: Controller, calls: Seq<Call>, i: int, n: int)
    requires
        0 <= i <= n,
        notes_none(ctl, calls, i, n),
    ensures
        after_calls(ctl, calls, n).last_temp == after_calls(ctl, calls, i).last_temp,
    decreases n - i,
{
    if i < n {
        lemma_temperature_stays(ctl, calls, i, n - 1);
        assert(noted(after_calls(ctl, calls, n - 1), calls[n - 1]) is None);
    }
}

/// However often it was asked, a controller goes by the duty that it gave or
/// took last, and by the one it started with if there was none.
pub proof fn law_last_duty_is_remembered(ctl: Controller, calls: Seq<Call>, n: int)
    requires
        0 <= n <= calls.len(),
    ensures
        gives_none(ctl, calls, 0, n) ==> after_calls(ctl, calls, n).last_duty == ctl.last_duty,
        forall|i: int|
            0 <= i < n && given(#[trigger] after_calls(ctl, calls, i), calls[i]) is Some
                && gives_none(ctl, calls, i + 1, n) ==> after_calls(ctl, calls, n).last_duty
                == given(after_calls(ctl, calls, i), calls[i]),
{
    if gives_none(ctl, calls, 0, n) {
        lemma_duty_stays(ctl, calls, 0, n);
    }
    assert forall|i: int|
        0 <= i < n && given(#[trigger] after_calls(ctl, calls, i), calls[i]) is Some && gives_none(
            ctl,
            calls,
            i + 1,
            n,
        ) implies after_calls(ctl, calls, n).last_duty == given(
        after_calls(ctl, calls, i),
        calls[i],
    ) by {
        lemma_duty_stays(ctl, calls, i + 1, n);
    }
}

/// However often it was asked, a controller goes by the temperature of the last
/// decision that was not held, and by the one it started with if there was none.
pub proof fn law_last_temperature_is_remembered(ctl: Controller, calls: Seq<Call>, n: int)
    requires
        0 <= n <= calls.len(),
    ensures
        notes_none(ctl, calls, 0, n) ==> after_calls(ctl, calls, n).last_temp == ctl.last_temp,
        forall|i: int|
            0 <= i < n && noted(#[trigger] after_calls(ctl, calls, i), calls[i]) is Some
                && notes_none(ctl, calls, i + 1, n) ==> Some(after_calls(ctl, calls, n).last_temp)
                == noted(after_calls(ctl, calls, i), calls[i]),
{
    if notes_none(ctl, calls, 0, n) {
        lemma_temperature_stays(ctl, calls, 0, n);
    }
    assert forall|i: int|
        0 <= i < n && noted(#[trigger] after_calls(ctl, calls, i), calls[i]) is Some && notes_none(
            ctl,
            calls,
            i + 1,
            n,
        ) implies Some(after_calls(ctl, calls, n).last_temp) == noted(
        after_calls(ctl, calls, i),
        calls[i],
    ) by {
        lemma_temperature_stays(ctl, calls, i + 1, n);
    }
}

/// The duty that the first `n` calls gave or took last, if any did.
pub open spec fn last_given(ctl: Controller, calls: Seq<Call>, n: int) -> Option<u8>
    decreases n,
{
    if n <= 0 {
        None
    } else {
        match given(after_calls(ctl, calls, n - 1), calls[n - 1]) {
            Some(duty) => Some(duty),
            None => last_given(ctl, calls, n - 1),
        }
    }
}

/// The temperature of the last decision among the first `n` calls that was not
/// held. Not a number if there was none.
pub open spec fn last_noted(ctl: Controller, calls: Seq<Call>, n: int) -> Number
    decreases n,
{
    if n <= 0 {
        Number::NotANumber
    } else {
        match noted(after_calls(ctl, calls, n - 1), calls[n - 1]) {
            Some(temp) => temp@,
            None => last_noted(ctl, calls, n - 1),
        }
    }
}

proof fn lemma_remembered(ctl: Controller, calls: Seq<Call>, n: int)
    requires
        0 <= n <= calls.len(),
        ctl.last_duty is None,
        ctl.last_temp@ is NotANumber,
    ensures
        after_calls(ctl, calls, n).last_duty == last_given(ctl, calls, n),
        after_calls(ctl, calls, n).last_temp@ == last_noted(ctl, calls, n),
        after_calls(ctl, calls, n).hysteresis_c == ctl.hysteresis_c,
        after_calls(ctl, calls, n).min_duty_delta == ctl.min_duty_delta,
        after_calls(ctl, calls, n).max_step == ctl.max_step,
    decreases n,
{
    if n > 0 {
        lemma_remembered(ctl, calls, n - 1);
    }
}

/// What `step_toward` gives and keeps on a controller that was new and then
/// called any number of times: all of it follows from the duty given or taken
/// last and from the temperature of the last decision that was not held.
pub proof fn law_step_follows_from_the_history(
    ctl: Controller,
    calls: Seq<Call>,
    target: u8,
    temp: Option<Binary64>,
)
    requires
        ctl.last_duty is None,
        ctl.last_temp@ is NotANumber,
    ensures
        ({
            let n = calls.len() as int;
            let now = after_calls(ctl, calls, n);
            let r = now.decision(target, temp);
            let moved = temp matches Some(t) && ctl.hysteresis_c@.at_most(
                t@.difference(last_noted(ctl, calls, n)).magnitude(),
            );
            &&& match last_given(ctl, calls, n) {
                None => r == Some(target),
                Some(last) => {
                    let gap = curve::duty_gap(target, last);
                    let step = if gap <= ctl.max_step {
                        gap
                    } else {
                        ctl.max_step as int
                    };
                    &&& r is None <==> gap == 0 || (gap < ctl.min_duty_delta && !moved)
                    &&& r matches Some(next) ==> next == if target > last {
                        last + step
                    } else {
                        last - step
                    }
                },
            }
            &&& now.after(target, temp).last_duty == if r is Some {
                r
            } else {
                last_given(ctl, calls, n)
            }
        }),
{
    lemma_remembered(ctl, calls, calls.len() as int);
}

/// One decision moves the duty by at most the step limit, towards the target
/// and never past it.
pub proof fn law_decision_is_slew_limited(
    ctl: Controller,
    target: u8,
    temp: Option<Binary64>,
    last: u8,
    next: u8,
)
    requires
        ctl.last_duty == Some(last),
        ctl.decision(target, temp) == Some(next),
    ensures
        curve::duty_gap(next, last) <= ctl.max_step,
        last < target ==> last <= next <= target,
        target < last ==> target <= next <= last,
        curve::duty_gap(target, next) == if curve::duty_gap(target, last) <= ctl.max_step {
            0
        } else {
            curve::duty_gap(target, last) - ctl.max_step
        },
{
}

/// A controller whose duties and targets are percentages stays one.
pub proof fn law_decision_stays_percent(ctl: Controller, target: u8, temp: Option<Binary64>)
    requires
        target <= 100,
        ctl.last_duty matches Some(d) ==> d <= 100,
    ensures
        ctl.decision(target, temp) matches Some(d) ==> d <= 100,
        ctl.after(target, temp).last_duty matches Some(d) ==> d <= 100,
{
}

/// The controller after `n` decisions towards the same target.
pub open spec fn after_many(ctl: Controller, target: u8, n: nat) -> Controller
    decreases n,
{
    if n == 0 {
        ctl
    } else {
        after_many(ctl, target, (n - 1) as nat).after(target, None)
    }
}

/// A constant target is approached: `n` decisions leave a gap of at most what
/// `n` full steps leave, or one too small to act on.
pub proof fn law_ramp_converges(ctl: Controller, target: u8, last: u8, n: nat)
    requires
        ctl.last_duty == Some(last),
    ensures
        ({
            let end = after_many(ctl, target, n);
            &&& end.min_duty_delta == ctl.min_duty_delta
            &&& end.max_step == ctl.max_step
            &&& end.last_temp == ctl.last_temp
            &&& end.last_duty matches Some(d) && (curve::duty_gap(target, d) == 0
                || curve::duty_gap(target, d) < ctl.min_duty_delta || curve::duty_gap(target, d)
                <= curve::duty_gap(target, last) - n * ctl.max_step)
        }),
    decreases n,
{
    if n > 0 {
        law_ramp_converges(ctl, target, last, (n - 1) as nat);
        assert((n - 1) * ctl.max_step + ctl.max_step == n * ctl.max_step) by (nonlinear_arith)
            requires
                n > 0,
        ;
    } else {
        assert(0 * ctl.max_step == 0);
    }
}

/// A decision without a temperature neither reads nor writes the remembered
/// one.
pub proof fn law_target_decision_ignores_temperature(
    ctl: Controller,
    other_temp: Binary64,
    target: u8,
)
    ensures
        ctl.after(target, None).last_temp == ctl.last_temp,
        (Controller { last_temp: other_temp, ..ctl }).decision(target, None) == ctl.decision(
            target,
            None,
        ),
{
}

/// A small move of both temperature and duty changes nothing at all, not even
/// the remembered temperature, so slow drifts add up until they count.
pub proof fn law_small_moves_are_held(ctl: Controller, target: u8, temp: Binary64, last: u8)
    requires
        ctl.last_duty == Some(last),
        temp@.difference(ctl.last_temp@).magnitude().below(ctl.hysteresis_c@),
        curve::duty_gap(target, last) < ctl.min_duty_delta,
    ensures
        ctl.decision(target, Some(temp)) is None,
        ctl.after(target, Some(temp)) == ctl,
{
}

/// A move that is not held but has already reached its target gives no duty,
/// and the temperature is remembered.
pub proof fn law_reached_target_remembers_temperature(ctl: Controller, temp: Binary64, last: u8)
    requires
        ctl.last_duty == Some(last),
        !ctl.holds(last, Some(temp)),
    ensures
        ctl.decision(last, Some(temp)) is None,
        ctl.after(last, Some(temp)) == (Controller { last_temp: temp, ..ctl }),
{
}

} // verus!
