//! The fade-in of one overlay: a ramp from transparent to opaque that
//! advances by one frame period per step and stops once it is opaque.
//!
//! Opacity is kept exact, as the fraction of the fade's duration that has
//! elapsed.

use vstd::prelude::*;

verus! {

/// How long a fade-in lasts, in milliseconds.
pub const FADE_DURATION_MS: u32 = 200;

/// The time between two steps of a fade-in, in milliseconds.
pub const FRAME_TIME_MS: u32 = 16;

/// An opacity between transparent and opaque: the fraction `part / whole`.
#[derive(Clone, Copy, Debug, PartialEq, Eq, Structural)]
pub struct Opacity {
    pub part: u32,
    pub whole: u32,
}

impl Opacity {
    /// Whether the fraction is defined and lies between zero and one.
    pub open spec fn in_range(self) -> bool {
        0 < self.whole && self.part <= self.whole
    }

    /// Whether the fraction is one.
    pub open spec fn is_opaque(self) -> bool {
        self.part == self.whole
    }

    /// Whether the fraction is zero.
    pub open spec fn is_transparent(self) -> bool {
        self.part == 0
    }
}

/// What a `FadeAnimator` holds, as plain mathematical values.
pub struct FadeModel {
    /// The length of the whole fade.
    pub duration_ms: nat,
    /// The time that one step adds.
    pub period_ms: nat,
    /// The time that has gone by, never more than the duration.
    pub elapsed_ms: nat,
}

impl FadeModel {
    /// A fade that has not begun.
    pub open spec fn fresh(duration_ms: nat, period_ms: nat) -> FadeModel {
        FadeModel { duration_ms, period_ms, elapsed_ms: 0 }
    }

    /// What holds of every fade: both times are positive and the elapsed time
    /// is within the duration, so the opacity is a fraction between zero and one.
    pub open spec fn well_formed(self) -> bool {
        &&& 0 < self.duration_ms <= u32::MAX
        &&& 0 < self.period_ms <= u32::MAX
        &&& self.elapsed_ms <= self.duration_ms
    }

    /// Whether the fade has reached full opacity.
    pub open spec fn is_complete(self) -> bool {
        self.elapsed_ms >= self.duration_ms
    }

    /// The fade one step later: one period further on, held at the duration.
    pub open spec fn stepped(self) -> FadeModel {
        FadeModel {
            elapsed_ms: if self.elapsed_ms + self.period_ms >= self.duration_ms {
                self.duration_ms
            } else {
                self.elapsed_ms + self.period_ms
            },
            ..self
        }
    }

    /// The fade `count` steps later.
    pub open spec fn after_steps(self, count: nat) -> FadeModel
        decreases count,
    {
        if count == 0 {
            self
        } else {
            self.after_steps((count - 1) as nat).stepped()
        }
    }

    /// The opacity the overlay has at this point of the fade.
    pub open spec fn opacity(self) -> Opacity {
        Opacity { part: self.elapsed_ms as u32, whole: self.duration_ms as u32 }
    }
}

/// What one step of a fade asks of the host.
#[derive(Clone, Copy, Debug, PartialEq, Eq, Structural)]
pub struct FadeStep {
    /// The opacity to give the overlay now.
    pub opacity: Opacity,
    /// Whether another step is to follow after one more period.
    pub reschedule: bool,
}

/// Steps an overlay from transparent to opaque.
#[derive(Clone, Copy, Debug)]
pub struct FadeAnimator {
    duration_ms: u32,
    period_ms: u32,
    elapsed_ms: u32,
}

impl View for FadeAnimator {
    type V = FadeModel;

    closed spec fn view(&self) -> FadeModel {
        FadeModel {
            duration_ms: self.duration_ms as nat,
            period_ms: self.period_ms as nat,
            elapsed_ms: self.elapsed_ms as nat,
        }
    }
}

impl FadeAnimator {
    #[verifier::type_invariant]
    spec fn inv(self) -> bool {
        self@.well_formed()
    }

    /// A fade of `duration_ms` that has not begun and advances by `period_ms`
    /// per step. There is none where either time is zero.
    pub fn new(duration_ms: u32, period_ms: u32) -> (created: Option<FadeAnimator>)
        ensures
            created is Some <==> duration_ms > 0 && period_ms > 0,
            created matches Some(fade) ==> fade@ == FadeModel::fresh(
                duration_ms as nat,
                period_ms as nat,
            ),
    {
        if duration_ms == 0 || period_ms == 0 {
            None
        } else {
            Some(FadeAnimator { duration_ms, period_ms, elapsed_ms: 0 })
        }
    }

    /// The fade that every overlay starts with.
    pub fn standard() -> (fade: FadeAnimator)
        ensures
            fade@ == FadeModel::fresh(FADE_DURATION_MS as nat, FRAME_TIME_MS as nat),
    {
        FadeAnimator { duration_ms: FADE_DURATION_MS, period_ms: FRAME_TIME_MS, elapsed_ms: 0 }
    }

    /// Advances the fade by one period and says what opacity to show and
    /// whether to step again.
    pub fn step(&mut self) -> (step: FadeStep)
        ensures
            final(self)@ == old(self)@.stepped(),
            final(self)@.well_formed(),
            step.opacity == final(self)@.opacity(),
            step.opacity.in_range(),
            step.reschedule == !final(self)@.is_complete(),
            old(self)@.is_complete() ==> final(self)@ == old(self)@,
    {
        proof {
            use_type_invariant(&*self);
        }
        let remaining: u32 = self.duration_ms - self.elapsed_ms;
        let elapsed_ms: u32 = if self.period_ms >= remaining {
            self.duration_ms
        } else {
            self.elapsed_ms + self.period_ms
        };
        *self = FadeAnimator {
            duration_ms: self.duration_ms,
            period_ms: self.period_ms,
            elapsed_ms,
        };
        FadeStep {
            opacity: Opacity { part: elapsed_ms, whole: self.duration_ms },
            reschedule: elapsed_ms < self.duration_ms,
        }
    }

    /// The opacity the overlay has now.
    pub fn opacity(&self) -> (opacity: Opacity)
        ensures
            opacity == self@.opacity(),
            opacity.in_range(),
            self@.well_formed(),
    {
        proof {
            use_type_invariant(self);
        }
        Opacity { part: self.elapsed_ms, whole: self.duration_ms }
    }

    /// Whether the fade has reached full opacity.
    pub fn is_complete(&self) -> (complete: bool)
        ensures
            complete == self@.is_complete(),
    {
        self.elapsed_ms >= self.duration_ms
    }
}

/// The number of steps that take a fresh fade to full opacity: the duration
/// divided by the period, rounded up.
pub open spec fn steps_to_opaque(duration_ms: nat, period_ms: nat) -> nat {
    ((duration_ms + period_ms - 1) / (period_ms as int)) as nat
}

/// After `count` steps a fresh fade has advanced by `count` periods, held at
/// its duration.
pub proof fn lemma_elapsed_after_steps(duration_ms: nat, period_ms: nat, count: nat)
    requires
        FadeModel::fresh(duration_ms, period_ms).well_formed(),
    ensures
        FadeModel::fresh(duration_ms, period_ms).after_steps(count) == (FadeModel {
            duration_ms,
            period_ms,
            elapsed_ms: if count * period_ms >= duration_ms {
                duration_ms
            } else {
                count * period_ms
            },
        }),
    decreases count,
{
    if count > 0 {
        lemma_elapsed_after_steps(duration_ms, period_ms, (count - 1) as nat);
        assert(count * period_ms == (count - 1) * period_ms + period_ms) by (nonlinear_arith);
    } else {
        assert(count * period_ms == 0) by (nonlinear_arith)
            requires
                count == 0,
        ;
    }
}

/// A fresh fade never shows more than full opacity, and shows full opacity
/// after exactly `steps_to_opaque` steps: not before, and ever after.
pub proof fn lemma_fade_completes(duration_ms: nat, period_ms: nat, count: nat)
    requires
        FadeModel::fresh(duration_ms, period_ms).well_formed(),
    ensures
        FadeModel::fresh(duration_ms, period_ms).after_steps(count).opacity().in_range(),
        FadeModel::fresh(duration_ms, period_ms).after_steps(count).is_complete() <==> count
            >= steps_to_opaque(duration_ms, period_ms),
        FadeModel::fresh(duration_ms, period_ms).after_steps(count).opacity().is_opaque() <==> count
            >= steps_to_opaque(duration_ms, period_ms),
{
    lemma_elapsed_after_steps(duration_ms, period_ms, count);
    let needed = steps_to_opaque(duration_ms, period_ms);
    assert(needed * period_ms >= duration_ms && (needed - 1) * period_ms < duration_ms)
        by (nonlinear_arith)
        requires
            period_ms > 0,
            duration_ms > 0,
            needed == (duration_ms + period_ms - 1) / (period_ms as int),
    ;
    if count >= needed {
        assert(count * period_ms >= needed * period_ms) by (nonlinear_arith)
            requires
                count >= needed,
        ;
    } else {
        assert(count * period_ms <= (needed - 1) * period_ms) by (nonlinear_arith)
            requires
                count <= needed - 1,
        ;
    }
}

} // verus!
