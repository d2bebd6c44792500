//! One overlay surface and its life: constructed for a display, presented and
//! faded in, kept in the foreground, and closed.

use vstd::prelude::*;
use crate::fade::{FadeAnimator, FadeModel, FadeStep, Opacity, FADE_DURATION_MS, FRAME_TIME_MS};

verus! {

/// Where a surface is in its life.
#[derive(Clone, Copy, Debug, PartialEq, Eq, Structural)]
pub enum SurfacePhase {
    /// Set up for its display, transparent, not yet shown.
    Constructing,
    /// Shown and fading in.
    Ramping,
    /// Shown at full opacity.
    Opaque,
    /// Taken off its display.
    Closed,
}

/// What an `OverlaySurface` holds, as plain mathematical values.
pub struct SurfaceModel {
    /// The display the surface covers, by its place in the enumeration.
    pub display: u32,
    /// Where the surface is in its life.
    pub phase: SurfacePhase,
    /// The state of its fade-in.
    pub fade: FadeModel,
}

impl SurfaceModel {
    /// A surface that has just been set up for `display`.
    pub open spec fn constructed(display: u32) -> SurfaceModel {
        SurfaceModel {
            display,
            phase: SurfacePhase::Constructing,
            fade: FadeModel::fresh(FADE_DURATION_MS as nat, FRAME_TIME_MS as nat),
        }
    }

    /// What holds of every surface: its fade is well formed and agrees with
    /// its phase.
    pub open spec fn well_formed(self) -> bool {
        &&& self.fade.well_formed()
        &&& self.phase is Constructing ==> self.fade.elapsed_ms == 0
        &&& self.phase is Ramping ==> !self.fade.is_complete()
        &&& self.phase is Opaque ==> self.fade.is_complete()
    }

    /// Whether the surface is on its display.
    pub open spec fn is_presented(self) -> bool {
        self.phase is Ramping || self.phase is Opaque
    }

    /// The opacity of the surface.
    pub open spec fn opacity(self) -> Opacity {
        self.fade.opacity()
    }

    /// The surface once it has been asked to show itself: a new one starts to
    /// fade in, any other stays as it is.
    pub open spec fn presented(self) -> SurfaceModel {
        if self.phase is Constructing {
            SurfaceModel { phase: SurfacePhase::Ramping, ..self }
        } else {
            self
        }
    }

    /// The surface one fade step later. Only a surface that is fading in
    /// changes, and it becomes opaque with the step that completes its fade.
    pub open spec fn faded(self) -> SurfaceModel {
        if self.phase is Ramping {
            SurfaceModel {
                phase: if self.fade.stepped().is_complete() {
                    SurfacePhase::Opaque
                } else {
                    SurfacePhase::Ramping
                },
                fade: self.fade.stepped(),
                ..self
            }
        } else {
            self
        }
    }

    /// The surface once it has been closed.
    pub open spec fn closed(self) -> SurfaceModel {
        SurfaceModel { phase: SurfacePhase::Closed, ..self }
    }

    /// Whether the surface has to ask for the foreground again: it is on its
    /// display and is not the active surface.
    pub open spec fn needs_focus(self, is_foreground: bool) -> bool {
        self.is_presented() && !is_foreground
    }
}

/// The overlay that covers one display.
#[derive(Clone, Copy, Debug)]
pub struct OverlaySurface {
    display: u32,
    phase: SurfacePhase,
    fade: FadeAnimator,
}

impl View for OverlaySurface {
    type V = SurfaceModel;

    closed spec fn view(&self) -> SurfaceModel {
        SurfaceModel { display: self.display, phase: self.phase, fade: self.fade@ }
    }
}

impl OverlaySurface {
    #[verifier::type_invariant]
    spec fn inv(self) -> bool {
        self@.well_formed()
    }

    /// Sets up a transparent surface for `display`.
    pub fn new(display: u32) -> (surface: OverlaySurface)
        ensures
            surface@ == SurfaceModel::constructed(display),
            surface@.well_formed(),
            surface@.opacity().is_transparent(),
    {
        OverlaySurface {
            display,
            phase: SurfacePhase::Constructing,
            fade: FadeAnimator::standard(),
        }
    }

    /// Asks the surface to show itself and says whether the host has to
    /// present and focus it: it has to unless the surface is closed.
    pub fn present(&mut self) -> (shown: bool)
        ensures
            final(self)@ == old(self)@.presented(),
            final(self)@.well_formed(),
            shown == !(old(self)@.phase is Closed),
    {
        proof {
            use_type_invariant(&*self);
        }
        match self.phase {
            SurfacePhase::Constructing => {
                *self = OverlaySurface {
                    display: self.display,
                    phase: SurfacePhase::Ramping,
                    fade: self.fade,
                };
                true
            },
            SurfacePhase::Closed => false,
            _ => true,
        }
    }

    /// Advances the fade-in by one frame and says what opacity to show and
    /// whether to step again. Steps again only while the surface is fading in.
    pub fn fade_step(&mut self) -> (step: FadeStep)
        ensures
            final(self)@ == old(self)@.faded(),
            final(self)@.well_formed(),
            step.opacity == final(self)@.opacity(),
            step.opacity.in_range(),
            step.reschedule == (final(self)@.phase is Ramping),
    {
        proof {
            use_type_invariant(&*self);
        }
        match self.phase {
            SurfacePhase::Ramping => {
                let mut fade: FadeAnimator = self.fade;
                let step: FadeStep = fade.step();
                *self = OverlaySurface {
                    display: self.display,
                    phase: if step.reschedule {
                        SurfacePhase::Ramping
                    } else {
                        SurfacePhase::Opaque
                    },
                    fade,
                };
                step
            },
            _ => FadeStep { opacity: self.fade.opacity(), reschedule: false },
        }
    }

    /// Whether the surface has to ask for the foreground again, given whether
    /// it is the active surface now.
    pub fn needs_focus(&self, is_foreground: bool) -> (needed: bool)
        ensures
            needed == self@.needs_focus(is_foreground),
    {
        !is_foreground && match self.phase {
            SurfacePhase::Ramping => true,
            SurfacePhase::Opaque => true,
            _ => false,
        }
    }

    /// Closes the surface and says whether the host has to release it: it has
    /// to unless the surface was closed before.
    pub fn close(&mut self) -> (released: bool)
        ensures
            final(self)@ == old(self)@.closed(),
            final(self)@.well_formed(),
            released == !(old(self)@.phase is Closed),
    {
        proof {
            use_type_invariant(&*self);
        }
        let released: bool = match self.phase {
            SurfacePhase::Closed => false,
            _ => true,
        };
        *self = OverlaySurface { display: self.display, phase: SurfacePhase::Closed, fade: self.fade };
        released
    }

    /// The display the surface covers.
    pub fn display(&self) -> (display: u32)
        ensures
            display == self@.display,
    {
        self.display
    }

    /// Where the surface is in its life.
    pub fn phase(&self) -> (phase: SurfacePhase)
        ensures
            phase == self@.phase,
            self@.well_formed(),
    {
        proof {
            use_type_invariant(self);
        }
        self.phase
    }

    /// The opacity of the surface.
    pub fn opacity(&self) -> (opacity: Opacity)
        ensures
            opacity == self@.opacity(),
            opacity.in_range(),
    {
        self.fade.opacity()
    }
}

} // verus!
