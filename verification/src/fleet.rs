//! The fleet: the overlays of all displays, created together at activation
//! and torn down together on dismissal.
//!
//! The fleet decides; the host acts. Each operation changes the fleet's own
//! record and hands back what the host has to do to its windows, by slot: the
//! place of a surface in the fleet.

use vstd::prelude::*;
use vstd::string::*;
use crate::fade::FadeStep;
use crate::surface::{OverlaySurface, SurfaceModel};

verus! {

/// One entry of the display enumeration.
#[derive(Clone, Copy, Debug, PartialEq, Eq, Structural)]
pub struct DisplayHandle {
    /// The place of the entry in the enumeration.
    pub index: u32,
    /// Whether the entry could be adapted to a concrete output.
    pub is_output: bool,
}

/// A display that was skipped because it could not be adapted to a concrete
/// output. The other displays are not affected.
#[derive(Clone, Copy, Debug, PartialEq, Eq, Structural)]
pub struct DisplayAdaptationError {
    /// The place of the display in the enumeration.
    pub index: u32,
}

impl DisplayAdaptationError {
    /// The text for the log.
    pub fn message(&self) -> (text: String)
        ensures
            text@ == "Failed to downcast monitor object"@,
    {
        String::from_str("Failed to downcast monitor object")
    }
}

/// Something the host has to do.
#[derive(Clone, Copy, Debug, PartialEq, Eq, Structural)]
pub enum HostAction {
    /// Bring the surface in this slot to the foreground and give it the focus.
    Present { slot: usize },
    /// Release the surface in this slot and take it off its display.
    Close { slot: usize },
    /// Ask the application to exit.
    Quit,
}

/// Where the whole system is in its life.
#[derive(Clone, Copy, Debug, PartialEq, Eq, Structural)]
pub enum SystemPhase {
    /// No surface has been created yet.
    Idle,
    /// The surfaces are on their displays.
    Active,
    /// Dismissal has been seen and teardown is under way.
    Dismissing,
    /// The surfaces are gone and the application has been asked to exit.
    Terminated,
}

impl SystemPhase {
    /// The place of the phase in the order in which the system passes
    /// through its phases.
    pub open spec fn rank(self) -> nat {
        match self {
            SystemPhase::Idle => 0,
            SystemPhase::Active => 1,
            SystemPhase::Dismissing => 2,
            SystemPhase::Terminated => 3,
        }
    }
}

/// The slots `0, 1, ..` below `count`, in rising order.
pub open spec fn slots_below(count: nat) -> Seq<int> {
    Seq::new(count, |slot: int| slot)
}

/// Whether the surface in `slot` is the active one according to `foreground`,
/// which holds one flag per slot. A slot without a flag counts as not active.
pub open spec fn is_foreground(foreground: Seq<bool>, slot: int) -> bool {
    0 <= slot < foreground.len() && foreground[slot]
}

/// The test that picks the displays that get a surface.
pub open spec fn admits() -> spec_fn(DisplayHandle) -> bool {
    |handle: DisplayHandle| handle.is_output
}

/// The test that picks the displays that are skipped.
pub open spec fn refuses() -> spec_fn(DisplayHandle) -> bool {
    |handle: DisplayHandle| !handle.is_output
}

/// The surfaces that activation creates for `displays`: one for each entry
/// that is an output, in the order of the enumeration, each already presented.
pub open spec fn new_surfaces(displays: Seq<DisplayHandle>) -> Seq<SurfaceModel> {
    let admitted = displays.filter(admits());
    Seq::new(admitted.len(), |i: int| SurfaceModel::constructed(admitted[i].index).presented())
}

/// The displays that activation skips: the entries that are no output, in the
/// order of the enumeration.
pub open spec fn skipped_displays(displays: Seq<DisplayHandle>) -> Seq<DisplayAdaptationError> {
    let refused = displays.filter(refuses());
    Seq::new(refused.len(), |i: int| DisplayAdaptationError { index: refused[i].index })
}

/// What an `OverlayFleet` holds, as plain mathematical values.
pub struct FleetModel {
    /// The surfaces, in the order in which their displays were enumerated.
    pub surfaces: Seq<SurfaceModel>,
    /// Where the system is in its life.
    pub phase: SystemPhase,
}

impl FleetModel {
    /// The fleet before activation.
    pub open spec fn idle() -> FleetModel {
        FleetModel { surfaces: Seq::empty(), phase: SystemPhase::Idle }
    }

    /// What holds of every fleet: each surface is well formed, and there are
    /// surfaces only between activation and teardown.
    pub open spec fn well_formed(self) -> bool {
        &&& forall|slot: int|
            0 <= slot < self.surfaces.len() ==> (#[trigger] self.surfaces[slot]).well_formed()
        &&& self.phase is Idle || self.phase is Terminated ==> self.surfaces.len() == 0
    }

    /// Whether the fleet still takes on displays. It does until dismissal.
    pub open spec fn accepts_displays(self) -> bool {
        self.phase is Idle || self.phase is Active
    }

    /// The fleet once `displays` have been activated: the new surfaces follow
    /// the ones it had. A fleet that no longer takes on displays is unchanged.
    pub open spec fn activated(self, displays: Seq<DisplayHandle>) -> FleetModel {
        if self.accepts_displays() {
            FleetModel {
                surfaces: self.surfaces + new_surfaces(displays),
                phase: SystemPhase::Active,
            }
        } else {
            self
        }
    }

    /// The displays that an activation reports as skipped.
    pub open spec fn skipped(self, displays: Seq<DisplayHandle>) -> Seq<DisplayAdaptationError> {
        if self.accepts_displays() {
            skipped_displays(displays)
        } else {
            Seq::empty()
        }
    }

    /// The fleet once the surface in `slot` has made one fade step. A slot
    /// that holds no surface changes nothing.
    pub open spec fn faded(self, slot: int) -> FleetModel {
        if 0 <= slot < self.surfaces.len() {
            FleetModel { surfaces: self.surfaces.update(slot, self.surfaces[slot].faded()), ..self }
        } else {
            self
        }
    }

    /// Whether the surface in `slot` has to ask for the foreground again,
    /// given whether it is the active surface now.
    pub open spec fn needs_focus(self, slot: int, is_foreground: bool) -> bool {
        0 <= slot < self.surfaces.len() && self.surfaces[slot].needs_focus(is_foreground)
    }

    /// The test that picks the slots whose surfaces have lost the foreground.
    pub open spec fn lost_focus(self, foreground: Seq<bool>) -> spec_fn(int) -> bool {
        |slot: int| self.needs_focus(slot, is_foreground(foreground, slot))
    }

    /// What brings every surface that has lost the foreground back to it: one
    /// `Present` for each such slot, in rising order.
    pub open spec fn refocus_actions(self, foreground: Seq<bool>) -> Seq<HostAction> {
        let slots = slots_below(self.surfaces.len()).filter(self.lost_focus(foreground));
        Seq::new(slots.len(), |i: int| HostAction::Present { slot: slots[i] as usize })
    }

    /// The test that picks the slots whose surfaces are not closed yet.
    pub open spec fn still_open(self) -> spec_fn(int) -> bool {
        |slot: int| 0 <= slot < self.surfaces.len() && !(self.surfaces[slot].phase is Closed)
    }

    /// What tears the fleet down: one `Close` for each surface that is not
    /// closed yet, in rising order of the slots, and then one `Quit`.
    pub open spec fn teardown_actions(self) -> Seq<HostAction> {
        let slots = slots_below(self.surfaces.len()).filter(self.still_open());
        Seq::new(slots.len(), |i: int| HostAction::Close { slot: slots[i] as usize }).push(
            HostAction::Quit,
        )
    }

    /// The fleet once dismissal has been seen: it takes on no more displays.
    /// A fleet that has ended stays as it is.
    pub open spec fn dismissing(self) -> FleetModel {
        if self.phase is Terminated {
            self
        } else {
            FleetModel { phase: SystemPhase::Dismissing, ..self }
        }
    }

    /// The fleet after teardown: no surface is left and the system has ended.
    pub open spec fn torn_down(self) -> FleetModel {
        FleetModel { surfaces: Seq::empty(), phase: SystemPhase::Terminated }
    }
}

/// The models of a run of surfaces.
pub open spec fn models(surfaces: Seq<OverlaySurface>) -> Seq<SurfaceModel> {
    Seq::new(surfaces.len(), |slot: int| surfaces[slot]@)
}

/// The overlays of all displays.
#[derive(Debug)]
pub struct OverlayFleet {
    surfaces: Vec<OverlaySurface>,
    phase: SystemPhase,
}

impl View for OverlayFleet {
    type V = FleetModel;

    closed spec fn view(&self) -> FleetModel {
        FleetModel { surfaces: models(self.surfaces@), phase: self.phase }
    }
}

impl OverlayFleet {
    /// A fleet without surfaces, before activation.
    pub fn new() -> (fleet: OverlayFleet)
        ensures
            fleet@ == FleetModel::idle(),
            fleet@.well_formed(),
    {
        let fleet = OverlayFleet { surfaces: Vec::new(), phase: SystemPhase::Idle };
        assert(fleet@.surfaces =~= Seq::empty());
        fleet
    }

    /// The number of surfaces.
    pub fn len(&self) -> (count: usize)
        ensures
            count == self@.surfaces.len(),
    {
        self.surfaces.len()
    }

    /// Where the system is in its life.
    pub fn phase(&self) -> (phase: SystemPhase)
        ensures
            phase == self@.phase,
    {
        self.phase
    }

    /// The surface in `slot`, if there is one.
    pub fn surface(&self, slot: usize) -> (found: Option<OverlaySurface>)
        ensures
            found is Some <==> slot < self@.surfaces.len(),
            found matches Some(surface) ==> surface@ == self@.surfaces[slot as int],
    {
        if slot < self.surfaces.len() {
            Some(self.surfaces[slot])
        } else {
            None
        }
    }

    /// Creates and presents one surface for each display that is an output
    /// and returns the displays that were skipped because they are none. Once
    /// dismissal has been seen nothing is created and nothing reported.
    pub fn activate(&mut self, displays: &Vec<DisplayHandle>) -> (skipped: Vec<
        DisplayAdaptationError,
    >)
        ensures
            final(self)@ == old(self)@.activated(displays@),
            skipped@ == old(self)@.skipped(displays@),
            old(self)@.well_formed() ==> final(self)@.well_formed(),
    {
        let mut skipped: Vec<DisplayAdaptationError> = Vec::new();
        match self.phase {
            SystemPhase::Idle => {},
            SystemPhase::Active => {},
            _ => {
                return skipped;
            },
        }
        self.phase = SystemPhase::Active;
        let mut at: usize = 0;
        proof {
            reveal(Seq::filter);
            assert(displays@.take(0) =~= Seq::empty());
            assert(self@.surfaces =~= old(self)@.surfaces + new_surfaces(displays@.take(0)));
        }
        while at < displays.len()
            invariant
                at <= displays.len(),
                self.phase is Active,
                self@.surfaces == old(self)@.surfaces + new_surfaces(displays@.take(at as int)),
                skipped@ == skipped_displays(displays@.take(at as int)),
                old(self)@.well_formed() ==> self@.well_formed(),
            decreases displays.len() - at,
        {
            let handle: DisplayHandle = displays[at];
            proof {
                assert(displays@.take(at + 1) =~= displays@.take(at as int).push(handle));
                displays@.take(at as int).lemma_filter_push(handle, admits());
                displays@.take(at as int).lemma_filter_push(handle, refuses());
            }
            if handle.is_output {
                let mut surface = OverlaySurface::new(handle.index);
                surface.present();
                let ghost before = self@.surfaces;
                self.surfaces.push(surface);
                assert(self@.surfaces =~= before.push(surface@));
                assert(new_surfaces(displays@.take(at + 1)) =~= new_surfaces(
                    displays@.take(at as int),
                ).push(surface@));
                assert(self@.surfaces =~= old(self)@.surfaces + new_surfaces(
                    displays@.take(at + 1),
                ));
            } else {
                skipped.push(DisplayAdaptationError { index: handle.index });
                assert(skipped@ =~= skipped_displays(displays@.take(at + 1)));
            }
            at += 1;
        }
        assert(displays@.take(at as int) =~= displays@);
        skipped
    }

    /// Notes that dismissal has been seen, so that teardown can follow.
    pub fn begin_dismissal(&mut self)
        ensures
            final(self)@ == old(self)@.dismissing(),
            old(self)@.well_formed() ==> final(self)@.well_formed(),
    {
        match self.phase {
            SystemPhase::Terminated => {},
            _ => {
                self.phase = SystemPhase::Dismissing;
            },
        }
    }

    /// Advances the fade-in of the surface in `slot` by one frame and says
    /// what opacity to show and whether to step again. There is nothing to
    /// show where the slot holds no surface.
    pub fn fade_tick(&mut self, slot: usize) -> (step: Option<FadeStep>)
        ensures
            final(self)@ == old(self)@.faded(slot as int),
            old(self)@.well_formed() ==> final(self)@.well_formed(),
            step is Some <==> slot < old(self)@.surfaces.len(),
            step matches Some(shown) ==> {
                &&& shown.opacity == final(self)@.surfaces[slot as int].opacity()
                &&& shown.opacity.in_range()
                &&& shown.reschedule == (final(self)@.surfaces[slot as int].phase is Ramping)
            },
    {
        if slot >= self.surfaces.len() {
            return None;
        }
        let mut surface: OverlaySurface = self.surfaces[slot];
        let shown: FadeStep = surface.fade_step();
        self.surfaces.set(slot, surface);
        assert(self@.surfaces =~= old(self)@.surfaces.update(
            slot as int,
            old(self)@.surfaces[slot as int].faded(),
        ));
        Some(shown)
    }

    /// Whether the surface in `slot` has to ask for the foreground again,
    /// given whether it is the active surface now.
    pub fn needs_focus(&self, slot: usize, is_foreground: bool) -> (needed: bool)
        ensures
            needed == self@.needs_focus(slot as int, is_foreground),
    {
        slot < self.surfaces.len() && self.surfaces[slot].needs_focus(is_foreground)
    }

    /// What the host has to do so that every surface is in the foreground
    /// again. `foreground` says for each slot whether its surface is the
    /// active one now.
    pub fn refocus(&self, foreground: &Vec<bool>) -> (actions: Vec<HostAction>)
        ensures
            actions@ == self@.refocus_actions(foreground@),
    {
        let mut actions: Vec<HostAction> = Vec::new();
        let mut slot: usize = 0;
        proof {
            reveal(Seq::filter);
            assert(slots_below(0) =~= Seq::empty());
        }
        while slot < self.surfaces.len()
            invariant
                slot <= self.surfaces.len(),
                actions@.len() == slots_below(slot as nat).filter(
                    self@.lost_focus(foreground@),
                ).len(),
                forall|i: int|
                    0 <= i < actions@.len() ==> actions@[i] == (HostAction::Present {
                        slot: slots_below(slot as nat).filter(self@.lost_focus(foreground@))[i] as usize,
                    }),
            decreases self.surfaces.len() - slot,
        {
            let active: bool = slot < foreground.len() && foreground[slot];
            proof {
                assert(slots_below((slot + 1) as nat) =~= slots_below(slot as nat).push(slot as int));
                slots_below(slot as nat).lemma_filter_push(
                    slot as int,
                    self@.lost_focus(foreground@),
                );
            }
            if self.needs_focus(slot, active) {
                actions.push(HostAction::Present { slot });
            }
            slot += 1;
        }
        assert(actions@ =~= self@.refocus_actions(foreground@));
        actions
    }
}

/// Tears the fleet down: closes every surface, empties the fleet and asks the
/// application to exit. On a fleet without surfaces only the exit is left.
pub fn close(windows: &mut OverlayFleet) -> (actions: Vec<HostAction>)
    ensures
        actions@ == old(windows)@.teardown_actions(),
        final(windows)@ == old(windows)@.torn_down(),
        final(windows)@.well_formed(),
{
    let mut actions: Vec<HostAction> = Vec::new();
    let mut slot: usize = 0;
    proof {
        reveal(Seq::filter);
        assert(slots_below(0) =~= Seq::empty());
    }
    while slot < windows.surfaces.len()
        invariant
            slot <= windows.surfaces.len(),
            *windows == *old(windows),
            actions@.len() == slots_below(slot as nat).filter(old(windows)@.still_open()).len(),
            forall|i: int|
                0 <= i < actions@.len() ==> actions@[i] == (HostAction::Close {
                    slot: slots_below(slot as nat).filter(old(windows)@.still_open())[i] as usize,
                }),
        decreases windows.surfaces.len() - slot,
    {
        proof {
            assert(slots_below((slot + 1) as nat) =~= slots_below(slot as nat).push(slot as int));
            slots_below(slot as nat).lemma_filter_push(slot as int, old(windows)@.still_open());
        }
        let mut surface: OverlaySurface = windows.surfaces[slot];
        if surface.close() {
            actions.push(HostAction::Close { slot });
        }
        slot += 1;
    }
    actions.push(HostAction::Quit);
    *windows = OverlayFleet { surfaces: Vec::new(), phase: SystemPhase::Terminated };
    assert(actions@ =~= old(windows)@.teardown_actions());
    assert(windows@.surfaces =~= Seq::empty());
    actions
}

} // verus!
