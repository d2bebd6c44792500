//! The watchdog: the periodic tick that ends the screensaver once activity
//! has been seen and, until then, keeps every overlay in the foreground.
//!
//! The watchdog alone tears the fleet down, so a run ends exactly once.

use vstd::prelude::*;
use vstd::seq_lib::*;
use crate::fleet::{
    close, DisplayAdaptationError, DisplayHandle, FleetModel, HostAction, OverlayFleet, SystemPhase,
};
use crate::input::InputState;

verus! {

/// The time between two ticks of the watchdog, in milliseconds.
pub const WATCHDOG_PERIOD_MS: u32 = 50;

/// What one tick of the watchdog asks of the host.
#[derive(Debug)]
pub struct WatchdogStep {
    /// What the host has to do now, in this order.
    pub actions: Vec<HostAction>,
    /// Whether another tick is to follow after one more period.
    pub reschedule: bool,
}

impl FleetModel {
    /// Whether a tick is followed by another one: the system has not ended
    /// and no dismissal is seen.
    pub open spec fn tick_continues(self, dismissed: bool) -> bool {
        !(self.phase is Terminated) && !dismissed
    }

    /// The fleet after one tick. Seeing dismissal tears the fleet down;
    /// otherwise the tick changes nothing.
    pub open spec fn ticked(self, dismissed: bool) -> FleetModel {
        if !(self.phase is Terminated) && dismissed {
            self.torn_down()
        } else {
            self
        }
    }

    /// What one tick asks of the host: nothing once the system has ended,
    /// the teardown where dismissal is seen, and otherwise whatever brings the
    /// surfaces that have lost the foreground back to it.
    pub open spec fn tick_actions(self, dismissed: bool, foreground: Seq<bool>) -> Seq<HostAction> {
        if self.phase is Terminated {
            Seq::empty()
        } else if dismissed {
            self.teardown_actions()
        } else {
            self.refocus_actions(foreground)
        }
    }
}

/// One tick of the watchdog. `foreground` says for each slot of the fleet
/// whether its surface is the active one now.
pub fn watchdog_tick(input: &InputState, fleet: &mut OverlayFleet, foreground: &Vec<bool>) -> (step:
    WatchdogStep)
    ensures
        final(fleet)@ == old(fleet)@.ticked(input@.should_close),
        step.actions@ == old(fleet)@.tick_actions(input@.should_close, foreground@),
        step.reschedule == old(fleet)@.tick_continues(input@.should_close),
        old(fleet)@.well_formed() ==> final(fleet)@.well_formed(),
{
    match fleet.phase() {
        SystemPhase::Terminated => {
            return WatchdogStep { actions: Vec::new(), reschedule: false };
        },
        _ => {},
    }
    if input.should_close() {
        fleet.begin_dismissal();
        let actions: Vec<HostAction> = close(fleet);
        WatchdogStep { actions, reschedule: false }
    } else {
        let actions: Vec<HostAction> = fleet.refocus(foreground);
        WatchdogStep { actions, reschedule: true }
    }
}

/// How often `actions` ask the application to exit.
pub open spec fn quits(actions: Seq<HostAction>) -> nat {
    actions.to_multiset().count(HostAction::Quit)
}

/// Tearing a fleet down asks the application to exit exactly once, as the
/// last thing, whatever the fleet holds. Where it holds no surface, that is
/// all the teardown does, and so it is for a fleet that was torn down before.
pub proof fn lemma_teardown_quits_once(fleet: FleetModel)
    ensures
        quits(fleet.teardown_actions()) == 1,
        fleet.teardown_actions().last() == HostAction::Quit,
        fleet.surfaces.len() == 0 ==> fleet.teardown_actions() == seq![HostAction::Quit],
        fleet.torn_down().teardown_actions() == seq![HostAction::Quit],
        fleet.torn_down().torn_down() == fleet.torn_down(),
{
    broadcast use group_to_multiset_ensures;

    reveal(Seq::filter);
    let closes = fleet.teardown_actions().drop_last();
    assert(fleet.teardown_actions() =~= closes.push(HostAction::Quit));
    assert(!closes.contains(HostAction::Quit));
    assert(fleet.surfaces.len() == 0 ==> closes =~= Seq::empty());
    assert(fleet.surfaces.len() == 0 ==> fleet.teardown_actions() =~= seq![HostAction::Quit]);
    assert(fleet.torn_down().teardown_actions() =~= seq![HostAction::Quit]);
}

/// Bringing surfaces back to the foreground never asks the application to exit.
pub proof fn lemma_refocus_never_quits(fleet: FleetModel, foreground: Seq<bool>)
    ensures
        quits(fleet.refocus_actions(foreground)) == 0,
{
    broadcast use group_to_multiset_ensures;

    assert(!fleet.refocus_actions(foreground).contains(HostAction::Quit));
}

/// The tick that sees dismissal is the last one that does anything: it tears
/// the fleet down, once, and is not rescheduled; any tick after it changes
/// nothing, asks for nothing and is not rescheduled either.
pub proof fn lemma_watchdog_fires_once(
    fleet: FleetModel,
    foreground: Seq<bool>,
    later_dismissed: bool,
    later_foreground: Seq<bool>,
)
    requires
        !(fleet.phase is Terminated),
    ensures
        fleet.tick_actions(true, foreground) == fleet.teardown_actions(),
        quits(fleet.tick_actions(true, foreground)) == 1,
        !fleet.tick_continues(true),
        fleet.ticked(true) == fleet.torn_down(),
        fleet.ticked(true).ticked(later_dismissed) == fleet.ticked(true),
        fleet.ticked(true).tick_actions(later_dismissed, later_foreground) == Seq::<
            HostAction,
        >::empty(),
        !fleet.ticked(true).tick_continues(later_dismissed),
{
    lemma_teardown_quits_once(fleet);
}

/// What the watchdog is told at one tick.
pub struct TickInput {
    /// Whether the activity tracker has latched.
    pub dismissed: bool,
    /// For each slot, whether its surface is the active one.
    pub foreground: Seq<bool>,
}

/// The fleet after a run of ticks.
pub open spec fn fleet_after(fleet: FleetModel, ticks: Seq<TickInput>) -> FleetModel
    decreases ticks.len(),
{
    if ticks.len() == 0 {
        fleet
    } else {
        fleet_after(fleet, ticks.drop_last()).ticked(ticks.last().dismissed)
    }
}

/// Everything that a run of ticks asks of the host, in order.
pub open spec fn actions_of(fleet: FleetModel, ticks: Seq<TickInput>) -> Seq<HostAction>
    decreases ticks.len(),
{
    if ticks.len() == 0 {
        Seq::empty()
    } else {
        actions_of(fleet, ticks.drop_last()) + fleet_after(fleet, ticks.drop_last()).tick_actions(
            ticks.last().dismissed,
            ticks.last().foreground,
        )
    }
}

/// Over any run of ticks the application is asked to exit at most once:
/// exactly once if some tick of the run saw dismissal, which has then ended
/// the system, and never otherwise.
pub proof fn lemma_single_teardown(fleet: FleetModel, ticks: Seq<TickInput>)
    requires
        !(fleet.phase is Terminated),
    ensures
        quits(actions_of(fleet, ticks)) == if fleet_after(fleet, ticks).phase is Terminated {
            1nat
        } else {
            0nat
        },
        fleet_after(fleet, ticks).phase is Terminated <==> exists|i: int|
            0 <= i < ticks.len() && (#[trigger] ticks[i]).dismissed,
    decreases ticks.len(),
{
    broadcast use group_to_multiset_ensures;

    if ticks.len() == 0 {
        assert(actions_of(fleet, ticks).to_multiset().count(HostAction::Quit) == 0);
    } else {
        let earlier = ticks.drop_last();
        let before = fleet_after(fleet, earlier);
        let last = ticks.last();
        lemma_single_teardown(fleet, earlier);
        lemma_teardown_quits_once(before);
        lemma_refocus_never_quits(before, last.foreground);
        lemma_multiset_commutative(
            actions_of(fleet, earlier),
            before.tick_actions(last.dismissed, last.foreground),
        );
        assert(Seq::<HostAction>::empty().to_multiset().count(HostAction::Quit) == 0);
        if fleet_after(fleet, ticks).phase is Terminated {
            if before.phase is Terminated {
                let i = choose|i: int| 0 <= i < earlier.len() && (#[trigger] earlier[i]).dismissed;
                assert(ticks[i].dismissed);
            } else {
                assert(ticks[ticks.len() - 1].dismissed);
            }
        } else {
            assert forall|i: int| 0 <= i < ticks.len() implies !(#[trigger] ticks[i]).dismissed by {
                if i < earlier.len() {
                    assert(earlier[i] == ticks[i]);
                }
            }
        }
    }
}

/// Once the system has ended nothing brings it back: activation, dismissal,
/// fade steps, ticks and teardown all leave an ended fleet as it is.
pub proof fn lemma_terminated_is_final(
    fleet: FleetModel,
    displays: Seq<DisplayHandle>,
    slot: int,
    dismissed: bool,
)
    requires
        fleet.well_formed(),
        fleet.phase is Terminated,
    ensures
        fleet.activated(displays) == fleet,
        fleet.skipped(displays) == Seq::<DisplayAdaptationError>::empty(),
        fleet.dismissing() == fleet,
        fleet.faded(slot) == fleet,
        fleet.ticked(dismissed) == fleet,
        fleet.torn_down() == fleet,
{
    assert(fleet.surfaces =~= Seq::empty());
}

/// The system only moves forward: from idle to active, on to dismissing and
/// to its end. No operation takes a fleet to an earlier phase.
pub proof fn lemma_phase_never_goes_back(
    fleet: FleetModel,
    displays: Seq<DisplayHandle>,
    slot: int,
    dismissed: bool,
)
    ensures
        fleet.phase.rank() <= fleet.activated(displays).phase.rank(),
        fleet.phase.rank() <= fleet.dismissing().phase.rank(),
        fleet.phase.rank() <= fleet.faded(slot).phase.rank(),
        fleet.phase.rank() <= fleet.ticked(dismissed).phase.rank(),
        fleet.phase.rank() <= fleet.torn_down().phase.rank(),
{
}

} // verus!
