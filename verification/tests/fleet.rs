use waysaver::fade::Opacity;
use waysaver::fleet::{
    close, DisplayAdaptationError, DisplayHandle, HostAction, OverlayFleet, SystemPhase,
};
use waysaver::surface::SurfacePhase;

fn output(index: u32) -> DisplayHandle {
    DisplayHandle { index, is_output: true }
}

fn foreign(index: u32) -> DisplayHandle {
    DisplayHandle { index, is_output: false }
}

fn indices(skipped: &[DisplayAdaptationError]) -> Vec<u32> {
    skipped.iter().map(|error| error.index).collect()
}

#[test]
fn new_fleet_is_idle_and_empty() {
    let fleet = OverlayFleet::new();
    assert_eq!(fleet.len(), 0);
    assert_eq!(fleet.phase(), SystemPhase::Idle);
    assert!(fleet.surface(0).is_none());
}

#[test]
fn activation_creates_one_surface_per_output() {
    let mut fleet = OverlayFleet::new();
    let skipped = fleet.activate(&vec![output(0), output(1), output(2)]);
    assert!(skipped.is_empty());
    assert_eq!(fleet.len(), 3);
    assert_eq!(fleet.phase(), SystemPhase::Active);
    for slot in 0..3usize {
        let surface = fleet.surface(slot).unwrap();
        assert_eq!(surface.display(), slot as u32);
        assert_eq!(surface.phase(), SurfacePhase::Ramping);
        assert_eq!(surface.opacity(), Opacity { part: 0, whole: 200 });
    }
    assert!(fleet.surface(3).is_none());
}

#[test]
fn activation_skips_what_is_no_output() {
    let mut fleet = OverlayFleet::new();
    let skipped = fleet.activate(&vec![foreign(0), output(1), foreign(2), output(3), output(4), foreign(5)]);
    assert_eq!(indices(&skipped), vec![0, 2, 5]);
    assert_eq!(skipped[1], DisplayAdaptationError { index: 2 });
    assert_eq!(fleet.len(), 3);
    assert_eq!(fleet.surface(0).unwrap().display(), 1);
    assert_eq!(fleet.surface(1).unwrap().display(), 3);
    assert_eq!(fleet.surface(2).unwrap().display(), 4);
    assert_eq!(fleet.phase(), SystemPhase::Active);
}

#[test]
fn activation_without_any_output_creates_nothing() {
    let mut fleet = OverlayFleet::new();
    let skipped = fleet.activate(&vec![foreign(7), foreign(8)]);
    assert_eq!(indices(&skipped), vec![7, 8]);
    assert_eq!(fleet.len(), 0);
    assert_eq!(fleet.phase(), SystemPhase::Active);
}

#[test]
fn activation_without_displays_creates_nothing() {
    let mut fleet = OverlayFleet::new();
    let skipped = fleet.activate(&Vec::new());
    assert!(skipped.is_empty());
    assert_eq!(fleet.len(), 0);
    assert_eq!(fleet.phase(), SystemPhase::Active);
}

#[test]
fn second_activation_appends() {
    let mut fleet = OverlayFleet::new();
    fleet.activate(&vec![output(0), output(1)]);
    fleet.fade_tick(0);
    let skipped = fleet.activate(&vec![foreign(0), output(5)]);
    assert_eq!(indices(&skipped), vec![0]);
    assert_eq!(fleet.len(), 3);
    assert_eq!(fleet.surface(0).unwrap().display(), 0);
    assert_eq!(fleet.surface(0).unwrap().opacity(), Opacity { part: 16, whole: 200 });
    assert_eq!(fleet.surface(1).unwrap().display(), 1);
    assert_eq!(fleet.surface(2).unwrap().display(), 5);
    assert_eq!(fleet.surface(2).unwrap().opacity(), Opacity { part: 0, whole: 200 });
}

#[test]
fn teardown_of_an_empty_fleet_only_quits() {
    let mut fleet = OverlayFleet::new();
    let actions = close(&mut fleet);
    assert_eq!(actions, vec![HostAction::Quit]);
    assert_eq!(fleet.len(), 0);
    assert_eq!(fleet.phase(), SystemPhase::Terminated);
}

#[test]
fn teardown_closes_every_surface_and_quits_once() {
    let mut fleet = OverlayFleet::new();
    fleet.activate(&vec![output(0), foreign(1), output(2), output(3)]);
    let actions = close(&mut fleet);
    assert_eq!(
        actions,
        vec![
            HostAction::Close { slot: 0 },
            HostAction::Close { slot: 1 },
            HostAction::Close { slot: 2 },
            HostAction::Quit,
        ]
    );
    assert_eq!(actions.iter().filter(|action| **action == HostAction::Quit).count(), 1);
    assert_eq!(fleet.len(), 0);
    assert!(fleet.surface(0).is_none());
    assert_eq!(fleet.phase(), SystemPhase::Terminated);
}

#[test]
fn teardown_can_be_repeated() {
    let mut fleet = OverlayFleet::new();
    fleet.activate(&vec![output(0), output(1)]);
    close(&mut fleet);
    let again = close(&mut fleet);
    assert_eq!(again, vec![HostAction::Quit]);
    assert_eq!(fleet.len(), 0);
    assert_eq!(fleet.phase(), SystemPhase::Terminated);
}

#[test]
fn nothing_is_activated_after_teardown() {
    let mut fleet = OverlayFleet::new();
    fleet.activate(&vec![output(0)]);
    close(&mut fleet);
    let skipped = fleet.activate(&vec![output(0), foreign(1)]);
    assert!(skipped.is_empty());
    assert_eq!(fleet.len(), 0);
    assert_eq!(fleet.phase(), SystemPhase::Terminated);
}

#[test]
fn nothing_is_activated_once_dismissal_began() {
    let mut fleet = OverlayFleet::new();
    fleet.activate(&vec![output(0)]);
    fleet.begin_dismissal();
    assert_eq!(fleet.phase(), SystemPhase::Dismissing);
    let skipped = fleet.activate(&vec![output(1), foreign(2)]);
    assert!(skipped.is_empty());
    assert_eq!(fleet.len(), 1);
    assert_eq!(fleet.phase(), SystemPhase::Dismissing);
    assert_eq!(close(&mut fleet), vec![HostAction::Close { slot: 0 }, HostAction::Quit]);
}

#[test]
fn dismissal_does_not_revive_an_ended_fleet() {
    let mut fleet = OverlayFleet::new();
    close(&mut fleet);
    fleet.begin_dismissal();
    assert_eq!(fleet.phase(), SystemPhase::Terminated);
}

#[test]
fn each_surface_fades_on_its_own() {
    let mut fleet = OverlayFleet::new();
    fleet.activate(&vec![output(0), output(1)]);
    for count in 1..=3u32 {
        let step = fleet.fade_tick(1).unwrap();
        assert!(step.reschedule);
        assert_eq!(step.opacity, Opacity { part: 16 * count, whole: 200 });
    }
    assert_eq!(fleet.surface(0).unwrap().opacity(), Opacity { part: 0, whole: 200 });
    assert_eq!(fleet.surface(1).unwrap().opacity(), Opacity { part: 48, whole: 200 });
    for _ in 0..9 {
        assert!(fleet.fade_tick(1).unwrap().reschedule);
    }
    let last = fleet.fade_tick(1).unwrap();
    assert!(!last.reschedule);
    assert_eq!(last.opacity, Opacity { part: 200, whole: 200 });
    assert_eq!(fleet.surface(1).unwrap().phase(), SurfacePhase::Opaque);
    assert_eq!(fleet.surface(0).unwrap().phase(), SurfacePhase::Ramping);
}

#[test]
fn fade_of_a_missing_surface_shows_nothing() {
    let mut fleet = OverlayFleet::new();
    assert!(fleet.fade_tick(0).is_none());
    fleet.activate(&vec![output(0)]);
    assert!(fleet.fade_tick(1).is_none());
    assert!(fleet.fade_tick(usize::MAX).is_none());
    close(&mut fleet);
    assert!(fleet.fade_tick(0).is_none());
}

#[test]
fn surface_in_the_background_needs_focus() {
    let mut fleet = OverlayFleet::new();
    fleet.activate(&vec![output(0), output(1)]);
    assert!(fleet.needs_focus(0, false));
    assert!(!fleet.needs_focus(0, true));
    assert!(fleet.needs_focus(1, false));
    assert!(!fleet.needs_focus(2, false));
    assert!(!fleet.needs_focus(2, true));
}

#[test]
fn refocus_presents_what_lost_the_foreground() {
    let mut fleet = OverlayFleet::new();
    fleet.activate(&vec![output(0), output(1), output(2), output(3)]);
    assert!(fleet.refocus(&vec![true, true, true, true]).is_empty());
    assert_eq!(
        fleet.refocus(&vec![true, false, true, false]),
        vec![HostAction::Present { slot: 1 }, HostAction::Present { slot: 3 }]
    );
    assert_eq!(
        fleet.refocus(&vec![false, false, false, false]),
        vec![
            HostAction::Present { slot: 0 },
            HostAction::Present { slot: 1 },
            HostAction::Present { slot: 2 },
            HostAction::Present { slot: 3 },
        ]
    );
}

#[test]
fn refocus_treats_a_missing_flag_as_background() {
    let mut fleet = OverlayFleet::new();
    fleet.activate(&vec![output(0), output(1), output(2)]);
    assert_eq!(
        fleet.refocus(&vec![true]),
        vec![HostAction::Present { slot: 1 }, HostAction::Present { slot: 2 }]
    );
    assert_eq!(
        fleet.refocus(&Vec::new()),
        vec![
            HostAction::Present { slot: 0 },
            HostAction::Present { slot: 1 },
            HostAction::Present { slot: 2 },
        ]
    );
    assert!(fleet.refocus(&vec![true, true, true, false, false]).is_empty());
}

#[test]
fn refocus_of_an_empty_fleet_does_nothing() {
    let fleet = OverlayFleet::new();
    assert!(fleet.refocus(&vec![false, false]).is_empty());
}

#[test]
fn skipped_display_has_a_message_for_the_log() {
    let mut fleet = OverlayFleet::new();
    let skipped = fleet.activate(&vec![foreign(4)]);
    assert_eq!(skipped.len(), 1);
    assert_eq!(skipped[0].index, 4);
    assert_eq!(skipped[0].message(), "Failed to downcast monitor object");
}
