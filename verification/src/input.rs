//! The activity tracker: pointer travel is summed up until it passes a
//! threshold, and any key dismisses at once. Dismissal is a latch.

use vstd::prelude::*;
use crate::geometry::{
    distance, distance_between, lemma_distance_bounded, lemma_path_length_grows, path_length,
    STEPS_PER_UNIT,
};

verus! {

/// Pointer travel, in coordinate steps, beyond which the screensaver is dismissed:
/// ten distance units.
pub const MOUSE_THRESHOLD: u64 = 10 * STEPS_PER_UNIT;

/// A running total, held at the largest value the tracker can store.
pub open spec fn capped(total: nat) -> nat {
    if total > u64::MAX {
        u64::MAX as nat
    } else {
        total
    }
}

/// One thing the user did.
pub enum InputEvent {
    /// The pointer was seen at a position.
    Motion { x: i32, y: i32 },
    /// A key was pressed or released.
    Key,
}

/// What an `InputState` holds, as plain mathematical values.
pub struct InputModel {
    /// The dismissal latch.
    pub should_close: bool,
    /// The position the next pointer motion is measured from.
    pub last_mouse_pos: Option<(i32, i32)>,
    /// The pointer travel summed up so far.
    pub total_movement: nat,
}

impl InputModel {
    /// The tracker before any event.
    pub open spec fn fresh() -> InputModel {
        InputModel { should_close: false, last_mouse_pos: None, total_movement: 0 }
    }

    /// The travel total once the pointer has been seen at `(x, y)`.
    pub open spec fn travel_after(self, x: i32, y: i32) -> nat {
        match self.last_mouse_pos {
            None => self.total_movement,
            Some(last) => capped(self.total_movement + distance(last, (x, y))),
        }
    }

    /// Whether seeing the pointer at `(x, y)` carries the total past the threshold.
    pub open spec fn move_dismisses(self, x: i32, y: i32) -> bool {
        self.last_mouse_pos is Some && self.travel_after(x, y) > MOUSE_THRESHOLD
    }

    /// The tracker once the pointer has been seen at `(x, y)`. The first
    /// position is only recorded. A later one adds its distance from the
    /// recorded position; the recorded position then follows the pointer
    /// unless the total has passed the threshold.
    pub open spec fn after_move(self, x: i32, y: i32) -> InputModel {
        InputModel {
            should_close: self.should_close || self.move_dismisses(x, y),
            last_mouse_pos: if self.move_dismisses(x, y) {
                self.last_mouse_pos
            } else {
                Some((x, y))
            },
            total_movement: self.travel_after(x, y),
        }
    }

    /// The tracker once a key has been pressed or released.
    pub open spec fn after_key(self) -> InputModel {
        InputModel { should_close: true, ..self }
    }

    /// The tracker once `event` has been handled.
    pub open spec fn after(self, event: InputEvent) -> InputModel {
        match event {
            InputEvent::Motion { x, y } => self.after_move(x, y),
            InputEvent::Key => self.after_key(),
        }
    }

    /// What holds of every tracker that events can produce: nothing is summed
    /// before a position is recorded, a total past the threshold has set the
    /// latch, and the total fits its field.
    pub open spec fn well_formed(self) -> bool {
        &&& self.last_mouse_pos is None ==> self.total_movement == 0
        &&& self.total_movement > MOUSE_THRESHOLD ==> self.should_close
        &&& self.total_movement <= u64::MAX
    }
}

/// Tracks pointer and key activity and latches the request to close.
#[derive(Debug)]
pub struct InputState {
    should_close: bool,
    last_mouse_pos: Option<(i32, i32)>,
    total_movement: u64,
}

impl View for InputState {
    type V = InputModel;

    closed spec fn view(&self) -> InputModel {
        InputModel {
            should_close: self.should_close,
            last_mouse_pos: self.last_mouse_pos,
            total_movement: self.total_movement as nat,
        }
    }
}

impl InputState {
    #[verifier::type_invariant]
    spec fn inv(self) -> bool {
        self@.well_formed()
    }

    /// A tracker that has seen no event.
    pub fn new() -> (state: Self)
        ensures
            state@ == InputModel::fresh(),
    {
        InputState { should_close: false, last_mouse_pos: None, total_movement: 0 }
    }

    /// Records that the pointer is at `(x, y)` and says whether this carried
    /// the travel total past the threshold.
    pub fn handle_mouse_movement(&mut self, x: i32, y: i32) -> (dismissed: bool)
        ensures
            final(self)@ == old(self)@.after_move(x, y),
            dismissed == old(self)@.move_dismisses(x, y),
            old(self)@.well_formed(),
            final(self)@.well_formed(),
            final(self)@.total_movement >= old(self)@.total_movement,
            old(self)@.should_close ==> final(self)@.should_close,
            dismissed ==> final(self)@.should_close,
    {
        proof {
            use_type_invariant(&*self);
        }
        match self.last_mouse_pos {
            Some(last) => {
                let total: u64 = self.total_movement.saturating_add(distance_between(last, (x, y)));
                if total > MOUSE_THRESHOLD {
                    *self = InputState {
                        should_close: true,
                        last_mouse_pos: Some(last),
                        total_movement: total,
                    };
                    true
                } else {
                    *self = InputState {
                        should_close: self.should_close,
                        last_mouse_pos: Some((x, y)),
                        total_movement: total,
                    };
                    false
                }
            },
            None => {
                *self = InputState {
                    should_close: self.should_close,
                    last_mouse_pos: Some((x, y)),
                    total_movement: self.total_movement,
                };
                false
            },
        }
    }

    /// Records a key press or release, which always dismisses.
    pub fn handle_key_input(&mut self) -> (dismissed: bool)
        ensures
            dismissed,
            final(self)@ == old(self)@.after_key(),
            final(self)@.should_close,
            final(self)@.well_formed(),
    {
        proof {
            use_type_invariant(&*self);
        }
        *self = InputState {
            should_close: true,
            last_mouse_pos: self.last_mouse_pos,
            total_movement: self.total_movement,
        };
        true
    }

    /// Whether dismissal has been requested.
    pub fn should_close(&self) -> (requested: bool)
        ensures
            requested == self@.should_close,
            self@.well_formed(),
    {
        proof {
            use_type_invariant(self);
        }
        self.should_close
    }

    /// The pointer travel summed up so far, in coordinate steps.
    pub fn total_movement(&self) -> (steps: u64)
        ensures
            steps == self@.total_movement,
    {
        self.total_movement
    }

    /// The position the next pointer motion is measured from.
    pub fn last_mouse_pos(&self) -> (position: Option<(i32, i32)>)
        ensures
            position == self@.last_mouse_pos,
    {
        self.last_mouse_pos
    }
}

/// The tracker after a run of events, starting from a fresh one.
pub open spec fn replay(events: Seq<InputEvent>) -> InputModel
    decreases events.len(),
{
    if events.len() == 0 {
        InputModel::fresh()
    } else {
        replay(events.drop_last()).after(events.last())
    }
}

/// The events of a pointer that visits `points` in order.
pub open spec fn motions(points: Seq<(i32, i32)>) -> Seq<InputEvent> {
    Seq::new(points.len(), |i: int| InputEvent::Motion { x: points[i].0, y: points[i].1 })
}

/// Whatever the events, the tracker they lead to is well formed.
pub proof fn lemma_replay_well_formed(events: Seq<InputEvent>)
    ensures
        replay(events).well_formed(),
    decreases events.len(),
{
    if events.len() > 0 {
        lemma_replay_well_formed(events.drop_last());
    }
}

/// The latch never opens again: of two moments in one run of events, the
/// later one is dismissed if the earlier one was.
pub proof fn lemma_dismissal_latches(events: Seq<InputEvent>, earlier: int, later: int)
    requires
        0 <= earlier <= later <= events.len(),
    ensures
        replay(events.take(earlier)).should_close ==> replay(events.take(later)).should_close,
    decreases later,
{
    if earlier < later {
        lemma_dismissal_latches(events, earlier, later - 1);
        assert(events.take(later).drop_last() =~= events.take(later - 1));
    }
}

/// Whether the event at `index` is the one that dismisses: the tracker was
/// not dismissed before it and is dismissed after it.
pub open spec fn dismisses_at(events: Seq<InputEvent>, index: int) -> bool {
    &&& 0 <= index < events.len()
    &&& !replay(events.take(index)).should_close
    &&& replay(events.take(index + 1)).should_close
}

/// A run of events dismisses at most once: no two of its events both take
/// the tracker from undismissed to dismissed.
pub proof fn lemma_dismissed_at_most_once(events: Seq<InputEvent>, first: int, second: int)
    requires
        dismisses_at(events, first),
        dismisses_at(events, second),
    ensures
        first == second,
{
    if first < second {
        lemma_dismissal_latches(events, first + 1, second);
    } else if second < first {
        lemma_dismissal_latches(events, second + 1, first);
    }
}

/// The travel total never shrinks: of two moments in one run of events, the
/// later one has at least the total of the earlier one.
pub proof fn lemma_travel_never_shrinks(events: Seq<InputEvent>, earlier: int, later: int)
    requires
        0 <= earlier <= later <= events.len(),
    ensures
        replay(events.take(earlier)).total_movement <= replay(events.take(later)).total_movement,
    decreases later,
{
    if earlier < later {
        lemma_travel_never_shrinks(events, earlier, later - 1);
        assert(events.take(later).drop_last() =~= events.take(later - 1));
        lemma_replay_well_formed(events.take(later - 1));
    }
}

/// A key event dismisses whatever came before it.
pub proof fn lemma_key_dismisses(events: Seq<InputEvent>)
    ensures
        replay(events.push(InputEvent::Key)).should_close,
{
    assert(events.push(InputEvent::Key).last() == InputEvent::Key);
}

/// A pointer whose whole path stays within the threshold leaves the tracker
/// undismissed, at the last point, with the path's length as its total.
proof fn lemma_within_threshold(points: Seq<(i32, i32)>)
    requires
        path_length(points) <= MOUSE_THRESHOLD,
    ensures
        replay(motions(points)) == (InputModel {
            should_close: false,
            last_mouse_pos: if points.len() == 0 {
                None
            } else {
                Some(points.last())
            },
            total_movement: path_length(points),
        }),
    decreases points.len(),
{
    if points.len() > 0 {
        let before = points.drop_last();
        lemma_path_length_grows(points);
        lemma_within_threshold(before);
        assert(motions(points).drop_last() =~= motions(before));
    }
}

/// As long as the threshold had not been passed before the last motion, the
/// travel total is the length of the pointer's path: the sum of the distances
/// between consecutive positions.
pub proof fn lemma_travel_is_path_length(points: Seq<(i32, i32)>)
    requires
        points.len() > 0 ==> path_length(points.drop_last()) <= MOUSE_THRESHOLD,
    ensures
        replay(motions(points)).total_movement == path_length(points),
{
    if points.len() > 0 {
        let before = points.drop_last();
        lemma_within_threshold(before);
        assert(motions(points).drop_last() =~= motions(before));
        if before.len() > 0 {
            lemma_distance_bounded(before.last(), points.last());
        }
    }
}

} // verus!
