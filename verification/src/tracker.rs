//! Edge detection for logical input actions.
//!
//! The host reports, once per tick, whether an action (confirm, up,
//! down) is currently held. The tracker keeps one bit of memory per
//! action and derives the press-begin and press-end edges from the
//! previous and current held state. Updating it more or less than once
//! per tick desynchronizes the edges from real input; that cadence is
//! the caller's responsibility.

use vstd::prelude::*;

verus! {

/// Edge-detecting state for one logical input action.
#[derive(Clone, Copy, Debug)]
pub struct ActionTracker {
    /// The logical action this tracker follows.
    pub action: &'static str,
    /// True only on the tick where the action went from released to held.
    pub press_begin: bool,
    /// True from the very first press up until the press ends.
    pub pressed: bool,
    /// True only on the tick where the action went from held to released.
    pub press_end: bool,
}

/// The tracker state after one update with the given held state: the
/// single-bit memory becomes `is_held`, and the edges are derived from
/// the old memory and `is_held`.
pub open spec fn spec_tracker_step(t: ActionTracker, is_held: bool) -> ActionTracker {
    ActionTracker {
        action: t.action,
        press_begin: is_held && !t.pressed,
        pressed: is_held,
        press_end: !is_held && t.pressed,
    }
}

impl ActionTracker {
    /// A fresh tracker: the action is treated as released, with no edges.
    pub fn new(action: &'static str) -> (r: ActionTracker)
        ensures
            r.action == action,
            !r.press_begin,
            !r.pressed,
            !r.press_end,
    {
        ActionTracker { action, press_begin: false, pressed: false, press_end: false }
    }

    /// True only on the tick where the action went from released to held.
    pub fn press_begin(&self) -> (r: bool)
        ensures
            r == self.press_begin,
    {
        self.press_begin
    }

    /// True from the very first press up until the press ends.
    pub fn pressed(&self) -> (r: bool)
        ensures
            r == self.pressed,
    {
        self.pressed
    }

    /// True only on the tick where the action went from held to released.
    pub fn press_end(&self) -> (r: bool)
        ensures
            r == self.press_end,
    {
        self.press_end
    }

    /// Fold this tick's held state into the tracker, deriving the edges
    /// from the previous tick's held state.
    pub fn update(&mut self, is_held: bool)
        ensures
            *final(self) == spec_tracker_step(*old(self), is_held),
    {
        match (is_held, self.pressed) {
            (true, false) => {
                self.press_begin = true;
                self.pressed = true;
                self.press_end = false;
            },
            (true, true) => {
                self.press_begin = false;
                self.pressed = true;
                self.press_end = false;
            },
            (false, true) => {
                self.press_begin = false;
                self.pressed = false;
                self.press_end = true;
            },
            (false, false) => {
                self.press_begin = false;
                self.pressed = false;
                self.press_end = false;
            },
        }
    }
}

} // verus!
