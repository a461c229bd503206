//! Configuration options for click/scroll events on panels.
use vstd::prelude::*;

use crate::bar::{Cursor, MouseButton};

verus! {

/// A map from mouse buttons to panel events
#[derive(Debug, Clone, PartialEq, Eq, Default)]
pub struct Actions {
    /// The event that should be run when the panel is left-clicked
    pub left: Option<String>,
    /// The event that should be run when the panel is right-clicked
    pub right: Option<String>,
    /// The event that should be run when the panel is middle-clicked
    pub middle: Option<String>,
    /// The event that should be run when the panel is scrolled up
    pub up: Option<String>,
    /// The event that should be run when the panel is scrolled down
    pub down: Option<String>,
}

/// The cursor for a panel with the given actions: a scrolling cursor if the
/// panel can be scrolled, else a clicking cursor if it can be clicked, else
/// the default.
pub open spec fn cursor_for(a: Actions) -> Cursor {
    if a.up is Some || a.down is Some {
        Cursor::Scroll
    } else if a.left is Some || a.middle is Some || a.right is Some {
        Cursor::Click
    } else {
        Cursor::Default
    }
}

/// The action that the given button runs.
pub open spec fn action_of(a: Actions, button: MouseButton) -> Option<String> {
    match button {
        MouseButton::Left => a.left,
        MouseButton::Right => a.right,
        MouseButton::Middle => a.middle,
        MouseButton::ScrollUp => a.up,
        MouseButton::ScrollDown => a.down,
    }
}

impl Actions {
    /// Chooses a reasonable cursor based on the possible actions.
    ///
    /// - If the panel is scrollable, a cursor indicating that will be chosen.
    /// - Otherwise, if the panel is clickable, a cursor indicating that will be
    ///   chosen.
    /// - Otherwise, the cursor will be set to the system default.
    pub fn get_cursor(&self) -> (r: Cursor)
        ensures
            r == cursor_for(*self),
    {
        if self.up.is_some() || self.down.is_some() {
            Cursor::Scroll
        } else if self.left.is_some() || self.middle.is_some() || self.right.is_some() {
            Cursor::Click
        } else {
            Cursor::Default
        }
    }

    /// The name of the event that a button runs, if any.
    pub fn action_for(&self, button: MouseButton) -> (r: Option<String>)
        ensures
            r == action_of(*self, button),
    {
        match button {
            MouseButton::Left => self.left.clone(),
            MouseButton::Right => self.right.clone(),
            MouseButton::Middle => self.middle.clone(),
            MouseButton::ScrollUp => self.up.clone(),
            MouseButton::ScrollDown => self.down.clone(),
        }
    }
}


/// Each button runs the action configured for it: a click of a button the
/// click action of that button, a scroll the scroll action of its direction.
pub proof fn law_button_actions(a: Actions)
    ensures
        action_of(a, MouseButton::Left) == a.left,
        action_of(a, MouseButton::Middle) == a.middle,
        action_of(a, MouseButton::Right) == a.right,
        action_of(a, MouseButton::ScrollUp) == a.up,
        action_of(a, MouseButton::ScrollDown) == a.down,
{
}

} // verus!
