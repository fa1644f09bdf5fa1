//! Input events as the modules see them. Each names the window it came from.

use vstd::prelude::*;
use crate::identity::Identity;
use crate::input::screen::{DeltaVector, ScreenPoint, ScreenRect};

verus! {

/// A button of the mouse.
#[derive(Clone, Copy, Debug, PartialEq, Eq, Structural)]
pub enum MouseButton {
    Left,
    Right,
    Middle,
    /// Any further button, by its number.
    Other(u16),
}

/// One input event. The identity is that of the source of the event.
#[derive(Clone, Copy, Debug, PartialEq, Eq, Structural)]
pub enum InputEvent {
    /// A key went down; the number is its scan code.
    KeyDown(Identity, u32),
    /// A key came up; the number is its scan code.
    KeyUp(Identity, u32),
    /// The pointer moved to the position, by the delta.
    MouseMove(Identity, ScreenPoint, DeltaVector),
    /// A button went down with the pointer at the position.
    MouseDown(Identity, MouseButton, ScreenPoint),
    /// A button came up with the pointer at the position.
    MouseUp(Identity, MouseButton, ScreenPoint),
    /// The wheel turned by the delta with the pointer at the position.
    MouseWheel(Identity, ScreenPoint, DeltaVector),
    /// The window was asked to close.
    Closed(Identity),
    /// The window gained the input focus.
    GainedFocus(Identity),
    /// The window lost the input focus.
    LostFocus(Identity),
    /// The window moved to the position.
    Moved(Identity, ScreenPoint),
    /// The window was resized; the rectangle is its new extent.
    Resized(Identity, ScreenRect),
}

impl InputEvent {
    /// The identity of the source that the event came from.
    pub open spec fn source_of(self) -> Identity {
        match self {
            InputEvent::KeyDown(id, _) => id,
            InputEvent::KeyUp(id, _) => id,
            InputEvent::MouseMove(id, _, _) => id,
            InputEvent::MouseDown(id, _, _) => id,
            InputEvent::MouseUp(id, _, _) => id,
            InputEvent::MouseWheel(id, _, _) => id,
            InputEvent::Closed(id) => id,
            InputEvent::GainedFocus(id) => id,
            InputEvent::LostFocus(id) => id,
            InputEvent::Moved(id, _) => id,
            InputEvent::Resized(id, _) => id,
        }
    }

    /// The identity of the source that the event came from.
    pub fn source(&self) -> (id: Identity)
        ensures
            id == self.source_of(),
    {
        match *self {
            InputEvent::KeyDown(id, _) => id,
            InputEvent::KeyUp(id, _) => id,
            InputEvent::MouseMove(id, _, _) => id,
            InputEvent::MouseDown(id, _, _) => id,
            InputEvent::MouseUp(id, _, _) => id,
            InputEvent::MouseWheel(id, _, _) => id,
            InputEvent::Closed(id) => id,
            InputEvent::GainedFocus(id) => id,
            InputEvent::LostFocus(id) => id,
            InputEvent::Moved(id, _) => id,
            InputEvent::Resized(id, _) => id,
        }
    }
}

} // verus!
