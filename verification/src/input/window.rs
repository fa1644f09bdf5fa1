//! A window as a source of input: what the windowing system reports is turned
//! into input events, while the window's extent and the pointer's position are
//! kept up to date.

use vstd::prelude::*;
use std::collections::VecDeque;
use crate::identity::{Identifyable, Identity};
use crate::input::events::{InputEvent, MouseButton};
use crate::input::screen::{DeltaVector, ScreenPoint, ScreenRect};
use crate::input::InputSource;

verus! {

/// Whether a key or button went down or came up.
#[derive(Clone, Copy, Debug, PartialEq, Eq, Structural)]
pub enum ElementState {
    Pressed,
    Released,
}

/// What the windowing system reports for a window, with coordinates already
/// in whole pixels.
#[derive(Clone, Copy, Debug, PartialEq, Eq, Structural)]
pub enum WindowEvent {
    /// A key changed state.
    KeyboardInput { state: ElementState, scancode: u32 },
    /// The pointer moved to a position inside the window.
    CursorMoved { x: i32, y: i32 },
    /// A mouse button changed state.
    MouseInput { state: ElementState, button: MouseButton },
    /// The wheel turned, by lines or by pixels.
    MouseWheel { delta_x: i32, delta_y: i32 },
    /// The window was asked to close.
    Closed,
    /// The window gained (`true`) or lost (`false`) the focus.
    Focused(bool),
    /// The window moved to a position.
    Moved(i32, i32),
    /// The window was resized to a width and a height.
    Resized(i32, i32),
    /// Anything else: events of devices, and window events that modules do
    /// not hear of.
    Other,
}

/// What is tracked of a window between events.
#[derive(Clone, Copy, Debug, PartialEq, Eq, Structural)]
pub struct WindowState {
    /// The identity that the events of this window carry.
    pub id: Identity,
    /// The extent of the window.
    pub rect: ScreenRect,
    /// Where the pointer was last seen.
    pub mouse_pos: ScreenPoint,
}

impl WindowState {
    /// The input event that `event` gives rise to, if any.
    pub open spec fn translated(self, event: WindowEvent) -> Option<InputEvent> {
        match event {
            WindowEvent::KeyboardInput { state: ElementState::Pressed, scancode } => Some(
                InputEvent::KeyDown(self.id, scancode),
            ),
            WindowEvent::KeyboardInput { state: ElementState::Released, scancode } => Some(
                InputEvent::KeyUp(self.id, scancode),
            ),
            WindowEvent::CursorMoved { x, y } => Some(
                InputEvent::MouseMove(
                    self.id,
                    ScreenPoint { x, y },
                    DeltaVector {
                        delta_x: (x - self.mouse_pos.x) as i64,
                        delta_y: (y - self.mouse_pos.y) as i64,
                    },
                ),
            ),
            WindowEvent::MouseInput { state: ElementState::Pressed, button } => Some(
                InputEvent::MouseDown(self.id, button, self.mouse_pos),
            ),
            WindowEvent::MouseInput { state: ElementState::Released, button } => Some(
                InputEvent::MouseUp(self.id, button, self.mouse_pos),
            ),
            WindowEvent::MouseWheel { delta_x, delta_y } => Some(
                InputEvent::MouseWheel(
                    self.id,
                    self.mouse_pos,
                    DeltaVector { delta_x: delta_x as i64, delta_y: delta_y as i64 },
                ),
            ),
            WindowEvent::Closed => Some(InputEvent::Closed(self.id)),
            WindowEvent::Focused(true) => Some(InputEvent::GainedFocus(self.id)),
            WindowEvent::Focused(false) => Some(InputEvent::LostFocus(self.id)),
            WindowEvent::Moved(x, y) => Some(InputEvent::Moved(self.id, ScreenPoint { x, y })),
            WindowEvent::Resized(w, h) => Some(
                InputEvent::Resized(self.id, ScreenRect { w, h, ..self.rect }),
            ),
            WindowEvent::Other => None,
        }
    }

    /// What is tracked of the window once `event` is taken in: the pointer
    /// follows cursor moves, the extent follows moves and resizes.
    pub open spec fn after(self, event: WindowEvent) -> WindowState {
        match event {
            WindowEvent::CursorMoved { x, y } => WindowState {
                mouse_pos: ScreenPoint { x, y },
                ..self
            },
            WindowEvent::Moved(x, y) => WindowState {
                rect: ScreenRect { x, y, ..self.rect },
                ..self
            },
            WindowEvent::Resized(w, h) => WindowState {
                rect: ScreenRect { w, h, ..self.rect },
                ..self
            },
            _ => self,
        }
    }

    /// What is tracked of the window once all of `events` are taken in, in
    /// order.
    pub open spec fn after_all(self, events: Seq<WindowEvent>) -> WindowState
        decreases events.len(),
    {
        if events.len() == 0 {
            self
        } else {
            self.after_all(events.drop_last()).after(events.last())
        }
    }

    /// The input events that `events` give rise to, in order; each is
    /// translated in the state that the events before it have left.
    pub open spec fn translated_all(self, events: Seq<WindowEvent>) -> Seq<InputEvent>
        decreases events.len(),
    {
        if events.len() == 0 {
            Seq::empty()
        } else {
            let earlier = self.translated_all(events.drop_last());
            match self.after_all(events.drop_last()).translated(events.last()) {
                Some(event) => earlier.push(event),
                None => earlier,
            }
        }
    }

    /// A window with the given identity and extent, the pointer at the origin.
    pub fn new(id: Identity, rect: ScreenRect) -> (state: Self)
        ensures
            state == (WindowState { id, rect, mouse_pos: ScreenPoint { x: 0, y: 0 } }),
    {
        WindowState { id, rect, mouse_pos: ScreenPoint::new(0, 0) }
    }

    /// Takes in one event: updates what is tracked and returns the input
    /// event that modules get to see, if any.
    pub fn translate(&mut self, event: &WindowEvent) -> (translated: Option<InputEvent>)
        ensures
            translated == old(self).translated(*event),
            *final(self) == old(self).after(*event),
    {
        let id = self.id;
        match *event {
            WindowEvent::KeyboardInput { state, scancode } => {
                match state {
                    ElementState::Pressed => Some(InputEvent::KeyDown(id, scancode)),
                    ElementState::Released => Some(InputEvent::KeyUp(id, scancode)),
                }
            },
            WindowEvent::CursorMoved { x, y } => {
                let old_pos = self.mouse_pos;
                let new_pos = ScreenPoint::new(x, y);
                let moved = InputEvent::MouseMove(
                    id,
                    new_pos,
                    DeltaVector::from_points(&old_pos, &new_pos),
                );
                self.mouse_pos = new_pos;
                Some(moved)
            },
            WindowEvent::MouseInput { state, button } => {
                match state {
                    ElementState::Pressed => Some(InputEvent::MouseDown(id, button, self.mouse_pos)),
                    ElementState::Released => Some(InputEvent::MouseUp(id, button, self.mouse_pos)),
                }
            },
            WindowEvent::MouseWheel { delta_x, delta_y } => Some(
                InputEvent::MouseWheel(
                    id,
                    self.mouse_pos,
                    DeltaVector::new(delta_x as i64, delta_y as i64),
                ),
            ),
            WindowEvent::Closed => Some(InputEvent::Closed(id)),
            WindowEvent::Focused(focused) => {
                if focused {
                    Some(InputEvent::GainedFocus(id))
                } else {
                    Some(InputEvent::LostFocus(id))
                }
            },
            WindowEvent::Moved(x, y) => {
                let new_rect = ScreenRect::new(x, y, self.rect.w, self.rect.h);
                self.rect = new_rect;
                Some(InputEvent::Moved(id, ScreenPoint::new(x, y)))
            },
            WindowEvent::Resized(w, h) => {
                let new_rect = ScreenRect::new(self.rect.x, self.rect.y, w, h);
                self.rect = new_rect;
                Some(InputEvent::Resized(id, new_rect))
            },
            WindowEvent::Other => None,
        }
    }

    /// Takes in a batch of events, in order, and returns the input events that
    /// modules get to see.
    pub fn translate_all(&mut self, events: &Vec<WindowEvent>) -> (translated: VecDeque<InputEvent>)
        ensures
            translated@ == old(self).translated_all(events@),
            *final(self) == old(self).after_all(events@),
    {
        let mut translated: VecDeque<InputEvent> = VecDeque::with_capacity(events.len());
        let mut i: usize = 0;
        while i < events.len()
            invariant
                i <= events.len(),
                translated@ == old(self).translated_all(events@.take(i as int)),
                *self == old(self).after_all(events@.take(i as int)),
            decreases events.len() - i,
        {
            proof {
                assert(events@.take(i + 1).drop_last() =~= events@.take(i as int));
            }
            if let Some(event) = self.translate(&events[i]) {
                translated.push_back(event);
            }
            i += 1;
        }
        proof {
            assert(events@.take(events@.len() as int) =~= events@);
        }
        translated
    }
}

/// Whatever is reported, the window keeps its identity, gives rise to at most
/// one input event per report, and every input event names the window.
pub proof fn lemma_events_name_the_window(window: WindowState, events: Seq<WindowEvent>)
    ensures
        window.after_all(events).id == window.id,
        window.translated_all(events).len() <= events.len(),
        forall|i: int|
            0 <= i < window.translated_all(events).len() ==> (
            #[trigger] window.translated_all(events)[i]).source_of() == window.id,
    decreases events.len(),
{
    if events.len() > 0 {
        lemma_events_name_the_window(window, events.drop_last());
    }
}

/// A window that collects what the windowing system reports and hands it out
/// as input events.
pub struct WindowInput {
    state: WindowState,
    pending: Vec<WindowEvent>,
}

impl WindowInput {
    /// What is tracked of the window.
    pub closed spec fn state(&self) -> WindowState {
        self.state
    }

    /// The reports that were not handed out yet, oldest first.
    pub closed spec fn pending(&self) -> Seq<WindowEvent> {
        self.pending@
    }

    /// A window with the given identity and extent and nothing pending.
    pub fn new(id: Identity, rect: ScreenRect) -> (window: Self)
        ensures
            window.state() == (WindowState { id, rect, mouse_pos: ScreenPoint { x: 0, y: 0 } }),
            window.pending() == Seq::<WindowEvent>::empty(),
    {
        WindowInput { state: WindowState::new(id, rect), pending: Vec::new() }
    }

    /// Notes one report of the windowing system.
    pub fn report(&mut self, event: WindowEvent)
        ensures
            final(self).state() == old(self).state(),
            final(self).pending() == old(self).pending().push(event),
    {
        self.pending.push(event);
    }

    /// The extent of the window as of the events handed out so far.
    pub fn get_rect(&self) -> (rect: ScreenRect)
        ensures
            rect == self.state().rect,
    {
        self.state.rect
    }

    /// The position of the pointer as of the events handed out so far.
    pub fn get_mouse_pos(&self) -> (pos: ScreenPoint)
        ensures
            pos == self.state().mouse_pos,
    {
        self.state.mouse_pos
    }
}

impl Identifyable for WindowInput {
    fn identify(&self) -> (id: Identity)
        ensures
            id == self.state().id,
    {
        self.state.id
    }
}

impl InputSource for WindowInput {
    /// A window hands out the input events for everything that is pending, and
    /// nothing stays pending.
    open spec fn hands_out(&self, events: Seq<InputEvent>, after: &Self) -> bool {
        &&& events == self.state().translated_all(self.pending())
        &&& after.state() == self.state().after_all(self.pending())
        &&& after.pending() == Seq::<WindowEvent>::empty()
    }

    fn get_input_events(&mut self) -> (events: VecDeque<InputEvent>) {
        let mut reported: Vec<WindowEvent> = Vec::new();
        std::mem::swap(&mut reported, &mut self.pending);
        self.state.translate_all(&reported)
    }
}

} // verus!
