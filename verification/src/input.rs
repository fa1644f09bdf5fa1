//! Input: the events modules consume, and the sources they come from.

pub mod events;
pub mod screen;
pub mod window;

use vstd::prelude::*;
use std::collections::VecDeque;
use crate::identity::Identifyable;
use crate::input::events::InputEvent;

verus! {

/// A source of input events, such as a window. Whoever renders a window is
/// expected to track its events and hand them out here.
pub trait InputSource: Identifyable {
    /// What one call may hand out, and what it may leave of the source. A
    /// source that says nothing here promises nothing.
    open spec fn hands_out(&self, events: Seq<InputEvent>, after: &Self) -> bool {
        true
    }

    /// Hands out the events that arrived since the last call, oldest first.
    fn get_input_events(&mut self) -> (events: VecDeque<InputEvent>)
        ensures
            old(self).hands_out(events@, final(self)),
    ;
}

} // verus!
