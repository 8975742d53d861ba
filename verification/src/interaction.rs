//! The pointer-relationship state of an element.

use vstd::prelude::*;

verus! {

/// The current pointer relationship of an element. At most one element
/// is hovered and at most one is pressed at any time; the owning state
/// tracks which.
#[derive(Debug, Clone, Copy, PartialEq, Eq, Structural)]
pub enum Interaction {
    Idle,
    Hover,
    Pressed,
    Dragged,
}

impl Default for Interaction {
    fn default() -> (r: Self)
        ensures
            r == Interaction::Idle,
    {
        Interaction::Idle
    }
}

/// A discrete cursor event delivered to the engine, at most one per
/// call, together with the cursor position held by the state.
#[derive(Debug, Clone, Copy, PartialEq, Eq, Structural)]
pub enum UiEvent {
    Press,
    Release,
    Move,
}

} // verus!
