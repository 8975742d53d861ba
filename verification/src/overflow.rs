//! Overflow intent per axis for inline containers.

use vstd::prelude::*;

verus! {

/// How content that exceeds a container's box behaves on one axis.
#[derive(Debug, Clone, Copy, PartialEq, Eq, Structural)]
pub enum OverflowAxis {
    Visible,
    Clip,
    Hidden,
    Scroll,
}

/// Overflow intent for both axes.
#[derive(Debug, Clone, Copy, PartialEq, Eq, Structural)]
pub struct Overflow {
    pub x: OverflowAxis,
    pub y: OverflowAxis,
}

impl Overflow {
    pub fn scroll() -> (r: Self)
        ensures
            r == (Overflow { x: OverflowAxis::Scroll, y: OverflowAxis::Scroll }),
    {
        Overflow { x: OverflowAxis::Scroll, y: OverflowAxis::Scroll }
    }

    pub fn clip() -> (r: Self)
        ensures
            r == (Overflow { x: OverflowAxis::Clip, y: OverflowAxis::Clip }),
    {
        Overflow { x: OverflowAxis::Clip, y: OverflowAxis::Clip }
    }

    pub fn hidden() -> (r: Self)
        ensures
            r == (Overflow { x: OverflowAxis::Hidden, y: OverflowAxis::Hidden }),
    {
        Overflow { x: OverflowAxis::Hidden, y: OverflowAxis::Hidden }
    }

    pub fn visible() -> (r: Self)
        ensures
            r == (Overflow { x: OverflowAxis::Visible, y: OverflowAxis::Visible }),
    {
        Overflow { x: OverflowAxis::Visible, y: OverflowAxis::Visible }
    }
}

} // verus!
