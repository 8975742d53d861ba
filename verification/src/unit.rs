//! The unit algebra: abstract length units resolved against a parent
//! size, and the nine-way anchor resolver for absolute placement.

use vstd::prelude::*;

use crate::px::px_add;
use crate::px::px_half;
use crate::px::px_scale;
use crate::px::px_sub;
use crate::px::sat64;
use crate::px::spec_px_scale;
use crate::px::tdiv;
use crate::vec2::Vec2;

verus! {

/// Fallback length for `Auto` and `Undefined` units, in pixels.
pub const AUTO_FALLBACK: i64 = 100;

/// An abstract length. Relative variants carry a per-mille factor of
/// the chosen parent axis; `Px` and `Rem` carry whole pixels.
#[derive(Debug, Clone, Copy, PartialEq, Eq, Structural)]
pub enum UiUnit {
    Zero,
    Undefined,
    Auto,
    Fill,
    Px(i64),
    Relative(u32),
    RelativeHeight(u32),
    RelativeWidth(u32),
    RelativeMax(u32),
    RelativeMin(u32),
    Rem(i64),
}

/// The larger component of a parent size.
pub open spec fn spec_max_axis(p: Vec2) -> int {
    if p.x >= p.y {
        p.x as int
    } else {
        p.y as int
    }
}

/// The smaller component of a parent size.
pub open spec fn spec_min_axis(p: Vec2) -> int {
    if p.x <= p.y {
        p.x as int
    } else {
        p.y as int
    }
}

impl UiUnit {
    /// The unit resolved on the horizontal axis: `Px(n)` is `n`, `Fill`
    /// is the parent width, relative variants scale their chosen parent
    /// axis, and `Auto`/`Undefined` fall back to a fixed default.
    pub open spec fn spec_pixelx(self, parent: Vec2) -> int {
        match self {
            UiUnit::Zero => 0,
            UiUnit::Undefined => AUTO_FALLBACK as int,
            UiUnit::Auto => AUTO_FALLBACK as int,
            UiUnit::Fill => parent.x as int,
            UiUnit::Px(p) => p as int,
            UiUnit::Relative(f) => spec_px_scale(parent.x as int, f as int),
            UiUnit::RelativeWidth(f) => spec_px_scale(parent.x as int, f as int),
            UiUnit::RelativeHeight(f) => spec_px_scale(parent.y as int, f as int),
            UiUnit::RelativeMax(f) => spec_px_scale(spec_max_axis(parent), f as int),
            UiUnit::RelativeMin(f) => spec_px_scale(spec_min_axis(parent), f as int),
            UiUnit::Rem(r) => r as int,
        }
    }

    /// The unit resolved on the vertical axis; `Relative` follows the
    /// parent height here, while `RelativeWidth`/`RelativeHeight` keep
    /// their fixed axis to allow deliberate cross-axis coupling.
    pub open spec fn spec_pixely(self, parent: Vec2) -> int {
        match self {
            UiUnit::Zero => 0,
            UiUnit::Undefined => AUTO_FALLBACK as int,
            UiUnit::Auto => AUTO_FALLBACK as int,
            UiUnit::Fill => parent.y as int,
            UiUnit::Px(p) => p as int,
            UiUnit::Relative(f) => spec_px_scale(parent.y as int, f as int),
            UiUnit::RelativeWidth(f) => spec_px_scale(parent.x as int, f as int),
            UiUnit::RelativeHeight(f) => spec_px_scale(parent.y as int, f as int),
            UiUnit::RelativeMax(f) => spec_px_scale(spec_max_axis(parent), f as int),
            UiUnit::RelativeMin(f) => spec_px_scale(spec_min_axis(parent), f as int),
            UiUnit::Rem(r) => r as int,
        }
    }

    /// Resolves the unit against the parent size on the x axis.
    pub fn pixelx(&self, parent_size: Vec2) -> (r: i64)
        ensures
            r == self.spec_pixelx(parent_size),
    {
        match self {
            UiUnit::Zero => 0,
            UiUnit::Undefined => AUTO_FALLBACK,
            UiUnit::Auto => AUTO_FALLBACK,
            UiUnit::Fill => parent_size.x,
            UiUnit::Px(p) => *p,
            UiUnit::Relative(f) => px_scale(parent_size.x, *f),
            UiUnit::RelativeWidth(f) => px_scale(parent_size.x, *f),
            UiUnit::RelativeHeight(f) => px_scale(parent_size.y, *f),
            UiUnit::RelativeMax(f) => px_scale(parent_size.max_axis(), *f),
            UiUnit::RelativeMin(f) => px_scale(parent_size.min_axis(), *f),
            UiUnit::Rem(r) => *r,
        }
    }

    /// Resolves the unit against the parent size on the y axis.
    pub fn pixely(&self, parent_size: Vec2) -> (r: i64)
        ensures
            r == self.spec_pixely(parent_size),
    {
        match self {
            UiUnit::Zero => 0,
            UiUnit::Undefined => AUTO_FALLBACK,
            UiUnit::Auto => AUTO_FALLBACK,
            UiUnit::Fill => parent_size.y,
            UiUnit::Px(p) => *p,
            UiUnit::Relative(f) => px_scale(parent_size.y, *f),
            UiUnit::RelativeWidth(f) => px_scale(parent_size.x, *f),
            UiUnit::RelativeHeight(f) => px_scale(parent_size.y, *f),
            UiUnit::RelativeMax(f) => px_scale(parent_size.max_axis(), *f),
            UiUnit::RelativeMin(f) => px_scale(parent_size.min_axis(), *f),
            UiUnit::Rem(r) => *r,
        }
    }
}

/// A nine-way anchor: three x placements crossed with three y
/// placements.
#[derive(Debug, Clone, Copy, PartialEq, Eq, Structural)]
pub enum Align {
    Center,
    Top,
    TopRight,
    Right,
    BottomRight,
    Bottom,
    BottomLeft,
    Left,
    TopLeft,
}

/// Placement against the low edge: the offset pushes inward.
pub open spec fn spec_place_low(off: int) -> int {
    off
}

/// Centered placement: half the free space, then the offset.
pub open spec fn spec_place_mid(space: int, size: int, off: int) -> int {
    sat64(tdiv(sat64(space - size), 2) + off)
}

/// Placement against the high edge: the offset pushes inward, toward
/// the anchor side, so it is subtracted.
pub open spec fn spec_place_high(space: int, size: int, off: int) -> int {
    sat64(sat64(space - size) - off)
}

impl Align {
    /// The anchored position of a box of `size` within `space`, with
    /// `offset` always pushing away from the anchored edges.
    pub open spec fn spec_get_pos(self, space: Vec2, size: Vec2, offset: Vec2) -> Vec2 {
        let mx = spec_place_mid(space.x as int, size.x as int, offset.x as int);
        let my = spec_place_mid(space.y as int, size.y as int, offset.y as int);
        let hx = spec_place_high(space.x as int, size.x as int, offset.x as int);
        let hy = spec_place_high(space.y as int, size.y as int, offset.y as int);
        match self {
            Align::Center => Vec2 { x: mx as i64, y: my as i64 },
            Align::Top => Vec2 { x: mx as i64, y: offset.y },
            Align::TopRight => Vec2 { x: hx as i64, y: offset.y },
            Align::Right => Vec2 { x: hx as i64, y: my as i64 },
            Align::BottomRight => Vec2 { x: hx as i64, y: hy as i64 },
            Align::Bottom => Vec2 { x: mx as i64, y: hy as i64 },
            Align::BottomLeft => Vec2 { x: offset.x, y: hy as i64 },
            Align::Left => Vec2 { x: offset.x, y: my as i64 },
            Align::TopLeft => offset,
        }
    }

    /// Resolves the anchor to a concrete position.
    pub fn get_pos(&self, space: Vec2, size: Vec2, offset: Vec2) -> (r: Vec2)
        ensures
            r == self.spec_get_pos(space, size, offset),
    {
        let mx = px_add(px_half(px_sub(space.x, size.x)), offset.x);
        let my = px_add(px_half(px_sub(space.y, size.y)), offset.y);
        let hx = px_sub(px_sub(space.x, size.x), offset.x);
        let hy = px_sub(px_sub(space.y, size.y), offset.y);
        match self {
            Align::Center => Vec2 { x: mx, y: my },
            Align::Top => Vec2 { x: mx, y: offset.y },
            Align::TopRight => Vec2 { x: hx, y: offset.y },
            Align::Right => Vec2 { x: hx, y: my },
            Align::BottomRight => Vec2 { x: hx, y: hy },
            Align::Bottom => Vec2 { x: mx, y: hy },
            Align::BottomLeft => Vec2 { x: offset.x, y: hy },
            Align::Left => Vec2 { x: offset.x, y: my },
            Align::TopLeft => offset,
        }
    }
}

} // verus!
