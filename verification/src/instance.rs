//! Computed layouts and the flat draw-instance record handed to the
//! renderer.

use vstd::prelude::*;

use crate::formats::RGBA;
use crate::vec2::Vec2;

verus! {

/// Draw-mode tag: an ordinary box.
pub const MODE_BOX: u32 = 0;

/// Draw-mode tag: a text glyph; `border` and `corner` then carry packed
/// atlas coordinates instead of paint attributes.
pub const MODE_GLYPH: u32 = 1;

/// Draw-mode tag: an image quad; the red channel carries the image index.
pub const MODE_IMAGE: u32 = 3;

/// One fixed-size draw record consumed by the instanced renderer.
/// Later entries paint over earlier ones.
#[derive(Debug, Clone, Copy, PartialEq, Eq, Structural)]
pub struct UiInstance {
    pub color: RGBA,
    pub border_color: RGBA,
    pub border: i64,
    pub x: i64,
    pub y: i64,
    pub width: i64,
    pub height: i64,
    pub corner: i64,
    pub mode: u32,
}

impl Default for UiInstance {
    fn default() -> (r: Self)
        ensures
            r == UiInstance::spec_default(),
    {
        UiInstance {
            color: RGBA { r: 0, g: 0, b: 0, a: 0 },
            border_color: RGBA { r: 0, g: 0, b: 0, a: 0 },
            border: 0,
            x: 0,
            y: 0,
            width: 0,
            height: 0,
            corner: 0,
            mode: 0,
        }
    }
}

impl UiInstance {
    pub open spec fn spec_default() -> UiInstance {
        UiInstance {
            color: RGBA { r: 0, g: 0, b: 0, a: 0 },
            border_color: RGBA { r: 0, g: 0, b: 0, a: 0 },
            border: 0i64,
            x: 0i64,
            y: 0i64,
            width: 0i64,
            height: 0i64,
            corner: 0i64,
            mode: 0u32,
        }
    }
}

/// The computed layout of one element: resolved position, size and
/// paint attributes, recomputed by every build or rebuild pass. The
/// `order` field is the draw sequence index assigned by the pass that
/// produced it.
#[derive(Debug, Clone, Copy, PartialEq, Eq, Structural)]
pub struct RawUiElement {
    pub color: RGBA,
    pub border_color: RGBA,
    pub border: i64,
    pub pos: Vec2,
    pub size: Vec2,
    pub corner: i64,
    pub mode: u32,
    pub order: u32,
}

impl RawUiElement {
    pub open spec fn spec_default() -> RawUiElement {
        RawUiElement {
            color: RGBA { r: 0, g: 0, b: 0, a: 0 },
            border_color: RGBA { r: 0, g: 0, b: 0, a: 0 },
            border: 0i64,
            pos: Vec2 { x: 0i64, y: 0i64 },
            size: Vec2 { x: 0i64, y: 0i64 },
            corner: 0i64,
            mode: 0u32,
            order: 0u32,
        }
    }

    /// The draw record of this computed layout.
    pub open spec fn spec_to_instance(self) -> UiInstance {
        UiInstance {
            color: self.color,
            border_color: self.border_color,
            border: self.border,
            x: self.pos.x,
            y: self.pos.y,
            width: self.size.x,
            height: self.size.y,
            corner: self.corner,
            mode: self.mode,
        }
    }

    pub fn to_instance(&self) -> (r: UiInstance)
        ensures
            r == self.spec_to_instance(),
    {
        UiInstance {
            color: self.color,
            border_color: self.border_color,
            border: self.border,
            x: self.pos.x,
            y: self.pos.y,
            width: self.size.x,
            height: self.size.y,
            corner: self.corner,
            mode: self.mode,
        }
    }
}

impl Default for RawUiElement {
    fn default() -> (r: Self)
        ensures
            r == RawUiElement::spec_default(),
    {
        RawUiElement {
            color: RGBA { r: 0, g: 0, b: 0, a: 0 },
            border_color: RGBA { r: 0, g: 0, b: 0, a: 0 },
            border: 0,
            pos: Vec2 { x: 0, y: 0 },
            size: Vec2 { x: 0, y: 0 },
            corner: 0,
            mode: 0,
            order: 0,
        }
    }
}

} // verus!
