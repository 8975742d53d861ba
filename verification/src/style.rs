//! The declarative style model: per-element layout intent.

use vstd::prelude::*;

use crate::formats::RGBA;
use crate::overflow::Overflow;
use crate::overflow::OverflowAxis;
use crate::px::px_add;
use crate::px::px_max;
use crate::px::px_min_of;
use crate::px::px_sub;
use crate::px::sat64;
use crate::unit::Align;
use crate::unit::UiUnit;
use crate::unit::AUTO_FALLBACK;
use crate::vec2::Vec2;

verus! {

/// Padding on the four sides of a box, resolved against the box's own
/// space.
#[derive(Debug, Clone, Copy, PartialEq, Eq, Structural)]
pub struct Padding {
    pub left: UiUnit,
    pub right: UiUnit,
    pub top: UiUnit,
    pub bottom: UiUnit,
}

impl Padding {
    /// Uniform pixel padding on all four sides.
    pub fn new(pixel: i64) -> (r: Self)
        ensures
            r == (Padding {
                left: UiUnit::Px(pixel),
                right: UiUnit::Px(pixel),
                top: UiUnit::Px(pixel),
                bottom: UiUnit::Px(pixel),
            }),
    {
        Padding {
            left: UiUnit::Px(pixel),
            right: UiUnit::Px(pixel),
            top: UiUnit::Px(pixel),
            bottom: UiUnit::Px(pixel),
        }
    }

    pub fn zero() -> (r: Self)
        ensures
            r == (Padding {
                left: UiUnit::Zero,
                right: UiUnit::Zero,
                top: UiUnit::Zero,
                bottom: UiUnit::Zero,
            }),
    {
        Padding { left: UiUnit::Zero, right: UiUnit::Zero, top: UiUnit::Zero, bottom: UiUnit::Zero }
    }

    /// Total horizontal padding resolved against `space`.
    pub open spec fn spec_x(self, space: Vec2) -> int {
        sat64(self.left.spec_pixelx(space) + self.right.spec_pixelx(space))
    }

    /// Total vertical padding resolved against `space`.
    pub open spec fn spec_y(self, space: Vec2) -> int {
        sat64(self.top.spec_pixely(space) + self.bottom.spec_pixely(space))
    }

    pub fn x(&self, space: Vec2) -> (r: i64)
        ensures
            r == self.spec_x(space),
    {
        px_add(self.left.pixelx(space), self.right.pixelx(space))
    }

    pub fn y(&self, space: Vec2) -> (r: i64)
        ensures
            r == self.spec_y(space),
    {
        px_add(self.top.pixely(space), self.bottom.pixely(space))
    }

    /// The offset of the padded content area from the box origin.
    pub open spec fn spec_start(self, space: Vec2) -> Vec2 {
        Vec2 { x: self.left.spec_pixelx(space) as i64, y: self.top.spec_pixely(space) as i64 }
    }

    pub fn start(&self, space: Vec2) -> (r: Vec2)
        ensures
            r == self.spec_start(space),
    {
        Vec2 { x: self.left.pixelx(space), y: self.top.pixely(space) }
    }
}

impl Default for Padding {
    fn default() -> (r: Self)
        ensures
            r == (Padding {
                left: UiUnit::Zero,
                right: UiUnit::Zero,
                top: UiUnit::Zero,
                bottom: UiUnit::Zero,
            }),
    {
        Padding { left: UiUnit::Zero, right: UiUnit::Zero, top: UiUnit::Zero, bottom: UiUnit::Zero }
    }
}

/// Margins around an inline element, resolved against the parent size.
#[derive(Debug, Clone, Copy, PartialEq, Eq, Structural)]
pub struct Margin {
    pub left: UiUnit,
    pub top: UiUnit,
    pub right: UiUnit,
    pub bottom: UiUnit,
}

impl Margin {
    pub fn zero() -> (r: Self)
        ensures
            r == (Margin {
                left: UiUnit::Zero,
                top: UiUnit::Zero,
                right: UiUnit::Zero,
                bottom: UiUnit::Zero,
            }),
    {
        Margin { left: UiUnit::Zero, top: UiUnit::Zero, right: UiUnit::Zero, bottom: UiUnit::Zero }
    }
}

/// A size policy for one axis, built from length units.
#[derive(Debug, Clone, Copy, PartialEq, Eq, Structural)]
pub enum UiSize {
    /// Fixed fallback size; inline containers take their content extent.
    Auto,
    /// The whole parent axis.
    Fill,
    /// Exactly the unit.
    Size(UiUnit),
    /// The unit, but at least the second unit.
    MinSize(UiUnit, UiUnit),
    /// The unit, but at most the second unit.
    MaxSize(UiUnit, UiUnit),
    /// The sum of the two units.
    AddSize(UiUnit, UiUnit),
    /// The first unit less the second.
    SubSize(UiUnit, UiUnit),
}

impl UiSize {
    /// The policy resolved as a width against `space`.
    pub open spec fn spec_width(self, space: Vec2) -> int {
        match self {
            UiSize::Auto => AUTO_FALLBACK as int,
            UiSize::Fill => space.x as int,
            UiSize::Size(u) => u.spec_pixelx(space),
            UiSize::MinSize(u, m) => {
                let a = u.spec_pixelx(space);
                let b = m.spec_pixelx(space);
                if a >= b {
                    a
                } else {
                    b
                }
            },
            UiSize::MaxSize(u, m) => {
                let a = u.spec_pixelx(space);
                let b = m.spec_pixelx(space);
                if a <= b {
                    a
                } else {
                    b
                }
            },
            UiSize::AddSize(u, v) => sat64(u.spec_pixelx(space) + v.spec_pixelx(space)),
            UiSize::SubSize(u, v) => sat64(u.spec_pixelx(space) - v.spec_pixelx(space)),
        }
    }

    /// The policy resolved as a height against `space`.
    pub open spec fn spec_height(self, space: Vec2) -> int {
        match self {
            UiSize::Auto => AUTO_FALLBACK as int,
            UiSize::Fill => space.y as int,
            UiSize::Size(u) => u.spec_pixely(space),
            UiSize::MinSize(u, m) => {
                let a = u.spec_pixely(space);
                let b = m.spec_pixely(space);
                if a >= b {
                    a
                } else {
                    b
                }
            },
            UiSize::MaxSize(u, m) => {
                let a = u.spec_pixely(space);
                let b = m.spec_pixely(space);
                if a <= b {
                    a
                } else {
                    b
                }
            },
            UiSize::AddSize(u, v) => sat64(u.spec_pixely(space) + v.spec_pixely(space)),
            UiSize::SubSize(u, v) => sat64(u.spec_pixely(space) - v.spec_pixely(space)),
        }
    }

    pub fn width(&self, space: Vec2) -> (r: i64)
        ensures
            r == self.spec_width(space),
    {
        match self {
            UiSize::Auto => AUTO_FALLBACK,
            UiSize::Fill => space.x,
            UiSize::Size(u) => u.pixelx(space),
            UiSize::MinSize(u, m) => px_max(u.pixelx(space), m.pixelx(space)),
            UiSize::MaxSize(u, m) => px_min_of(u.pixelx(space), m.pixelx(space)),
            UiSize::AddSize(u, v) => px_add(u.pixelx(space), v.pixelx(space)),
            UiSize::SubSize(u, v) => px_sub(u.pixelx(space), v.pixelx(space)),
        }
    }

    pub fn height(&self, space: Vec2) -> (r: i64)
        ensures
            r == self.spec_height(space),
    {
        match self {
            UiSize::Auto => AUTO_FALLBACK,
            UiSize::Fill => space.y,
            UiSize::Size(u) => u.pixely(space),
            UiSize::MinSize(u, m) => px_max(u.pixely(space), m.pixely(space)),
            UiSize::MaxSize(u, m) => px_min_of(u.pixely(space), m.pixely(space)),
            UiSize::AddSize(u, v) => px_add(u.pixely(space), v.pixely(space)),
            UiSize::SubSize(u, v) => px_sub(u.pixely(space), v.pixely(space)),
        }
    }
}

/// Canned style presets for quickly assembled interfaces.
pub struct UiBuilder;

impl UiBuilder {
    /// The stock panel style: a grey 150 by 350 box anchored in the
    /// top-right corner, ten pixels in from both edges, with a light
    /// one-pixel border and softly rounded corners.
    pub fn style() -> (r: Style)
        ensures
            r == UiBuilder::spec_style(),
    {
        Style {
            position: Position::Absolute(
                Absolute { align: Align::TopRight, x: UiUnit::Px(10), y: UiUnit::Px(10) },
            ),
            width: UiSize::Size(UiUnit::Px(150)),
            height: UiSize::Size(UiUnit::Px(350)),
            color: RGBA { r: 120, g: 120, b: 120, a: 255 },
            border_color: RGBA { r: 180, g: 180, b: 180, a: 255 },
            border: 1,
            corner: UiUnit::Px(6),
            padding: Padding::zero(),
        }
    }

    /// The preset `style` returns.
    pub open spec fn spec_style() -> Style {
        Style {
            position: Position::Absolute(
                Absolute { align: Align::TopRight, x: UiUnit::Px(10i64), y: UiUnit::Px(10i64) },
            ),
            width: UiSize::Size(UiUnit::Px(150i64)),
            height: UiSize::Size(UiUnit::Px(350i64)),
            color: RGBA { r: 120u8, g: 120u8, b: 120u8, a: 255u8 },
            border_color: RGBA { r: 180u8, g: 180u8, b: 180u8, a: 255u8 },
            border: 1i64,
            corner: UiUnit::Px(6i64),
            padding: Padding {
                left: UiUnit::Zero,
                right: UiUnit::Zero,
                top: UiUnit::Zero,
                bottom: UiUnit::Zero,
            },
        }
    }
}

/// Absolute positioning intent: an anchor and an inward offset.
#[derive(Debug, Clone, Copy, PartialEq, Eq, Structural)]
pub struct Absolute {
    pub align: Align,
    pub x: UiUnit,
    pub y: UiUnit,
}

/// Inline-flow positioning intent: margins and overflow behavior.
#[derive(Debug, Clone, Copy, PartialEq, Eq, Structural)]
pub struct Inline {
    pub margin: Margin,
    pub overflow: Overflow,
}

/// The positioning regime of an element.
#[derive(Debug, Clone, Copy, PartialEq, Eq, Structural)]
pub enum Position {
    Absolute(Absolute),
    Inline(Inline),
}

/// The full declarative layout intent of one element.
#[derive(Debug, Clone, Copy, PartialEq, Eq, Structural)]
pub struct Style {
    pub position: Position,
    pub width: UiSize,
    pub height: UiSize,
    pub color: RGBA,
    pub border_color: RGBA,
    pub border: i64,
    pub corner: UiUnit,
    pub padding: Padding,
}

impl Style {
    /// An inline style with zero margins and the given box.
    pub fn inline_box(width: UiSize, height: UiSize, color: RGBA) -> (r: Style)
        ensures
            r == (Style {
                position: Position::Inline(
                    Inline {
                        margin: Margin {
                            left: UiUnit::Zero,
                            top: UiUnit::Zero,
                            right: UiUnit::Zero,
                            bottom: UiUnit::Zero,
                        },
                        overflow: Overflow { x: OverflowAxis::Hidden, y: OverflowAxis::Hidden },
                    },
                ),
                width,
                height,
                color,
                border_color: color,
                border: 0i64,
                corner: UiUnit::Zero,
                padding: Padding {
                    left: UiUnit::Zero,
                    right: UiUnit::Zero,
                    top: UiUnit::Zero,
                    bottom: UiUnit::Zero,
                },
            }),
    {
        Style {
            position: Position::Inline(
                Inline { margin: Margin::zero(), overflow: Overflow::hidden() },
            ),
            width,
            height,
            color,
            border_color: color,
            border: 0,
            corner: UiUnit::Zero,
            padding: Padding::zero(),
        }
    }

    /// An absolute style anchored with the given alignment and offset.
    pub fn absolute_box(
        align: Align,
        x: UiUnit,
        y: UiUnit,
        width: UiSize,
        height: UiSize,
        color: RGBA,
    ) -> (r: Style)
        ensures
            r == (Style {
                position: Position::Absolute(Absolute { align, x, y }),
                width,
                height,
                color,
                border_color: color,
                border: 0i64,
                corner: UiUnit::Zero,
                padding: Padding {
                    left: UiUnit::Zero,
                    right: UiUnit::Zero,
                    top: UiUnit::Zero,
                    bottom: UiUnit::Zero,
                },
            }),
    {
        Style {
            position: Position::Absolute(Absolute { align, x, y }),
            width,
            height,
            color,
            border_color: color,
            border: 0,
            corner: UiUnit::Zero,
            padding: Padding::zero(),
        }
    }
}

} // verus!
