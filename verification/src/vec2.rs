//! Two-dimensional integer pixel vectors.

use vstd::prelude::*;

use crate::px::px_add;
use crate::px::px_sub;
use crate::px::sat64;

verus! {

/// A point or extent in whole-pixel space, origin at the top left.
#[derive(Debug, Clone, Copy, PartialEq, Eq, Structural)]
pub struct Vec2 {
    pub x: i64,
    pub y: i64,
}

impl Vec2 {
    pub fn new(x: i64, y: i64) -> (v: Self)
        ensures
            v == (Vec2 { x, y }),
    {
        Vec2 { x, y }
    }

    pub fn zero() -> (v: Self)
        ensures
            v == (Vec2 { x: 0i64, y: 0i64 }),
    {
        Vec2 { x: 0, y: 0 }
    }

    pub fn one() -> (v: Self)
        ensures
            v == (Vec2 { x: 1i64, y: 1i64 }),
    {
        Vec2 { x: 1, y: 1 }
    }

    /// Componentwise saturating sum.
    pub open spec fn spec_plus(self, o: Vec2) -> Vec2 {
        Vec2 { x: sat64(self.x + o.x) as i64, y: sat64(self.y + o.y) as i64 }
    }

    /// Componentwise saturating difference.
    pub open spec fn spec_minus(self, o: Vec2) -> Vec2 {
        Vec2 { x: sat64(self.x - o.x) as i64, y: sat64(self.y - o.y) as i64 }
    }

    pub fn plus(&self, o: &Vec2) -> (r: Vec2)
        ensures
            r == self.spec_plus(*o),
    {
        Vec2 { x: px_add(self.x, o.x), y: px_add(self.y, o.y) }
    }

    pub fn minus(&self, o: &Vec2) -> (r: Vec2)
        ensures
            r == self.spec_minus(*o),
    {
        Vec2 { x: px_sub(self.x, o.x), y: px_sub(self.y, o.y) }
    }

    /// The larger component.
    pub fn max_axis(&self) -> (r: i64)
        ensures
            r == if self.x >= self.y {
                self.x
            } else {
                self.y
            },
    {
        if self.x >= self.y {
            self.x
        } else {
            self.y
        }
    }

    /// The smaller component.
    pub fn min_axis(&self) -> (r: i64)
        ensures
            r == if self.x <= self.y {
                self.x
            } else {
                self.y
            },
    {
        if self.x <= self.y {
            self.x
        } else {
            self.y
        }
    }
}

impl Default for Vec2 {
    fn default() -> (v: Self)
        ensures
            v == (Vec2 { x: 0i64, y: 0i64 }),
    {
        Vec2 { x: 0, y: 0 }
    }
}

} // verus!
