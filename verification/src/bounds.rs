//! An axis-aligned rectangle over fixed-point positions, usable as a
//! collider or as a mesh region for effects.

use vstd::prelude::*;

use crate::arith::{trunc_div, trunc_div_i64};
use crate::key::Vec2;

verus! {

/// A rectangle given by its corner and its extent, in fixed-point thousandths.
#[derive(Clone, Copy, Debug, PartialEq, Eq, Structural)]
pub struct Bounds {
    pub position: Vec2,
    pub size: Vec2,
}

impl Bounds {
    /// Whether `point` lies strictly inside this rectangle.
    pub fn contains(&self, point: Vec2) -> (r: bool)
        ensures
            r == (self.position.x < point.x && self.position.x + self.size.x > point.x
                && self.position.y < point.y && self.position.y + self.size.y > point.y),
    {
        (self.position.x as i64) < point.x as i64
            && self.position.x as i64 + self.size.x as i64 > point.x as i64
            && (self.position.y as i64) < point.y as i64
            && self.position.y as i64 + self.size.y as i64 > point.y as i64
    }

    /// Whether this rectangle and `other` overlap in a region of positive area.
    pub fn intersects(&self, other: &Bounds) -> (r: bool)
        ensures
            r == (self.position.x < other.position.x + other.size.x
                && self.position.x + self.size.x > other.position.x
                && self.position.y < other.position.y + other.size.y
                && self.position.y + self.size.y > other.position.y),
    {
        (self.position.x as i64) < other.position.x as i64 + other.size.x as i64
            && self.position.x as i64 + self.size.x as i64 > other.position.x as i64
            && (self.position.y as i64) < other.position.y as i64 + other.size.y as i64
            && self.position.y as i64 + self.size.y as i64 > other.position.y as i64
    }

    /// The rectangle's centre: its corner plus half its extent.
    pub fn center(&self) -> (r: Vec2)
        requires
            i32::MIN <= self.position.x + trunc_div(self.size.x as int, 2) <= i32::MAX,
            i32::MIN <= self.position.y + trunc_div(self.size.y as int, 2) <= i32::MAX,
        ensures
            r.x == self.position.x + trunc_div(self.size.x as int, 2),
            r.y == self.position.y + trunc_div(self.size.y as int, 2),
    {
        let hx = trunc_div_i64(self.size.x as i64, 2);
        let hy = trunc_div_i64(self.size.y as i64, 2);
        (Vec2 {
            x: (self.position.x as i64 + hx) as i32,
            y: (self.position.y as i64 + hy) as i32,
        })
    }
}

} // verus!
