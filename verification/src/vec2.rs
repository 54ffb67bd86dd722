//! Two-dimensional vectors over fixed-point scalars.

use vstd::prelude::*;

use crate::fixed::add_fp;
use crate::fixed::fp_add;
use crate::fixed::fp_mul;
use crate::fixed::fp_ok;
use crate::fixed::fp_sqrt;
use crate::fixed::fp_sub;
use crate::fixed::mul_fp;
use crate::fixed::sqrt_fp;
use crate::fixed::sub_fp;

verus! {

/// A point or displacement in the simulation plane, in fixed-point units.
#[derive(Clone, Copy, Debug, PartialEq, Eq, Structural)]
pub struct Vec2 {
    pub x: i64,
    pub y: i64,
}

/// The squared length of a vector `(x, y)`, as a fixed-point value.
pub open spec fn spec_norm2(x: int, y: int) -> int {
    fp_add(fp_mul(x, x), fp_mul(y, y))
}

/// The length of a vector `(x, y)`, as a fixed-point value.
pub open spec fn spec_norm(x: int, y: int) -> int {
    fp_sqrt(spec_norm2(x, y))
}

impl Vec2 {
    /// Both components lie in the fixed-point domain.
    pub open spec fn wf(self) -> bool {
        fp_ok(self.x as int) && fp_ok(self.y as int)
    }

    /// The zero vector.
    pub fn zero() -> (r: Vec2)
        ensures
            r.x == 0,
            r.y == 0,
    {
        Vec2 { x: 0, y: 0 }
    }

    /// Componentwise saturating sum.
    pub fn add(self, other: Vec2) -> (r: Vec2)
        ensures
            r.x as int == fp_add(self.x as int, other.x as int),
            r.y as int == fp_add(self.y as int, other.y as int),
            r.wf(),
    {
        Vec2 { x: add_fp(self.x, other.x), y: add_fp(self.y, other.y) }
    }

    /// Componentwise saturating difference.
    pub fn sub(self, other: Vec2) -> (r: Vec2)
        ensures
            r.x as int == fp_sub(self.x as int, other.x as int),
            r.y as int == fp_sub(self.y as int, other.y as int),
            r.wf(),
    {
        Vec2 { x: sub_fp(self.x, other.x), y: sub_fp(self.y, other.y) }
    }

    /// Multiply both components by a fixed-point scalar.
    pub fn scale(self, k: i64) -> (r: Vec2)
        ensures
            r.x as int == fp_mul(self.x as int, k as int),
            r.y as int == fp_mul(self.y as int, k as int),
            r.wf(),
    {
        Vec2 { x: mul_fp(self.x, k), y: mul_fp(self.y, k) }
    }

    /// Length of the vector; zero only for vectors shorter than one
    /// fixed-point unit in both components.
    pub fn magnitude(self) -> (r: i64)
        ensures
            r as int == spec_norm(self.x as int, self.y as int),
            r >= 0,
    {
        let xx: i64 = mul_fp(self.x, self.x);
        let yy: i64 = mul_fp(self.y, self.y);
        sqrt_fp(add_fp(xx, yy))
    }
}

} // verus!
