//! Three-component vectors of fixed-point scalars.

use vstd::prelude::*;
use crate::fixed::MAXQ;
use crate::fixed::UNIT;
use crate::fixed::clamp64;
use crate::fixed::add_clamp64;
use crate::fixed::floor_div128;
use crate::fixed::mul_unit;

verus! {

/// A 3-vector of fixed-point scalars (see [`crate::fixed::UNIT`]).
#[derive(Debug, Clone, Copy, PartialEq, Eq, Structural)]
pub struct Vec3 {
    pub x: i64,
    pub y: i64,
    pub z: i64,
}

impl Vec3 {
    /// Every component lies within the stored-quantity bound.
    pub open spec fn in_range(self) -> bool {
        &&& -MAXQ <= self.x <= MAXQ
        &&& -MAXQ <= self.y <= MAXQ
        &&& -MAXQ <= self.z <= MAXQ
    }

    pub fn new(x: i64, y: i64, z: i64) -> (r: Vec3)
        ensures
            r == (Vec3 { x, y, z }),
    {
        Vec3 { x, y, z }
    }

    pub fn zero() -> (r: Vec3)
        ensures
            r == (Vec3 { x: 0, y: 0, z: 0 }),
    {
        Vec3 { x: 0, y: 0, z: 0 }
    }

    /// Component-wise sum; the caller shows the sums stay in range.
    pub fn add(self, o: Vec3) -> (r: Vec3)
        requires
            i64::MIN <= self.x + o.x <= i64::MAX,
            i64::MIN <= self.y + o.y <= i64::MAX,
            i64::MIN <= self.z + o.z <= i64::MAX,
        ensures
            r.x == self.x + o.x,
            r.y == self.y + o.y,
            r.z == self.z + o.z,
    {
        Vec3 { x: self.x + o.x, y: self.y + o.y, z: self.z + o.z }
    }

    /// Component-wise difference; the caller shows the differences stay in
    /// range.
    pub fn sub(self, o: Vec3) -> (r: Vec3)
        requires
            i64::MIN <= self.x - o.x <= i64::MAX,
            i64::MIN <= self.y - o.y <= i64::MAX,
            i64::MIN <= self.z - o.z <= i64::MAX,
        ensures
            r.x == self.x - o.x,
            r.y == self.y - o.y,
            r.z == self.z - o.z,
    {
        Vec3 { x: self.x - o.x, y: self.y - o.y, z: self.z - o.z }
    }

    /// Component-wise saturating sum, for shared accumulators.
    pub fn add_clamp(self, o: Vec3) -> (r: Vec3)
        ensures
            r.x == clamp64(self.x + o.x),
            r.y == clamp64(self.y + o.y),
            r.z == clamp64(self.z + o.z),
    {
        Vec3 {
            x: add_clamp64(self.x, o.x),
            y: add_clamp64(self.y, o.y),
            z: add_clamp64(self.z, o.z),
        }
    }

    /// Fixed-point scalar product: each component multiplied by `s` and
    /// floored back onto the lattice.
    pub fn scale_unit(self, s: i64) -> (r: Vec3)
        requires
            self.in_range(),
            -MAXQ <= s <= MAXQ,
        ensures
            r.x == (self.x * s) / (UNIT as int),
            r.y == (self.y * s) / (UNIT as int),
            r.z == (self.z * s) / (UNIT as int),
    {
        Vec3 { x: mul_unit(self.x, s), y: mul_unit(self.y, s), z: mul_unit(self.z, s) }
    }

    /// Exact inner product at raw (doubled) scale: no rounding at all.
    pub fn dot_raw(self, o: Vec3) -> (r: i128)
        requires
            self.in_range(),
            o.in_range(),
        ensures
            r == self.x * o.x + self.y * o.y + self.z * o.z,
            -3 * (MAXQ as int) * (MAXQ as int) <= r <= 3 * (MAXQ as int) * (MAXQ as int),
    {
        proof {
            assert(-(MAXQ as int * MAXQ as int) <= self.x as int * o.x as int
                <= MAXQ as int * MAXQ as int) by (nonlinear_arith)
                requires -MAXQ <= self.x <= MAXQ && -MAXQ <= o.x <= MAXQ;
            assert(-(MAXQ as int * MAXQ as int) <= self.y as int * o.y as int
                <= MAXQ as int * MAXQ as int) by (nonlinear_arith)
                requires -MAXQ <= self.y <= MAXQ && -MAXQ <= o.y <= MAXQ;
            assert(-(MAXQ as int * MAXQ as int) <= self.z as int * o.z as int
                <= MAXQ as int * MAXQ as int) by (nonlinear_arith)
                requires -MAXQ <= self.z <= MAXQ && -MAXQ <= o.z <= MAXQ;
        }
        (self.x as i128) * (o.x as i128) + (self.y as i128) * (o.y as i128)
            + (self.z as i128) * (o.z as i128)
    }

    /// Fixed-point inner product: the raw product sum floored back onto
    /// the lattice.
    pub fn dot_unit(self, o: Vec3) -> (r: i64)
        requires
            self.in_range(),
            o.in_range(),
        ensures
            r == (self.x * o.x + self.y * o.y + self.z * o.z) / (UNIT as int),
    {
        let raw: i128 = self.dot_raw(o);
        proof {
            assert(3 * (MAXQ as int) * (MAXQ as int) < i64::MAX);
        }
        let q: i128 = floor_div128(raw, UNIT as i128);
        q as i64
    }

    /// Exact squared norm at raw (doubled) scale.
    pub fn norm_sq_raw(self) -> (r: i128)
        requires
            self.in_range(),
        ensures
            r == self.x * self.x + self.y * self.y + self.z * self.z,
            r >= 0,
    {
        let r = self.dot_raw(self);
        proof {
            assert(self.x as int * self.x as int >= 0) by (nonlinear_arith);
            assert(self.y as int * self.y as int >= 0) by (nonlinear_arith);
            assert(self.z as int * self.z as int >= 0) by (nonlinear_arith);
        }
        r
    }
}

} // verus!
