//! Integer vector types and fixed-point conventions.
//!
//! World coordinates, sprite extents and speeds are stored as `i64`
//! fixed-point values: [`SUBUNITS`] subunits make one world unit. The
//! scale is chosen so that every constant of the game (the movement
//! speed of 1.5 units per tick, the default sprite bounds of
//! `(256, 144) / 3.5`, the `(100, 200)` trigger box) is exact.

use vstd::prelude::*;

verus! {

/// Number of fixed-point subunits per world unit.
pub const SUBUNITS: i64 = 7000;

/// A 3-component integer vector: a position in fixed-point subunits.
#[derive(Clone, Copy, Debug, PartialEq, Eq, Structural)]
pub struct Vec3i {
    pub x: i64,
    pub y: i64,
    pub z: i64,
}

/// A 2-component integer vector: a sprite extent in fixed-point subunits.
#[derive(Clone, Copy, Debug, PartialEq, Eq, Structural)]
pub struct Vec2i {
    pub x: i64,
    pub y: i64,
}

impl Vec3i {
    /// The origin.
    pub open spec fn zero_spec() -> Vec3i {
        Vec3i { x: 0, y: 0, z: 0 }
    }

    pub fn zero() -> (r: Vec3i)
        ensures
            r == Vec3i::zero_spec(),
    {
        Vec3i { x: 0, y: 0, z: 0 }
    }

    pub open spec fn is_zero(self) -> bool {
        self.x == 0 && self.y == 0 && self.z == 0
    }

    pub fn new(x: i64, y: i64, z: i64) -> (r: Vec3i)
        ensures
            r.x == x && r.y == y && r.z == z,
    {
        Vec3i { x, y, z }
    }
}

impl Vec2i {
    pub fn new(x: i64, y: i64) -> (r: Vec2i)
        ensures
            r.x == x && r.y == y,
    {
        Vec2i { x, y }
    }
}

/// Absolute value over mathematical integers.
pub open spec fn abs_i(v: int) -> int {
    if v < 0 {
        -v
    } else {
        v
    }
}

/// Squared euclidean magnitude of a vector, over mathematical integers.
pub open spec fn mag_sq(v: Vec3i) -> int {
    v.x * v.x + v.y * v.y + v.z * v.z
}

/// Componentwise sum, truncated into `i64`. Callers keep their operands
/// small enough that the truncation never fires.
pub open spec fn vadd(a: Vec3i, b: Vec3i) -> Vec3i {
    Vec3i { x: (a.x + b.x) as i64, y: (a.y + b.y) as i64, z: (a.z + b.z) as i64 }
}

} // verus!
