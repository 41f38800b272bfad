//! Fixed-point plane geometry: the 2-D vector type, the display color, and
//! the numeric limits of the simulation.

use vstd::prelude::*;

verus! {

/// Fixed-point sub-units per world unit: a coordinate of `SCALE` is one
/// world unit.  Masses use the same scale.
pub const SCALE: i64 = 1000;

/// `SCALE * SCALE`, as it appears in the acceleration formula.
pub const SCALE_SQ: u128 = 1_000_000;

/// Largest magnitude a position or velocity component may take
/// (one billion world units).  Integration clamps to this range.
pub const COORD_LIMIT: i64 = 1_000_000_000_000;

/// Largest mass a body may have (one billion world mass units).
pub const MASS_LIMIT: i64 = 1_000_000_000_000;

/// Bound on the number of retained past positions of a body.
pub const TRAIL_CAP: usize = 2000;

/// A 2-D vector of fixed-point coordinates.
#[derive(Clone, Copy, Debug, PartialEq, Eq, Structural)]
pub struct Vec2 {
    pub x: i64,
    pub y: i64,
}

/// An opaque RGBA display color; the simulation core never reads it.
#[derive(Clone, Copy, Debug, PartialEq, Eq, Structural)]
pub struct Rgba {
    pub r: u8,
    pub g: u8,
    pub b: u8,
    pub a: u8,
}

impl Vec2 {
    pub fn new(x: i64, y: i64) -> (v: Vec2)
        ensures
            v == (Vec2 { x, y }),
    {
        Vec2 { x, y }
    }
}

impl Rgba {
    pub fn new(r: u8, g: u8, b: u8, a: u8) -> (c: Rgba)
        ensures
            c == (Rgba { r, g, b, a }),
    {
        Rgba { r, g, b, a }
    }
}

/// Both components of `v` lie within `COORD_LIMIT`.
pub open spec fn in_range(v: Vec2) -> bool {
    -COORD_LIMIT <= v.x <= COORD_LIMIT && -COORD_LIMIT <= v.y <= COORD_LIMIT
}

/// `n` clamped to the coordinate range.
pub open spec fn clip(n: int) -> i64 {
    if n > COORD_LIMIT {
        COORD_LIMIT
    } else if n < -COORD_LIMIT {
        (-COORD_LIMIT) as i64
    } else {
        n as i64
    }
}

/// Squared Euclidean distance between `a` and `b`, in squared fixed-point
/// units; exact, no rounding.
pub open spec fn dist2(a: Vec2, b: Vec2) -> int {
    (b.x - a.x) * (b.x - a.x) + (b.y - a.y) * (b.y - a.y)
}

/// Exec counterpart of `clip`.
pub fn clip_i128(n: i128) -> (r: i64)
    ensures
        r == clip(n as int),
{
    if n > COORD_LIMIT as i128 {
        COORD_LIMIT
    } else if n < -(COORD_LIMIT as i128) {
        -COORD_LIMIT
    } else {
        n as i64
    }
}

} // verus!
