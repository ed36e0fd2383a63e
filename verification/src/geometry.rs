//! Geometry primitives: arena size, positions, velocity vectors, bounds
//! clamping and the circle-overlap test. Pure, stateless integer math.
//!
//! Coordinates are arena units; one unit is whatever the presentation layer
//! decides (typically a pixel). Velocities are units per millisecond.

use vstd::prelude::*;

verus! {

/// Smallest arena side accepted at construction; rules out degenerate arenas
/// in which the spawn region of an obstacle would be empty.
pub const MIN_DIM: i64 = 64;

/// Largest arena side; keeps every coordinate small enough that squared
/// distances never overflow an `i64`.
pub const MAX_DIM: i64 = 1073741824;

/// Largest magnitude of a velocity component, units per millisecond.
pub const MAX_SPEED: i64 = 1048576;

/// Arena dimensions. Invariant (`wf`): both sides lie in `[MIN_DIM, MAX_DIM]`.
#[derive(Clone, Copy, PartialEq, Eq, Structural, Debug)]
pub struct Size {
    pub width: i64,
    pub height: i64,
}

/// A point of the arena.
#[derive(Clone, Copy, PartialEq, Eq, Structural, Debug)]
pub struct Position {
    pub x: i64,
    pub y: i64,
}

/// A velocity, in arena units per millisecond.
#[derive(Clone, Copy, PartialEq, Eq, Structural, Debug)]
pub struct Vector {
    pub dx: i64,
    pub dy: i64,
}

impl Size {
    /// A size the rest of the crate accepts as an arena.
    pub open spec fn wf(self) -> bool {
        MIN_DIM <= self.width <= MAX_DIM && MIN_DIM <= self.height <= MAX_DIM
    }

    /// Builds a size; callers must supply non-degenerate dimensions.
    pub fn new(width: i64, height: i64) -> (r: Size)
        requires
            MIN_DIM <= width <= MAX_DIM,
            MIN_DIM <= height <= MAX_DIM,
        ensures
            r == (Size { width, height }),
            r.wf(),
    {
        Size { width, height }
    }
}

/// Whether `p` lies inside the arena rectangle `[0, width] x [0, height]`.
pub open spec fn in_bounds(p: Position, s: Size) -> bool {
    0 <= p.x <= s.width && 0 <= p.y <= s.height
}

/// Mathematical clamp of `v` into `[lo, hi]`.
pub open spec fn clamp_spec(v: int, lo: int, hi: int) -> int {
    if v < lo {
        lo
    } else if v > hi {
        hi
    } else {
        v
    }
}

/// Clamps a wide intermediate coordinate into `[lo, hi]`.
pub fn clamp_i128(v: i128, lo: i128, hi: i128) -> (r: i128)
    requires
        lo <= hi,
    ensures
        r == clamp_spec(v as int, lo as int, hi as int),
{
    if v < lo {
        lo
    } else if v > hi {
        hi
    } else {
        v
    }
}

/// Squared distance between two points.
pub open spec fn dist_sq(a: Position, b: Position) -> int {
    (a.x - b.x) * (a.x - b.x) + (a.y - b.y) * (a.y - b.y)
}

/// Two circles overlap when the distance between their centers does not
/// exceed the sum of their radii (compared in squares, exactly).
pub open spec fn circles_overlap(a: Position, ra: int, b: Position, rb: int) -> bool {
    dist_sq(a, b) <= (ra + rb) * (ra + rb)
}

/// Exact overlap test for two circles whose centers lie in an arena and whose
/// radii are bounded; the bounds keep every square inside `i128`.
pub fn overlap_test(a: Position, ra: i64, b: Position, rb: i64) -> (r: bool)
    requires
        0 <= a.x <= MAX_DIM,
        0 <= a.y <= MAX_DIM,
        0 <= b.x <= MAX_DIM,
        0 <= b.y <= MAX_DIM,
        0 <= ra <= MAX_DIM,
        0 <= rb <= MAX_DIM,
    ensures
        r == circles_overlap(a, ra as int, b, rb as int),
{
    let dx: i128 = a.x as i128 - b.x as i128;
    let dy: i128 = a.y as i128 - b.y as i128;
    let rsum: i128 = ra as i128 + rb as i128;
    proof {
        assert(dx * dx <= 0x1000000000000000i128) by (nonlinear_arith)
            requires
                -0x40000000 <= dx <= 0x40000000,
        ;
        assert(dy * dy <= 0x1000000000000000i128) by (nonlinear_arith)
            requires
                -0x40000000 <= dy <= 0x40000000,
        ;
        assert(dx * dx >= 0 && dy * dy >= 0) by (nonlinear_arith);
        assert(rsum * rsum <= 0x4000000000000000i128) by (nonlinear_arith)
            requires
                0 <= rsum <= 0x80000000,
        ;
        assert(rsum * rsum >= 0) by (nonlinear_arith);
    }
    dx * dx + dy * dy <= rsum * rsum
}

} // verus!
