//! Circle overlap and the play-field bounds used for culling and clamping.
use vstd::prelude::*;
use crate::math::{Point, UNIT, COORD_MAX, within, dist_sq};

verus! {

/// Left edge of the play field, in sub-pixel units.
pub const FIELD_LEFT: i64 = 50 * UNIT;

/// Right edge of the play field.
pub const FIELD_RIGHT: i64 = 550 * UNIT;

/// Top edge of the play field.
pub const FIELD_TOP: i64 = 30 * UNIT;

/// Bottom edge of the play field.
pub const FIELD_BOTTOM: i64 = 570 * UNIT;

/// Tolerance added to the sum of two radii in a collision test.
pub const COLLISION_TOLERANCE: i64 = 3 * UNIT;

/// Largest radius a collision test accepts.
pub const RADIUS_MAX: i64 = 1_000_000 * UNIT;

/// `(x, y)` lies in the closed play-field rectangle.
pub open spec fn in_field(x: int, y: int) -> bool {
    FIELD_LEFT <= x <= FIELD_RIGHT && FIELD_TOP <= y <= FIELD_BOTTOM
}

/// Two circles overlap: the squared distance of their centres is below the
/// square of their radii plus the tolerance.
pub open spec fn circles_overlap(a: Point, ra: int, b: Point, rb: int) -> bool {
    dist_sq(a.x as int, a.y as int, b.x as int, b.y as int) < (ra + rb + COLLISION_TOLERANCE) * (
    ra + rb + COLLISION_TOLERANCE)
}

/// `v` clamped into `[lo, hi]`.
pub open spec fn clamp(v: int, lo: int, hi: int) -> int {
    if v < lo {
        lo
    } else if v > hi {
        hi
    } else {
        v
    }
}

/// Whether `p` lies in the play field.
pub fn point_in_field(p: &Point) -> (r: bool)
    ensures
        r == in_field(p.x as int, p.y as int),
{
    p.x <= FIELD_RIGHT && p.x >= FIELD_LEFT && p.y <= FIELD_BOTTOM && p.y >= FIELD_TOP
}

/// Whether the circle at `a` of radius `ra` and the one at `b` of radius
/// `rb` overlap, without a square root.
pub fn circles_collide(a: &Point, ra: i64, b: &Point, rb: i64) -> (r: bool)
    requires
        within(a.x as int, a.y as int, COORD_MAX as int),
        within(b.x as int, b.y as int, COORD_MAX as int),
        0 <= ra <= RADIUS_MAX,
        0 <= rb <= RADIUS_MAX,
    ensures
        r == circles_overlap(*a, ra as int, *b, rb as int),
{
    let dx: i64 = b.x - a.x;
    let dy: i64 = b.y - a.y;
    assert(0 <= dx * dx <= 4_000_000_000_000_000_000) by (nonlinear_arith)
        requires
            -2_000_000_000 <= dx <= 2_000_000_000,
    ;
    assert(0 <= dy * dy <= 4_000_000_000_000_000_000) by (nonlinear_arith)
        requires
            -2_000_000_000 <= dy <= 2_000_000_000,
    ;
    let d2: i64 = dx * dx + dy * dy;
    let rr: i64 = ra + rb + COLLISION_TOLERANCE;
    assert(0 <= rr * rr <= 5_000_000_000_000_000_000) by (nonlinear_arith)
        requires
            0 <= rr <= 2_000_003_000,
    ;
    d2 < rr * rr
}

/// `p` with each coordinate clamped into the play field.
pub fn clamp_to_field(p: Point) -> (r: Point)
    ensures
        r.x == clamp(p.x as int, FIELD_LEFT as int, FIELD_RIGHT as int),
        r.y == clamp(p.y as int, FIELD_TOP as int, FIELD_BOTTOM as int),
        in_field(r.x as int, r.y as int),
{
    let mut q = p;
    if q.x < FIELD_LEFT {
        q.x = FIELD_LEFT;
    }
    if q.x > FIELD_RIGHT {
        q.x = FIELD_RIGHT;
    }
    if q.y < FIELD_TOP {
        q.y = FIELD_TOP;
    }
    if q.y > FIELD_BOTTOM {
        q.y = FIELD_BOTTOM;
    }
    q
}

} // verus!
