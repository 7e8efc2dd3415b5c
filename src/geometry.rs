use vstd::prelude::*;

verus! {

/// A region of a composite image, in pixels.
#[derive(Clone, Copy, Debug, PartialEq, Eq, Structural)]
pub struct Rectangle {
    pub x: u16,
    pub y: u16,
    pub w: u16,
    pub h: u16,
}

/// A point on the drawing surface, in pixels.
#[derive(Clone, Copy, Debug, PartialEq, Eq, Structural)]
pub struct Point {
    pub x: i64,
    pub y: i64,
}

/// Half of the sum of two coordinates, rounded toward negative infinity.
pub open spec fn half_sum(a: int, b: int) -> int {
    (a + b) / 2
}

/// The point halfway between `a` and `b` (rounded down where the sum of a
/// coordinate pair is odd).
pub open spec fn midpoint_spec(a: Point, b: Point) -> Point {
    Point { x: half_sum(a.x as int, b.x as int) as i64, y: half_sum(a.y as int, b.y as int) as i64 }
}

fn half_sum_exec(a: i64, b: i64) -> (r: i64)
    ensures
        r as int == half_sum(a as int, b as int),
{
    let s: i128 = a as i128 + b as i128;
    let h: i128 = if s >= 0 {
        s / 2
    } else {
        -((-s + 1) / 2)
    };
    assert(h == (a + b) / 2) by (nonlinear_arith)
        requires
            s == a + b,
            s >= 0 ==> h == s / 2,
            s < 0 ==> h == -((-s + 1) / 2),
    ;
    h as i64
}

/// The point halfway between `a` and `b`.
pub fn midpoint(a: Point, b: Point) -> (r: Point)
    ensures
        r == midpoint_spec(a, b),
        2 * r.x <= a.x + b.x <= 2 * r.x + 1,
        2 * r.y <= a.y + b.y <= 2 * r.y + 1,
{
    Point { x: half_sum_exec(a.x, b.x), y: half_sum_exec(a.y, b.y) }
}

/// Where both coordinate sums are even, the midpoint is exact: twice it is
/// the sum of the two points.
pub proof fn lemma_midpoint_exact(a: Point, b: Point)
    requires
        (a.x + b.x) % 2 == 0,
        (a.y + b.y) % 2 == 0,
    ensures
        2 * midpoint_spec(a, b).x == a.x + b.x,
        2 * midpoint_spec(a, b).y == a.y + b.y,
{
}

} // verus!
