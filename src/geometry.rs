//! The edge function and the point-in-triangle test shared by all shapes.
use vstd::prelude::*;
use crate::vec2::Vec2;

verus! {

/// The largest coordinate magnitude of a point in a geometric test.
pub const GRID_LIMIT: i64 = 500_000_000;

/// The largest coordinate magnitude of a line's endpoints.
pub const LINE_LIMIT: i64 = 100_000_000;

/// The largest coordinate magnitude of a size, a center or a resolved position of a shape.
pub const PLACE_LIMIT: i64 = 10_000_000;

/// Whether both coordinates are within `limit` in magnitude.
pub open spec fn within(v: Vec2<i64>, limit: int) -> bool {
    -limit <= v.x <= limit && -limit <= v.y <= limit
}

/// Whether both coordinates are within `PLACE_LIMIT` in magnitude.
pub open spec fn placeable(v: Vec2<i64>) -> bool {
    within(v, PLACE_LIMIT as int)
}

/// Whether both coordinates are within `GRID_LIMIT` in magnitude.
pub open spec fn on_grid(v: Vec2<i64>) -> bool {
    -GRID_LIMIT <= v.x <= GRID_LIMIT && -GRID_LIMIT <= v.y <= GRID_LIMIT
}

/// Which side of the directed edge `a -> b` the point `p` lies on: zero on the
/// line through the edge, the sign telling the side otherwise.
pub open spec fn edge_spec(a: Vec2<i64>, b: Vec2<i64>, p: Vec2<i64>) -> int {
    (p.x - a.x) * (b.y - a.y) - (p.y - a.y) * (b.x - a.x)
}

/// A point is inside a triangle (border included) when the three edge
/// functions are all non-negative or all non-positive.
pub open spec fn inside_spec(a: Vec2<i64>, b: Vec2<i64>, c: Vec2<i64>, p: Vec2<i64>) -> bool {
    let e1 = edge_spec(a, b, p);
    let e2 = edge_spec(b, c, p);
    let e3 = edge_spec(c, a, p);
    (e1 >= 0 && e2 >= 0 && e3 >= 0) || (e1 <= 0 && e2 <= 0 && e3 <= 0)
}

pub fn edge(a: Vec2<i64>, b: Vec2<i64>, p: Vec2<i64>) -> (r: i64)
    requires
        on_grid(a),
        on_grid(b),
        on_grid(p),
    ensures
        r == edge_spec(a, b, p),
{
    let (px, py, ax, ay) = (p.x, p.y, a.x, a.y);
    let (bx, by) = (b.x, b.y);
    assert(-(2 * GRID_LIMIT) * (2 * GRID_LIMIT) <= (px - ax) * (by - ay) <= (2 * GRID_LIMIT) * (
    2 * GRID_LIMIT)) by (nonlinear_arith)
        requires
            -2 * GRID_LIMIT <= px - ax <= 2 * GRID_LIMIT,
            -2 * GRID_LIMIT <= by - ay <= 2 * GRID_LIMIT,
    ;
    assert(-(2 * GRID_LIMIT) * (2 * GRID_LIMIT) <= (py - ay) * (bx - ax) <= (2 * GRID_LIMIT) * (
    2 * GRID_LIMIT)) by (nonlinear_arith)
        requires
            -2 * GRID_LIMIT <= py - ay <= 2 * GRID_LIMIT,
            -2 * GRID_LIMIT <= bx - ax <= 2 * GRID_LIMIT,
    ;
    (px - ax) * (by - ay) - (py - ay) * (bx - ax)
}

pub fn inside_triangle(a: Vec2<i64>, b: Vec2<i64>, c: Vec2<i64>, p: Vec2<i64>) -> (r: bool)
    requires
        on_grid(a),
        on_grid(b),
        on_grid(c),
        on_grid(p),
    ensures
        r == inside_spec(a, b, c, p),
{
    let e1 = edge(a, b, p);
    let e2 = edge(b, c, p);
    let e3 = edge(c, a, p);
    (e1 >= 0 && e2 >= 0 && e3 >= 0) || (e1 <= 0 && e2 <= 0 && e3 <= 0)
}

} // verus!
