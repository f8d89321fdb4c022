//! The triangle: the one shape with real geometry.
use vstd::prelude::*;
use crate::geometry::{inside_spec, inside_triangle, on_grid, placeable, within, GRID_LIMIT, LINE_LIMIT, PLACE_LIMIT};
use crate::line::{cells_to_pixels, lemma_cells_to_pixels_append, line_of, Line};
use crate::orientation::Orientation;
use crate::pixel::{in_extent, Pixel, SOLID};
use crate::pos2::Pos2;
use crate::sort::{sort_by_key_stable, sort_stable};
use crate::trig::{cosine, cosine_fx, sine, sine_fx, tdiv, UNIT};
use crate::vec2::{fits, Vec2};

verus! {

/// The horizontal stretch `11 / 5` (2.2) that makes up for terminal cells
/// being taller than wide.
pub const X_STRETCH_NUM: i64 = 11;

pub const X_STRETCH_DEN: i64 = 5;

/// A model-space vertex rotated by `angle`, stretched horizontally and
/// placed on the screen around `center`, the y-axis flipped. The exact
/// fixed-point value is truncated toward zero once, at the end.
pub open spec fn screen_vertex(v: Vec2<i64>, angle: int, center: Vec2<i64>) -> Vec2<i64> {
    let c = cosine_fx(angle);
    let s = sine_fx(angle);
    let nx = v.x * c + v.y * s;
    let ny = -v.x * s + v.y * c;
    Vec2 {
        x: tdiv(nx * X_STRETCH_NUM + X_STRETCH_DEN * UNIT * center.x, X_STRETCH_DEN * UNIT) as i64,
        y: tdiv(UNIT * center.y - ny, UNIT as int) as i64,
    }
}

/// Three corners.
#[derive(Debug, Clone, Copy, PartialEq, Eq, Structural)]
pub struct TriangleVertices {
    pub top_left: Vec2<i64>,
    pub bottom_left: Vec2<i64>,
    pub bottom_right: Vec2<i64>,
}

impl From<[Vec2<i64>; 3]> for TriangleVertices {
    /// Corners in order: top left, bottom left, bottom right.
    fn from(v: [Vec2<i64>; 3]) -> (r: TriangleVertices) {
        TriangleVertices { top_left: v[0], bottom_left: v[1], bottom_right: v[2] }
    }
}

impl vstd::std_specs::convert::FromSpecImpl<[Vec2<i64>; 3]> for TriangleVertices {
    open spec fn obeys_from_spec() -> bool {
        true
    }

    open spec fn from_spec(v: [Vec2<i64>; 3]) -> TriangleVertices {
        TriangleVertices { top_left: v@[0], bottom_left: v@[1], bottom_right: v@[2] }
    }
}

impl TriangleVertices {
    pub fn to_arr(&self) -> (r: [Vec2<i64>; 3])
        ensures
            r@ == seq![self.top_left, self.bottom_left, self.bottom_right],
    {
        [self.top_left, self.bottom_left, self.bottom_right]
    }

    pub open spec fn on_grid(self) -> bool {
        on_grid(self.top_left) && on_grid(self.bottom_left) && on_grid(self.bottom_right)
    }

    pub open spec fn within(self, limit: int) -> bool {
        within(self.top_left, limit) && within(self.bottom_left, limit) && within(self.bottom_right, limit)
    }

    /// Whether `p` is inside (border included).
    pub open spec fn contains(self, p: Vec2<i64>) -> bool {
        inside_spec(self.top_left, self.bottom_left, self.bottom_right, p)
    }
}

/// The model-space corners of a triangle of `size`: `(-1, 1)`, `(-1, -1)` and
/// `(1, -1)` scaled by it.
pub open spec fn base_of(size: Vec2<i64>) -> TriangleVertices {
    TriangleVertices {
        top_left: Vec2 { x: (-size.x) as i64, y: size.y },
        bottom_left: Vec2 { x: (-size.x) as i64, y: (-size.y) as i64 },
        bottom_right: Vec2 { x: size.x, y: (-size.y) as i64 },
    }
}

/// The three edges of a new triangle of `size`, in construction order.
pub open spec fn base_edges(size: Vec2<i64>, color: crossterm::style::Color) -> Seq<Line> {
    let b = base_of(size);
    seq![
        line_of(b.top_left, b.bottom_left, color),
        line_of(b.bottom_left, b.bottom_right, color),
        line_of(b.bottom_right, b.top_left, color),
    ]
}

/// The three edges, in paint order.
pub open spec fn edges_of(v: TriangleVertices, color: crossterm::style::Color) -> Seq<Line> {
    sort_stable(
        seq![
            line_of(v.top_left, v.bottom_left, color),
            line_of(v.bottom_left, v.bottom_right, color),
            line_of(v.bottom_right, v.top_left, color),
        ],
    )
}

/// The cells of row `y` from column `x` to `max_x` that lie inside `v`.
pub open spec fn row_cells(v: TriangleVertices, y: int, x: int, max_x: int) -> Seq<(int, int)>
    decreases max_x + 1 - x,
{
    if x > max_x {
        Seq::empty()
    } else {
        let here: Seq<(int, int)> = if v.contains(Vec2 { x: x as i64, y: y as i64 }) {
            seq![(x, y)]
        } else {
            Seq::empty()
        };
        here + row_cells(v, y, x + 1, max_x)
    }
}

/// The cells of rows `y` to `max_y`, columns `min_x` to `max_x`, that lie inside `v`, row by row.
pub open spec fn box_cells(v: TriangleVertices, y: int, max_y: int, min_x: int, max_x: int) -> Seq<(int, int)>
    decreases max_y + 1 - y,
{
    if y > max_y {
        Seq::empty()
    } else {
        row_cells(v, y, min_x, max_x) + box_cells(v, y + 1, max_y, min_x, max_x)
    }
}

pub open spec fn min3(a: i64, b: i64, c: i64) -> i64 {
    if a <= b && a <= c { a } else if b <= c { b } else { c }
}

pub open spec fn max3(a: i64, b: i64, c: i64) -> i64 {
    if a >= b && a >= c { a } else if b >= c { b } else { c }
}

/// The cells inside `v` within its bounding box, row by row from the top.
pub open spec fn fill_cells(v: TriangleVertices) -> Seq<(int, int)> {
    let (a, b, c) = (v.top_left, v.bottom_left, v.bottom_right);
    box_cells(v, min3(a.y, b.y, c.y) as int, max3(a.y, b.y, c.y) as int, min3(a.x, b.x, c.x) as int, max3(a.x, b.x, c.x) as int)
}

fn min_of(a: i64, b: i64, c: i64) -> (r: i64)
    ensures
        r == min3(a, b, c),
{
    if a <= b && a <= c { a } else if b <= c { b } else { c }
}

fn max_of(a: i64, b: i64, c: i64) -> (r: i64)
    ensures
        r == max3(a, b, c),
{
    if a >= b && a >= c { a } else if b >= c { b } else { c }
}

/// Appends the pixels of the cells inside `v`, within a `width` by `height`
/// terminal, scanning its bounding box row by row.
pub fn fill_triangle(
    v: TriangleVertices,
    color: crossterm::style::Color,
    z: i32,
    out: &mut Vec<Pixel>,
    width: u16,
    height: u16,
)
    requires
        v.on_grid(),
    ensures
        final(out)@ == old(out)@ + cells_to_pixels(fill_cells(v), width, height, color, z),
{
    let (a, b, c) = (v.top_left, v.bottom_left, v.bottom_right);
    let min_x = min_of(a.x, b.x, c.x);
    let max_x = max_of(a.x, b.x, c.x);
    let min_y = min_of(a.y, b.y, c.y);
    let max_y = max_of(a.y, b.y, c.y);
    let ghost whole = fill_cells(v);
    let ghost start = out@;
    let ghost mut seen: Seq<(int, int)> = Seq::empty();
    let mut py: i64 = min_y;
    while py <= max_y
        invariant
            v.on_grid(),
            a == v.top_left && b == v.bottom_left && c == v.bottom_right,
            -GRID_LIMIT <= min_x <= max_x <= GRID_LIMIT,
            -GRID_LIMIT <= min_y <= max_y <= GRID_LIMIT,
            min_y <= py <= max_y + 1,
            seen + box_cells(v, py as int, max_y as int, min_x as int, max_x as int) == whole,
            out@ == start + cells_to_pixels(seen, width, height, color, z),
        decreases max_y + 1 - py,
    {
        let mut px: i64 = min_x;
        proof {
            assert(seen + row_cells(v, py as int, px as int, max_x as int) + box_cells(v, py + 1, max_y as int, min_x as int, max_x as int) == whole) by {
                assert(seen + (row_cells(v, py as int, px as int, max_x as int) + box_cells(v, py + 1, max_y as int, min_x as int, max_x as int)) == whole);
                assert(seen + (row_cells(v, py as int, px as int, max_x as int) + box_cells(v, py + 1, max_y as int, min_x as int, max_x as int)) =~= seen + row_cells(v, py as int, px as int, max_x as int) + box_cells(v, py + 1, max_y as int, min_x as int, max_x as int));
            }
        }
        while px <= max_x
            invariant
                v.on_grid(),
                a == v.top_left && b == v.bottom_left && c == v.bottom_right,
                -GRID_LIMIT <= min_x <= max_x <= GRID_LIMIT,
                -GRID_LIMIT <= min_y <= py <= max_y <= GRID_LIMIT,
                min_x <= px <= max_x + 1,
                seen + row_cells(v, py as int, px as int, max_x as int) + box_cells(v, py + 1, max_y as int, min_x as int, max_x as int) == whole,
                out@ == start + cells_to_pixels(seen, width, height, color, z),
            decreases max_x + 1 - px,
        {
            let p = Vec2 { x: px, y: py };
            let inside = inside_triangle(a, b, c, p);
            let ghost here: Seq<(int, int)> = if inside { seq![(px as int, py as int)] } else { Seq::empty() };
            proof {
                reveal_with_fuel(cells_to_pixels, 2);
                lemma_cells_to_pixels_append(seen, here, width, height, color, z);
                if inside {
                    assert(seq![(px as int, py as int)].drop_first() == Seq::<(int, int)>::empty());
                } else {
                    assert(seen + here == seen);
                }
            }
            if inside && px >= 0 && (px as u64) < (width as u64) && py >= 0 && (py as u64) < (height as u64) {
                out.push(Pixel::new(px as u16, py as u16, SOLID, color, z));
            }
            proof {
                assert(row_cells(v, py as int, px as int, max_x as int) == here + row_cells(v, py as int, px + 1, max_x as int));
                assert(seen + row_cells(v, py as int, px as int, max_x as int) =~= (seen + here) + row_cells(v, py as int, px + 1, max_x as int));
                seen = seen + here;
            }
            px = px + 1;
        }
        proof {
            assert(seen + row_cells(v, py as int, px as int, max_x as int) == seen);
        }
        py = py + 1;
    }
    proof {
        assert(seen + box_cells(v, py as int, max_y as int, min_x as int, max_x as int) == seen);
    }
}

/// A triangle. `base_vertices` are fixed at construction; `vertices` are the
/// world corners computed by `update` from the orientation and `center`.
/// `local_center` is the position in the parent's frame, `center` the world
/// position that the parent resolved.
#[derive(Debug)]
pub struct Triangle {
    pub base_vertices: TriangleVertices,
    pub vertices: TriangleVertices,
    pub orientation: Orientation,
    pub local_center: Pos2,
    pub center: Pos2,
    pub z_index: i32,
    pub color: crossterm::style::Color,
    pub lines: Vec<Line>,
}

proof fn lemma_tdiv_le(n: int, m: int, d: int)
    requires
        d > 0,
        m >= 0,
        -(m * d) <= n <= m * d,
    ensures
        -m <= tdiv(n, d) <= m,
{
    let a = crate::trig::iabs(n);
    assert(a <= m * d);
    vstd::arithmetic::div_mod::lemma_div_is_ordered(a, m * d, d);
    vstd::arithmetic::div_mod::lemma_div_by_multiple(m, d);
    vstd::arithmetic::div_mod::lemma_div_pos_is_pos(a, d);
}

proof fn lemma_screen_vertex_on_grid(v: Vec2<i64>, angle: int, center: Vec2<i64>)
    requires
        -2 * PLACE_LIMIT <= v.x <= 2 * PLACE_LIMIT,
        -2 * PLACE_LIMIT <= v.y <= 2 * PLACE_LIMIT,
        placeable(center),
    ensures
        within(screen_vertex(v, angle, center), LINE_LIMIT as int),
{
    let c = cosine_fx(angle);
    let s = sine_fx(angle);
    crate::trig::lemma_trig_bounds(angle);
    let (x, y) = (v.x as int, v.y as int);
    assert(-(4 * PLACE_LIMIT) * UNIT <= x * c + y * s <= (4 * PLACE_LIMIT) * UNIT) by (nonlinear_arith)
        requires -2 * PLACE_LIMIT <= x <= 2 * PLACE_LIMIT, -2 * PLACE_LIMIT <= y <= 2 * PLACE_LIMIT,
            -UNIT <= c <= UNIT, -UNIT <= s <= UNIT;
    assert(-(4 * PLACE_LIMIT) * UNIT <= -x * s + y * c <= (4 * PLACE_LIMIT) * UNIT) by (nonlinear_arith)
        requires -2 * PLACE_LIMIT <= x <= 2 * PLACE_LIMIT, -2 * PLACE_LIMIT <= y <= 2 * PLACE_LIMIT,
            -UNIT <= c <= UNIT, -UNIT <= s <= UNIT;
    let nx = x * c + y * s;
    let ny = -x * s + y * c;
    let cx = center.x as int;
    let cy = center.y as int;
    assert(-(PLACE_LIMIT * UNIT) <= UNIT * cy <= PLACE_LIMIT * UNIT) by (nonlinear_arith)
        requires -PLACE_LIMIT <= cy <= PLACE_LIMIT;
    assert(-(PLACE_LIMIT * 5 * UNIT) <= 5 * UNIT * cx <= PLACE_LIMIT * 5 * UNIT) by (nonlinear_arith)
        requires -PLACE_LIMIT <= cx <= PLACE_LIMIT;
    lemma_tdiv_le(nx * 11 + 5 * UNIT * cx, 10 * PLACE_LIMIT, 5 * UNIT);
    lemma_tdiv_le(UNIT * cy - ny, 5 * PLACE_LIMIT, UNIT as int);
}

fn screen(v: Vec2<i64>, angle: i64, center: Vec2<i64>) -> (r: Vec2<i64>)
    requires
        -2 * PLACE_LIMIT <= v.x <= 2 * PLACE_LIMIT,
        -2 * PLACE_LIMIT <= v.y <= 2 * PLACE_LIMIT,
        placeable(center),
    ensures
        r == screen_vertex(v, angle as int, center),
        within(r, LINE_LIMIT as int),
{
    proof {
        lemma_screen_vertex_on_grid(v, angle as int, center);
        crate::trig::lemma_trig_bounds(angle as int);
    }
    let c = cosine(angle) as i128;
    let s = sine(angle) as i128;
    let (x, y) = (v.x as i128, v.y as i128);
    assert(-(2 * PLACE_LIMIT) * UNIT <= x * c <= (2 * PLACE_LIMIT) * UNIT) by (nonlinear_arith)
        requires -2 * PLACE_LIMIT <= x <= 2 * PLACE_LIMIT, -UNIT <= c <= UNIT;
    assert(-(2 * PLACE_LIMIT) * UNIT <= y * s <= (2 * PLACE_LIMIT) * UNIT) by (nonlinear_arith)
        requires -2 * PLACE_LIMIT <= y <= 2 * PLACE_LIMIT, -UNIT <= s <= UNIT;
    assert(-(2 * PLACE_LIMIT) * UNIT <= x * s <= (2 * PLACE_LIMIT) * UNIT) by (nonlinear_arith)
        requires -2 * PLACE_LIMIT <= x <= 2 * PLACE_LIMIT, -UNIT <= s <= UNIT;
    assert(-(2 * PLACE_LIMIT) * UNIT <= y * c <= (2 * PLACE_LIMIT) * UNIT) by (nonlinear_arith)
        requires -2 * PLACE_LIMIT <= y <= 2 * PLACE_LIMIT, -UNIT <= c <= UNIT;
    assert(-x * s == -(x * s)) by (nonlinear_arith);
    let nx = x * c + y * s;
    let ny = -x * s + y * c;
    let u = UNIT as i128;
    let (cx, cy) = (center.x as i128, center.y as i128);
    let sx = (nx * 11 + 5 * u * cx) / (5 * u);
    let sy = (u * cy - ny) / u;
    Vec2 { x: sx as i64, y: sy as i64 }
}

impl crate::sort::Keyed for Triangle {
    /// Sectors and halves are painted by z-index, lowest first.
    open spec fn key(&self) -> int {
        self.z_index as int
    }

    fn sort_key(&self) -> (r: i128) {
        self.z_index as i128
    }
}

impl Clone for Triangle {
    /// A deep copy: the corners, placement and edges are kept.
    fn clone(&self) -> (r: Triangle)
        ensures
            r.same_as(*self),
    {
        let mut lines: Vec<Line> = Vec::new();
        let mut i: usize = 0;
        while i < self.lines.len()
            invariant
                0 <= i <= self.lines@.len(),
                lines@ == self.lines@.take(i as int),
            decreases self.lines@.len() - i,
        {
            lines.push(self.lines[i]);
            i = i + 1;
            proof {
                assert(lines@ =~= self.lines@.take(i as int));
            }
        }
        proof {
            assert(lines@ =~= self.lines@);
        }
        Triangle {
            base_vertices: self.base_vertices,
            vertices: self.vertices,
            orientation: self.orientation,
            local_center: self.local_center,
            center: self.center,
            z_index: self.z_index,
            color: self.color,
            lines,
        }
    }
}

impl Triangle {
    /// Equal in every field, the edges compared by their contents.
    pub open spec fn same_as(self, o: Triangle) -> bool {
        &&& self.base_vertices == o.base_vertices
        &&& self.vertices == o.vertices
        &&& self.orientation == o.orientation
        &&& self.local_center == o.local_center
        &&& self.center == o.center
        &&& self.z_index == o.z_index
        &&& self.color == o.color
        &&& self.lines@ == o.lines@
    }

    /// `self` is `o` drawn: the edges put in paint order, nothing else changed.
    pub open spec fn drawn_from(self, o: Triangle) -> bool {
        &&& self.base_vertices == o.base_vertices
        &&& self.vertices == o.vertices
        &&& self.orientation == o.orientation
        &&& self.local_center == o.local_center
        &&& self.center == o.center
        &&& self.z_index == o.z_index
        &&& self.color == o.color
        &&& self.lines@ == sort_stable(o.lines@)
    }

    /// Sizes and centers within `PLACE_LIMIT`, world corners on the grid,
    /// and three well-formed edges.
    pub open spec fn wf(self) -> bool {
        &&& -2 * PLACE_LIMIT <= self.base_vertices.top_left.x <= 2 * PLACE_LIMIT
        &&& -2 * PLACE_LIMIT <= self.base_vertices.top_left.y <= 2 * PLACE_LIMIT
        &&& -2 * PLACE_LIMIT <= self.base_vertices.bottom_left.x <= 2 * PLACE_LIMIT
        &&& -2 * PLACE_LIMIT <= self.base_vertices.bottom_left.y <= 2 * PLACE_LIMIT
        &&& -2 * PLACE_LIMIT <= self.base_vertices.bottom_right.x <= 2 * PLACE_LIMIT
        &&& -2 * PLACE_LIMIT <= self.base_vertices.bottom_right.y <= 2 * PLACE_LIMIT
        &&& placeable(self.center.coords())
        &&& placeable(self.local_center.coords())
        &&& self.vertices.within(LINE_LIMIT as int)
        &&& self.lines@.len() == 3
        &&& forall|i: int| 0 <= i < 3 ==> #[trigger] self.lines@[i].wf()
    }

    /// The world corners that `update` computes.
    pub open spec fn geometry(self) -> TriangleVertices {
        let a = self.orientation.angle();
        let c = self.center.coords();
        TriangleVertices {
            top_left: screen_vertex(self.base_vertices.top_left, a, c),
            bottom_left: screen_vertex(self.base_vertices.bottom_left, a, c),
            bottom_right: screen_vertex(self.base_vertices.bottom_right, a, c),
        }
    }

    /// The logical position, in the parent's frame.
    pub open spec fn local(self) -> Pos2 {
        self.local_center
    }

    /// A triangle around `center` with corners `(-1, 1)`, `(-1, -1)`, `(1, -1)`
    /// scaled by `size`. Until the first `update` its corners are the model-space ones.
    pub fn new(center: Pos2, orientation: Orientation, size: Vec2<i64>, color: crossterm::style::Color) -> (r: Triangle)
        requires
            placeable(center.coords()),
            placeable(size),
        ensures
            r.base_vertices == base_of(size),
            r.vertices == base_of(size),
            r.orientation == orientation,
            r.local_center == center,
            r.center == center,
            r.z_index == 0,
            r.color == color,
            r.lines@ == base_edges(size, color),
            r.wf(),
    {
        let p1 = Vec2 { x: -size.x, y: size.y };
        let p2 = Vec2 { x: -size.x, y: -size.y };
        let p3 = Vec2 { x: size.x, y: -size.y };
        let base = TriangleVertices { top_left: p1, bottom_left: p2, bottom_right: p3 };
        let l1 = Line::new(Pos2::Absolute(p1), Pos2::Absolute(p2), color);
        let l2 = Line::new(Pos2::Absolute(p2), Pos2::Absolute(p3), color);
        let l3 = Line::new(Pos2::Absolute(p3), Pos2::Absolute(p1), color);
        let lines = vec![l1, l2, l3];
        Triangle {
            base_vertices: base,
            vertices: base,
            orientation,
            local_center: center,
            center,
            z_index: 0,
            color,
            lines,
        }
    }

    /// The rotation angle, in millidegrees, that `update` applies.
    pub fn rad(&self) -> (r: i64)
        ensures
            r == self.orientation.angle(),
    {
        self.orientation.to_angle()
    }

    /// Recomputes the world corners from the model-space ones: rotation by
    /// the orientation, horizontal stretch, translation to `center` with the
    /// y-axis flipped. Rebuilds the three edges from them, ordered by the
    /// sum of their endpoints' y-coordinates.
    pub fn update(&mut self)
        requires
            old(self).wf(),
        ensures
            final(self).wf(),
            final(self).vertices == old(self).geometry(),
            final(self).lines@ == edges_of(old(self).geometry(), old(self).color),
            final(self).base_vertices == old(self).base_vertices,
            final(self).orientation == old(self).orientation,
            final(self).local_center == old(self).local_center,
            final(self).center == old(self).center,
            final(self).z_index == old(self).z_index,
            final(self).color == old(self).color,
    {
        let a = self.rad();
        let c = self.center.vec();
        let sp1 = screen(self.base_vertices.top_left, a, c);
        let sp2 = screen(self.base_vertices.bottom_left, a, c);
        let sp3 = screen(self.base_vertices.bottom_right, a, c);
        self.vertices = TriangleVertices { top_left: sp1, bottom_left: sp2, bottom_right: sp3 };
        let l1 = Line::new(Pos2::Absolute(sp1), Pos2::Absolute(sp2), self.color);
        let l2 = Line::new(Pos2::Absolute(sp2), Pos2::Absolute(sp3), self.color);
        let l3 = Line::new(Pos2::Absolute(sp3), Pos2::Absolute(sp1), self.color);
        let lines = sort_by_key_stable(vec![l1, l2, l3]);
        proof {
            let s = seq![l1, l2, l3];
            crate::sort::lemma_sort_keeps_all(s);
            assert forall|i: int| 0 <= i < 3 implies #[trigger] lines@[i].wf() by {
                assert(sort_stable(s).contains(lines@[i]));
                assert(s.contains(lines@[i]));
                let k = choose|k: int| 0 <= k < 3 && s[k] == lines@[i];
            }
        }
        self.lines = lines;
    }

    pub fn pos(&self) -> (r: Pos2)
        ensures
            r == self.local_center,
    {
        self.local_center
    }

    /// Records the world position that a parent resolved.
    pub fn set_parent_pos(&mut self, pos: Pos2)
        requires
            old(self).wf(),
            placeable(pos.coords()),
        ensures
            *final(self) == (Triangle { center: pos, ..*old(self) }),
            final(self).wf(),
    {
        self.center = pos;
    }

    pub fn z_index(&self) -> (r: i32)
        ensures
            r == self.z_index,
    {
        self.z_index
    }

    pub fn set_orientation(&mut self, orientation: Orientation)
        ensures
            *final(self) == (Triangle { orientation, ..*old(self) }),
    {
        self.orientation = orientation;
    }

    /// The fill, then the three edges on top, as pixels in a `width` by `height` terminal.
    pub open spec fn pixels(self, width: u16, height: u16) -> Seq<Pixel> {
        self.fill_pixels(width, height) + self.lines@[0].pixels(width, height) + self.lines@[1].pixels(
            width,
            height,
        ) + self.lines@[2].pixels(width, height)
    }

    /// The cells inside the world corners, within a `width` by `height`
    /// terminal, row by row, as pixels.
    pub open spec fn fill_pixels(self, width: u16, height: u16) -> Seq<Pixel> {
        cells_to_pixels(fill_cells(self.vertices), width, height, self.color, self.z_index)
    }

    /// Appends the filled interior: every cell of the bounding box of the
    /// world corners that passes the edge test and lies in the terminal,
    /// row by row.
    pub fn rasterize(&self, out: &mut Vec<Pixel>, width: u16, height: u16)
        requires
            self.wf(),
        ensures
            final(out)@ == old(out)@ + self.fill_pixels(width, height),
    {
        fill_triangle(self.vertices, self.color, self.z_index, out, width, height);
    }

    /// Appends the fill, then the three edges in their stored order.
    pub fn render(&self, out: &mut Vec<Pixel>, width: u16, height: u16)
        requires
            self.wf(),
        ensures
            final(out)@ == old(out)@ + self.pixels(width, height),
    {
        self.rasterize(out, width, height);
        self.lines[0].rasterize(out, width, height);
        self.lines[1].rasterize(out, width, height);
        self.lines[2].rasterize(out, width, height);
        proof {
            assert(final(out)@ =~= old(out)@ + self.pixels(width, height));
        }
    }

    /// Puts the edges in paint order (by the sum of their endpoints'
    /// y-coordinates, stable), then appends the fill and the edges over it.
    pub fn draw(&mut self, out: &mut Vec<Pixel>, width: u16, height: u16)
        requires
            old(self).wf(),
        ensures
            final(self).wf(),
            final(self).lines@ == sort_stable(old(self).lines@),
            final(self).base_vertices == old(self).base_vertices,
            final(self).vertices == old(self).vertices,
            final(self).orientation == old(self).orientation,
            final(self).local_center == old(self).local_center,
            final(self).center == old(self).center,
            final(self).z_index == old(self).z_index,
            final(self).color == old(self).color,
            final(out)@ == old(out)@ + final(self).pixels(width, height),
    {
        let mut lines: Vec<Line> = Vec::new();
        std::mem::swap(&mut lines, &mut self.lines);
        let ghost orig = lines@;
        let lines = sort_by_key_stable(lines);
        proof {
            crate::sort::lemma_sort_keeps_all(orig);
            assert forall|i: int| 0 <= i < 3 implies #[trigger] lines@[i].wf() by {
                assert(sort_stable(orig).contains(lines@[i]));
                assert(orig.contains(lines@[i]));
                let k = choose|k: int| 0 <= k < orig.len() && orig[k] == lines@[i];
                assert(orig[k].wf());
            }
        }
        self.lines = lines;
        self.render(out, width, height);
    }

    /// This triangle turned by `delta` more millidegrees.
    pub open spec fn rotated(self, delta: int) -> Triangle {
        Triangle { orientation: Orientation::Custom((self.orientation.angle() + delta) as i64), ..self }
    }

    /// Turns by `delta` millidegrees: the orientation becomes the custom angle
    /// of the old one plus `delta`. The corners follow at the next `update`.
    pub fn rotate(&mut self, delta: i64)
        requires
            fits(old(self).orientation.angle() + delta),
        ensures
            *final(self) == old(self).rotated(delta as int),
    {
        let a = self.orientation.to_angle();
        self.orientation = Orientation::Custom(a + delta);
    }

    /// Faces the custom angle `angle`.
    pub fn rotate_to(&mut self, angle: i64)
        ensures
            *final(self) == (Triangle { orientation: Orientation::Custom(angle), ..*old(self) }),
    {
        self.orientation = Orientation::Custom(angle);
    }

    /// Whether `p` lies inside the current world corners, border included.
    pub fn collides_with_point(&self, p: Vec2<i64>) -> (r: bool)
        requires
            self.wf(),
            on_grid(p),
        ensures
            r == self.vertices.contains(p),
    {
        let v = self.vertices.to_arr();
        inside_triangle(v[0], v[1], v[2], p)
    }
}

/// Turning a triangle by `delta` and back by `-delta` gives back the same
/// world corners at the next update.
pub proof fn lemma_rotation_round_trip(t: Triangle, delta: int)
    requires
        fits(t.orientation.angle() + delta),
        fits(t.orientation.angle()),
    ensures
        t.rotated(delta).rotated(-delta).geometry() == t.geometry(),
{
}

} // verus!
