//! Straight segments, rasterized with Bresenham's algorithm.
use vstd::prelude::*;
use crate::geometry::{on_grid, within, GRID_LIMIT, LINE_LIMIT};
use crate::pixel::{in_extent, Pixel, SOLID};
use crate::trig::iabs;
use crate::pos2::{vadd, vsub, Pos2};
use crate::vec2::{bounded, lemma_rot_small, rot_x, rot_y, Vec2};

verus! {

/// The cells of Bresenham's walk from `(x, y)` toward `(x1, y1)` that fall
/// inside the terminal, as pixels. `err` is the running error term and
/// `fuel` bounds the number of cells still to visit.
pub open spec fn walk(
    x: int,
    y: int,
    err: int,
    x1: int,
    y1: int,
    dx: int,
    dy: int,
    sx: int,
    sy: int,
    fuel: nat,
) -> Seq<(int, int)>
    decreases fuel,
{
    if fuel == 0 {
        Seq::empty()
    } else if x == x1 && y == y1 {
        seq![(x, y)]
    } else {
        let e2 = 2 * err;
        let nx = if e2 >= dy { x + sx } else { x };
        let err1 = if e2 >= dy { err + dy } else { err };
        let ny = if e2 <= dx { y + sy } else { y };
        let err2 = if e2 <= dx { err1 + dx } else { err1 };
        seq![(x, y)] + walk(nx, ny, err2, x1, y1, dx, dy, sx, sy, (fuel - 1) as nat)
    }
}

/// The cells of the segment from `(x0, y0)` to `(x1, y1)`: Bresenham's walk
/// with error term `dx + dy`, `dx = |x1 - x0|`, `dy = -|y1 - y0|`, which
/// visits `dx - dy + 1` cells at most.
pub open spec fn line_cells(x0: int, y0: int, x1: int, y1: int) -> Seq<(int, int)> {
    let dx = iabs(x1 - x0);
    let dy = -iabs(y1 - y0);
    let sx: int = if x0 < x1 { 1 } else { -1 };
    let sy: int = if y0 < y1 { 1 } else { -1 };
    walk(x0, y0, dx + dy, x1, y1, dx, dy, sx, sy, (dx - dy + 1) as nat)
}

/// Consecutive cells are neighbours: they differ by at most one in each coordinate.
pub open spec fn eight_connected(cells: Seq<(int, int)>) -> bool {
    forall|i: int| 0 <= i < cells.len() - 1 ==> {
        let a = #[trigger] cells[i];
        let b = cells[i + 1];
        -1 <= b.0 - a.0 <= 1 && -1 <= b.1 - a.1 <= 1
    }
}

proof fn lemma_walk_connected(
    x: int,
    y: int,
    err: int,
    x1: int,
    y1: int,
    dx: int,
    dy: int,
    sx: int,
    sy: int,
    fuel: nat,
)
    requires
        sx == 1 || sx == -1,
        sy == 1 || sy == -1,
    ensures
        eight_connected(walk(x, y, err, x1, y1, dx, dy, sx, sy, fuel)),
        fuel > 0 ==> walk(x, y, err, x1, y1, dx, dy, sx, sy, fuel)[0] == (x, y),
    decreases fuel,
{
    if fuel > 0 && !(x == x1 && y == y1) {
        let e2 = 2 * err;
        let nx = if e2 >= dy { x + sx } else { x };
        let err1 = if e2 >= dy { err + dy } else { err };
        let ny = if e2 <= dx { y + sy } else { y };
        let err2 = if e2 <= dx { err1 + dx } else { err1 };
        let f = (fuel - 1) as nat;
        lemma_walk_connected(nx, ny, err2, x1, y1, dx, dy, sx, sy, f);
        let rest = walk(nx, ny, err2, x1, y1, dx, dy, sx, sy, f);
        let all = walk(x, y, err, x1, y1, dx, dy, sx, sy, fuel);
        assert(all == seq![(x, y)] + rest);
        assert forall|i: int| 0 <= i < all.len() - 1 implies {
            let a = #[trigger] all[i];
            let b = all[i + 1];
            -1 <= b.0 - a.0 <= 1 && -1 <= b.1 - a.1 <= 1
        } by {
            if i > 0 {
                assert(all[i] == rest[i - 1]);
                assert(all[i + 1] == rest[i]);
            }
        }
    }
}

/// Bresenham's segments have no gaps: each cell touches the next, sides or corners.
pub proof fn lemma_line_cells_connected(x0: int, y0: int, x1: int, y1: int)
    ensures
        eight_connected(line_cells(x0, y0, x1, y1)),
        line_cells(x0, y0, x1, y1)[0] == (x0, y0),
{
    let dx = iabs(x1 - x0);
    let dy = -iabs(y1 - y0);
    let sx: int = if x0 < x1 { 1 } else { -1 };
    let sy: int = if y0 < y1 { 1 } else { -1 };
    lemma_walk_connected(x0, y0, dx + dy, x1, y1, dx, dy, sx, sy, (dx - dy + 1) as nat);
}

/// The pixels that a sequence of cells gives inside a `width` by `height` terminal.
pub open spec fn cells_to_pixels(
    cells: Seq<(int, int)>,
    width: u16,
    height: u16,
    color: crossterm::style::Color,
    z: i32,
) -> Seq<Pixel>
    decreases cells.len(),
{
    if cells.len() == 0 {
        Seq::empty()
    } else {
        let c = cells[0];
        let rest = cells_to_pixels(cells.drop_first(), width, height, color, z);
        if in_extent(c.0, c.1, width, height) {
            seq![Pixel { x: c.0 as u16, y: c.1 as u16, glyph: SOLID, color, z_index: z }] + rest
        } else {
            rest
        }
    }
}

pub proof fn lemma_cells_to_pixels_append(
    a: Seq<(int, int)>,
    b: Seq<(int, int)>,
    width: u16,
    height: u16,
    color: crossterm::style::Color,
    z: i32,
)
    ensures
        cells_to_pixels(a + b, width, height, color, z) == cells_to_pixels(a, width, height, color, z)
            + cells_to_pixels(b, width, height, color, z),
    decreases a.len(),
{
    if a.len() == 0 {
        assert(a + b == b);
    } else {
        assert((a + b).drop_first() == a.drop_first() + b);
        lemma_cells_to_pixels_append(a.drop_first(), b, width, height, color, z);
    }
}

/// A segment between two positions. `center` is where its midpoint is drawn:
/// the midpoint itself for a top-level line, the resolved world position
/// when a parent has placed it.
#[derive(Debug, Clone, Copy)]
pub struct Line {
    pub pos1: Pos2,
    pub pos2: Pos2,
    pub color: crossterm::style::Color,
    pub z_index: i32,
    pub center: Pos2,
}

/// Halving toward zero, as the machine's signed division does.
pub open spec fn half(v: int) -> int {
    if v >= 0 {
        v / 2
    } else {
        -((-v) / 2)
    }
}

pub open spec fn mid_spec(a: Vec2<i64>, b: Vec2<i64>) -> Vec2<i64> {
    Vec2 { x: half(a.x + b.x) as i64, y: half(a.y + b.y) as i64 }
}

fn mid_of(a: Vec2<i64>, b: Vec2<i64>) -> (r: Vec2<i64>)
    requires
        on_grid(a),
        on_grid(b),
    ensures
        r == mid_spec(a, b),
        on_grid(r),
        within(a, LINE_LIMIT as int) && within(b, LINE_LIMIT as int) ==> within(r, LINE_LIMIT as int),
{
    Vec2 { x: (a.x + b.x) / 2, y: (a.y + b.y) / 2 }
}

/// Appends to `out` the pixels of the segment from `a` to `b` that fall
/// inside a `width` by `height` terminal, in the order Bresenham's walk visits them.
pub fn rasterize_segment(
    a: Vec2<i64>,
    b: Vec2<i64>,
    color: crossterm::style::Color,
    z: i32,
    out: &mut Vec<Pixel>,
    width: u16,
    height: u16,
)
    requires
        on_grid(a),
        on_grid(b),
    ensures
        final(out)@ == old(out)@ + cells_to_pixels(
            line_cells(a.x as int, a.y as int, b.x as int, b.y as int),
            width,
            height,
            color,
            z,
        ),
{
    let (x0, y0, x1, y1) = (a.x, a.y, b.x, b.y);
    let dx: i64 = if x1 >= x0 { x1 - x0 } else { x0 - x1 };
    let dy: i64 = if y1 >= y0 { y0 - y1 } else { y1 - y0 };
    let sx: i64 = if x0 < x1 { 1 } else { -1 };
    let sy: i64 = if y0 < y1 { 1 } else { -1 };
    let ghost total = (dx - dy + 1) as nat;
    let ghost whole = line_cells(x0 as int, y0 as int, x1 as int, y1 as int);
    let mut err: i128 = (dx + dy) as i128;
    let mut x: i64 = x0;
    let mut y: i64 = y0;
    let mut steps: i64 = 0;
    let ghost start = out@;
    let ghost mut seen: Seq<(int, int)> = Seq::empty();
    assert(whole == walk(x0 as int, y0 as int, err as int, x1 as int, y1 as int, dx as int, dy as int, sx as int, sy as int, total));
    loop
        invariant_except_break
            seen + walk(x as int, y as int, err as int, x1 as int, y1 as int, dx as int, dy as int, sx as int, sy as int, (total - steps) as nat) == whole,
            out@ == start + cells_to_pixels(seen, width, height, color, z),
        invariant
            on_grid(a),
            on_grid(b),
            x0 == a.x && y0 == a.y && x1 == b.x && y1 == b.y,
            0 <= dx <= 2 * GRID_LIMIT,
            -2 * GRID_LIMIT <= dy <= 0,
            sx == 1 || sx == -1,
            sy == 1 || sy == -1,
            total == dx - dy + 1,
            0 <= steps <= total,
            -steps <= x - x0 <= steps,
            -steps <= y - y0 <= steps,
            -(steps + 1) * 4_294_967_296 <= err <= (steps + 1) * 4_294_967_296,
        ensures
            out@ == start + cells_to_pixels(whole, width, height, color, z),
        decreases total - steps,
    {
        let ghost fuel = (total - steps) as nat;
        if steps == dx - dy + 1 {
            assert(walk(x as int, y as int, err as int, x1 as int, y1 as int, dx as int, dy as int, sx as int, sy as int, fuel) == Seq::<(int, int)>::empty());
            assert(seen == whole);
            break;
        }
        proof {
            reveal_with_fuel(cells_to_pixels, 2);
            lemma_cells_to_pixels_append(seen, seq![(x as int, y as int)], width, height, color, z);
            assert(cells_to_pixels(seq![(x as int, y as int)], width, height, color, z) == (
                if in_extent(x as int, y as int, width, height) {
                    seq![Pixel { x: x as u16, y: y as u16, glyph: SOLID, color, z_index: z }]
                } else {
                    Seq::empty()
                }
            )) by {
                assert(seq![(x as int, y as int)].drop_first() == Seq::<(int, int)>::empty());
            }
        }
        if x >= 0 && (x as u64) < (width as u64) && y >= 0 && (y as u64) < (height as u64) {
            out.push(Pixel::new(x as u16, y as u16, SOLID, color, z));
        }
        proof {
            seen = seen + seq![(x as int, y as int)];
        }
        if x == x1 && y == y1 {
            proof {
                assert(walk(x as int, y as int, err as int, x1 as int, y1 as int, dx as int, dy as int, sx as int, sy as int, fuel) == seq![(x as int, y as int)]);
                assert(seen == whole);
            }
            break;
        }
        let e2: i128 = err * 2;
        if e2 >= dy as i128 {
            err = err + dy as i128;
            x = x + sx;
        }
        if e2 <= dx as i128 {
            err = err + dx as i128;
            y = y + sy;
        }
        steps = steps + 1;
        proof {
            assert(seen + walk(x as int, y as int, err as int, x1 as int, y1 as int, dx as int, dy as int, sx as int, sy as int, (total - steps) as nat) == whole) by {
                assert(seen + walk(x as int, y as int, err as int, x1 as int, y1 as int, dx as int, dy as int, sx as int, sy as int, (total - steps) as nat) =~= (seen.drop_last() + seq![seen.last()]) + walk(x as int, y as int, err as int, x1 as int, y1 as int, dx as int, dy as int, sx as int, sy as int, (total - steps) as nat));
            }
        }
    }
}

/// The endpoints of a well-formed line are close enough to its midpoint to be turned.
pub proof fn lemma_line_diffs_bounded(l: Line)
    requires
        l.wf(),
    ensures
        bounded(vsub(l.pos1.coords(), l.mid())),
        bounded(vsub(l.pos2.coords(), l.mid())),
        within(l.mid(), LINE_LIMIT as int),
{
}

/// The line that `Line::new` makes between two world points.
pub open spec fn line_of(a: Vec2<i64>, b: Vec2<i64>, color: crossterm::style::Color) -> Line {
    Line {
        pos1: Pos2::Absolute(a),
        pos2: Pos2::Absolute(b),
        color,
        z_index: 0,
        center: Pos2::Absolute(mid_spec(a, b)),
    }
}

impl crate::sort::Keyed for Line {
    /// Edges are painted by the sum of their endpoints' y-coordinates, top first.
    open spec fn key(&self) -> int {
        self.pos1.coords().y + self.pos2.coords().y
    }

    fn sort_key(&self) -> (r: i128) {
        let a = self.pos1.vec();
        let b = self.pos2.vec();
        a.y as i128 + b.y as i128
    }
}

impl Line {
    /// Both endpoints and the drawing center lie within `LINE_LIMIT`.
    pub open spec fn wf(self) -> bool {
        within(self.pos1.coords(), LINE_LIMIT as int) && within(self.pos2.coords(), LINE_LIMIT as int)
            && within(self.center.coords(), LINE_LIMIT as int)
    }

    /// The midpoint of the two endpoints.
    pub open spec fn mid(self) -> Vec2<i64> {
        mid_spec(self.pos1.coords(), self.pos2.coords())
    }

    /// The logical position: the midpoint, as a world position.
    pub open spec fn local(self) -> Pos2 {
        Pos2::Absolute(self.mid())
    }

    /// The first endpoint where it is drawn.
    pub open spec fn world1(self) -> Vec2<i64> {
        vadd(self.pos1.coords(), vsub(self.center.coords(), self.mid()))
    }

    /// The second endpoint where it is drawn.
    pub open spec fn world2(self) -> Vec2<i64> {
        vadd(self.pos2.coords(), vsub(self.center.coords(), self.mid()))
    }

    /// A line between two positions, drawn where they are.
    pub fn new(pos1: Pos2, pos2: Pos2, color: crossterm::style::Color) -> (r: Line)
        requires
            within(pos1.coords(), LINE_LIMIT as int),
            within(pos2.coords(), LINE_LIMIT as int),
        ensures
            r == (Line { pos1, pos2, color, z_index: 0, center: Pos2::Absolute(mid_spec(pos1.coords(), pos2.coords())) }),
            r.world1() == pos1.coords(),
            r.world2() == pos2.coords(),
            r.wf(),
    {
        let m = mid_of(pos1.vec(), pos2.vec());
        Line { pos1, pos2, color, z_index: 0, center: Pos2::Absolute(m) }
    }

    /// The midpoint of the segment, as a world position.
    pub fn pos(&self) -> (r: Pos2)
        requires
            self.wf(),
        ensures
            r == self.local(),
    {
        Pos2::Absolute(mid_of(self.pos1.vec(), self.pos2.vec()))
    }

    pub fn z_index(&self) -> (r: i32)
        ensures
            r == self.z_index,
    {
        self.z_index
    }

    /// The endpoints where they are drawn.
    pub fn world_ends(&self) -> (r: (Vec2<i64>, Vec2<i64>))
        requires
            self.wf(),
        ensures
            r.0 == self.world1(),
            r.1 == self.world2(),
            on_grid(r.0),
            on_grid(r.1),
    {
        let m = mid_of(self.pos1.vec(), self.pos2.vec());
        let c = self.center.vec();
        let shift = c - m;
        (self.pos1.vec() + shift, self.pos2.vec() + shift)
    }

    /// Appends the pixels of the segment, as drawn, that fall inside a
    /// `width` by `height` terminal.
    pub fn rasterize(&self, out: &mut Vec<Pixel>, width: u16, height: u16)
        requires
            self.wf(),
        ensures
            final(out)@ == old(out)@ + self.pixels(width, height),
    {
        let (a, b) = self.world_ends();
        rasterize_segment(a, b, self.color, self.z_index, out, width, height);
    }

    /// The pixels of the segment as drawn in a `width` by `height` terminal.
    pub open spec fn pixels(self, width: u16, height: u16) -> Seq<Pixel> {
        let a = self.world1();
        let b = self.world2();
        cells_to_pixels(line_cells(a.x as int, a.y as int, b.x as int, b.y as int), width, height, self.color, self.z_index)
    }

    /// Records where a parent has placed this line: its midpoint is drawn at `pos`.
    pub fn set_parent_pos(&mut self, pos: Pos2)
        requires
            old(self).wf(),
            within(pos.coords(), LINE_LIMIT as int),
        ensures
            *final(self) == (Line { center: pos, ..*old(self) }),
            final(self).wf(),
    {
        self.center = pos;
    }

    /// Whether `p` lies in the axis-aligned box spanned by the two endpoints,
    /// border included.
    pub fn collides_with_point(&self, p: Vec2<i64>) -> (r: bool)
        ensures
            r == ({
                let a = self.pos1.coords();
                let b = self.pos2.coords();
                (a.x <= p.x <= b.x || b.x <= p.x <= a.x) && (a.y <= p.y <= b.y || b.y <= p.y
                    <= a.y)
            }),
    {
        let a = self.pos1.vec();
        let b = self.pos2.vec();
        let (min_x, max_x) = if a.x <= b.x { (a.x, b.x) } else { (b.x, a.x) };
        let (min_y, max_y) = if a.y <= b.y { (a.y, b.y) } else { (b.y, a.y) };
        p.x >= min_x && p.x <= max_x && p.y >= min_y && p.y <= max_y
    }

    /// Moves the line so that its midpoint is at `pos`: both endpoints are
    /// shifted by the same amount, keeping length and direction; they become
    /// world positions.
    pub fn set_pos(&mut self, pos: Pos2)
        requires
            old(self).wf(),
            within(pos.coords(), LINE_LIMIT as int),
            within(vadd(old(self).pos1.coords(), vsub(pos.coords(), old(self).mid())), LINE_LIMIT as int),
            within(vadd(old(self).pos2.coords(), vsub(pos.coords(), old(self).mid())), LINE_LIMIT as int),
        ensures
            final(self).pos1 == Pos2::Absolute(vadd(old(self).pos1.coords(), vsub(pos.coords(), old(self).mid()))),
            final(self).pos2 == Pos2::Absolute(vadd(old(self).pos2.coords(), vsub(pos.coords(), old(self).mid()))),
            final(self).color == old(self).color,
            final(self).z_index == old(self).z_index,
            final(self).center == old(self).center,
    {
        let m = mid_of(self.pos1.vec(), self.pos2.vec());
        let delta = pos.vec() - m;
        self.pos1 = Pos2::Absolute(self.pos1.vec() + delta);
        self.pos2 = Pos2::Absolute(self.pos2.vec() + delta);
    }

    /// This line with both endpoints turned about the midpoint by `delta`
    /// millidegrees; the endpoints become world positions.
    pub open spec fn turned(self, delta: int) -> Line {
        let m = self.mid();
        let d1 = vsub(self.pos1.coords(), m);
        let d2 = vsub(self.pos2.coords(), m);
        Line {
            pos1: Pos2::Absolute(
                Vec2 { x: (rot_x(d1.x as int, d1.y as int, delta) + m.x) as i64, y: (rot_y(d1.x as int, d1.y as int, delta) + m.y) as i64 },
            ),
            pos2: Pos2::Absolute(
                Vec2 { x: (rot_x(d2.x as int, d2.y as int, delta) + m.x) as i64, y: (rot_y(d2.x as int, d2.y as int, delta) + m.y) as i64 },
            ),
            ..self
        }
    }

    /// Rotates both endpoints about the midpoint by `delta` millidegrees.
    pub fn rotate_about_mid(&mut self, delta: i64)
        requires
            old(self).wf(),
            bounded(vsub(old(self).pos1.coords(), old(self).mid())),
            bounded(vsub(old(self).pos2.coords(), old(self).mid())),
        ensures
            *final(self) == old(self).turned(delta as int),
    {
        let m = mid_of(self.pos1.vec(), self.pos2.vec());
        let d1 = (self.pos1.vec() - m).rotate(delta);
        let d2 = (self.pos2.vec() - m).rotate(delta);
        proof {
            let e1 = vsub(self.pos1.coords(), m);
            let e2 = vsub(self.pos2.coords(), m);
            lemma_rot_small(e1.x as int, e1.y as int, delta as int);
            lemma_rot_small(e2.x as int, e2.y as int, delta as int);
        }
        self.pos1 = Pos2::Absolute(d1 + m);
        self.pos2 = Pos2::Absolute(d2 + m);
    }
}

} // verus!
