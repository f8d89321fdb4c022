//! Circles drawn as a fan of triangles.
use vstd::prelude::*;
use crate::geometry::{on_grid, placeable, PLACE_LIMIT};
use crate::orientation::Orientation;
use crate::pixel::Pixel;
use crate::pos2::Pos2;
use crate::sort::{sort_by_key_stable, sort_stable};
use crate::triangle::{base_edges, base_of, edges_of, Triangle};
use crate::trig::{sine, sine_fx, FULL_TURN, UNIT};
use crate::vec2::Vec2;

verus! {

/// The most sectors a circle can have: one per millidegree.
pub const MAX_SECTORS: usize = 360_000;

/// The angle of sector `i` of `n`: `i` full turns divided by `n`, in millidegrees.
pub open spec fn sector_angle(i: int, n: int) -> int {
    (i * FULL_TURN) / n
}

/// When `n` divides a full turn, consecutive sectors are exactly a full turn
/// divided by `n` apart.
pub proof fn lemma_sector_step(i: int, n: int)
    requires
        1 <= n,
        (FULL_TURN as int) % n == 0,
    ensures
        sector_angle(i + 1, n) - sector_angle(i, n) == (FULL_TURN as int) / n,
{
    let q = (FULL_TURN as int) / n;
    assert(FULL_TURN as int == q * n) by {
        vstd::arithmetic::div_mod::lemma_fundamental_div_mod(FULL_TURN as int, n);
    }
    assert(i * FULL_TURN == n * (i * q)) by (nonlinear_arith)
        requires FULL_TURN as int == q * n;
    assert((i + 1) * FULL_TURN == n * (i * q + q)) by (nonlinear_arith)
        requires FULL_TURN as int == q * n;
    vstd::arithmetic::div_mod::lemma_div_multiples_vanish(i * q, n);
    vstd::arithmetic::div_mod::lemma_div_multiples_vanish(i * q + q, n);
}

/// The base length of each of `n` wedges of radius `r`: `2 r sin(pi / n)`,
/// with the fixed-point sine, truncated toward zero.
pub open spec fn wedge_base(r: int, n: int) -> int {
    (2 * r * sine_fx((FULL_TURN as int / n) / 2)) / (UNIT as int)
}

/// A circle of `radius` made of `triangles`, one per sector.
/// `local_center` is the position in the parent's frame, `center` the world
/// position that the parent resolved.
#[derive(Debug)]
pub struct Circle {
    pub local_center: Pos2,
    pub center: Pos2,
    pub radius: i64,
    pub orientation: Orientation,
    pub color: crossterm::style::Color,
    pub z_index: i32,
    pub triangles: Vec<Triangle>,
}

/// The pixels of the first `n` triangles of `s`, in order.
pub open spec fn triangles_pixels(s: Seq<Triangle>, n: int, width: u16, height: u16) -> Seq<Pixel>
    decreases n,
{
    if n <= 0 || n > s.len() {
        Seq::empty()
    } else {
        triangles_pixels(s, n - 1, width, height) + s[n - 1].pixels(width, height)
    }
}

proof fn lemma_triangles_pixels_prefix(a: Seq<Triangle>, b: Seq<Triangle>, n: int, width: u16, height: u16)
    requires
        0 <= n <= a.len(),
        n <= b.len(),
        forall|i: int| 0 <= i < n ==> a[i] == b[i],
    ensures
        triangles_pixels(a, n, width, height) == triangles_pixels(b, n, width, height),
    decreases n,
{
    if n > 0 {
        lemma_triangles_pixels_prefix(a, b, n - 1, width, height);
    }
}

/// Appends the pixels of every triangle of `ts`, in order.
pub fn rasterize_triangles(ts: &Vec<Triangle>, out: &mut Vec<Pixel>, width: u16, height: u16)
    requires
        forall|i: int| 0 <= i < ts@.len() ==> #[trigger] ts@[i].wf(),
    ensures
        final(out)@ == old(out)@ + triangles_pixels(ts@, ts@.len() as int, width, height),
{
    let mut i: usize = 0;
    while i < ts.len()
        invariant
            0 <= i <= ts@.len(),
            forall|k: int| 0 <= k < ts@.len() ==> #[trigger] ts@[k].wf(),
            out@ == old(out)@ + triangles_pixels(ts@, i as int, width, height),
        decreases ts@.len() - i,
    {
        ts[i].render(out, width, height);
        i = i + 1;
        proof {
            assert(out@ =~= old(out)@ + triangles_pixels(ts@, i as int, width, height));
        }
    }
}

proof fn lemma_twin_triangles_pixels(a: Seq<Triangle>, b: Seq<Triangle>, n: int, width: u16, height: u16)
    requires
        a.len() == b.len(),
        0 <= n <= a.len(),
        forall|i: int| 0 <= i < a.len() ==> (#[trigger] a[i]).same_as(b[i]),
    ensures
        triangles_pixels(a, n, width, height) == triangles_pixels(b, n, width, height),
    decreases n,
{
    if n > 0 {
        lemma_twin_triangles_pixels(a, b, n - 1, width, height);
        assert(a[n - 1].same_as(b[n - 1]));
    }
}

impl Clone for Circle {
    /// A deep copy: every sector is copied with its corners and edges.
    fn clone(&self) -> (r: Circle)
        ensures
            r.same_as(*self),
    {
        let mut triangles: Vec<Triangle> = Vec::new();
        let mut i: usize = 0;
        while i < self.triangles.len()
            invariant
                0 <= i <= self.triangles@.len(),
                triangles@.len() == i,
                forall|k: int| 0 <= k < i ==> (#[trigger] triangles@[k]).same_as(self.triangles@[k]),
            decreases self.triangles@.len() - i,
        {
            triangles.push(self.triangles[i].clone());
            i = i + 1;
        }
        Circle {
            local_center: self.local_center,
            center: self.center,
            radius: self.radius,
            orientation: self.orientation,
            color: self.color,
            z_index: self.z_index,
            triangles,
        }
    }
}

impl Circle {
    /// `self` is `o` updated at the world position `pos`: the same circle,
    /// its sectors in stable z order, each moved to `pos` with its corners and
    /// edges recomputed.
    pub open spec fn updated_from(self, o: Circle, pos: Pos2) -> bool {
        &&& self.local_center == o.local_center
        &&& self.center == pos
        &&& self.radius == o.radius
        &&& self.orientation == o.orientation
        &&& self.color == o.color
        &&& self.z_index == o.z_index
        &&& self.triangles@.len() == o.triangles@.len()
        &&& forall|i: int| 0 <= i < self.triangles@.len() ==> {
            let t = #[trigger] self.triangles@[i];
            let u = sort_stable(o.triangles@)[i];
            &&& t.base_vertices == u.base_vertices
            &&& t.orientation == u.orientation
            &&& t.z_index == u.z_index
            &&& t.color == u.color
            &&& t.local_center == u.local_center
            &&& t.center == pos
            &&& t.vertices == (Triangle { center: pos, ..u }).geometry()
            &&& t.lines@ == edges_of(t.vertices, t.color)
        }
    }

    /// `self` is `o` drawn: every sector drawn (see `Triangle::drawn_from`),
    /// nothing else changed.
    pub open spec fn drawn_from(self, o: Circle) -> bool {
        &&& self.local_center == o.local_center
        &&& self.center == o.center
        &&& self.radius == o.radius
        &&& self.orientation == o.orientation
        &&& self.color == o.color
        &&& self.z_index == o.z_index
        &&& self.triangles@.len() == o.triangles@.len()
        &&& forall|i: int| 0 <= i < self.triangles@.len() ==> (#[trigger] self.triangles@[i]).drawn_from(o.triangles@[i])
    }

    /// Equal in every field, the sectors compared one by one.
    pub open spec fn same_as(self, o: Circle) -> bool {
        &&& self.local_center == o.local_center
        &&& self.center == o.center
        &&& self.radius == o.radius
        &&& self.orientation == o.orientation
        &&& self.color == o.color
        &&& self.z_index == o.z_index
        &&& self.triangles@.len() == o.triangles@.len()
        &&& forall|i: int| 0 <= i < self.triangles@.len() ==> (#[trigger] self.triangles@[i]).same_as(o.triangles@[i])
    }

    /// Copies agree on well-formedness and on every pixel.
    pub proof fn lemma_same_as(self, o: Circle, width: u16, height: u16)
        requires
            self.same_as(o),
        ensures
            self.wf() == o.wf(),
            self.pixels(width, height) == o.pixels(width, height),
    {
        lemma_twin_triangles_pixels(self.triangles@, o.triangles@, self.triangles@.len() as int, width, height);
        if o.wf() {
            assert forall|i: int| 0 <= i < self.triangles@.len() implies #[trigger] self.triangles@[i].wf() by {
                assert(o.triangles@[i].wf());
            }
        }
        if self.wf() {
            assert forall|i: int| 0 <= i < o.triangles@.len() implies #[trigger] o.triangles@[i].wf() by {
                assert(self.triangles@[i].same_as(o.triangles@[i]));
                assert(self.triangles@[i].wf());
            }
        }
    }

    /// The sectors' pixels, in paint order.
    pub open spec fn pixels(self, width: u16, height: u16) -> Seq<Pixel> {
        triangles_pixels(self.triangles@, self.triangles@.len() as int, width, height)
    }

    /// Appends the pixels of every sector, in order.
    pub fn rasterize(&self, out: &mut Vec<Pixel>, width: u16, height: u16)
        requires
            self.wf(),
        ensures
            final(out)@ == old(out)@ + self.pixels(width, height),
    {
        rasterize_triangles(&self.triangles, out, width, height);
    }

    /// Draws every sector in order, each with its edges put in paint order first.
    pub fn draw(&mut self, out: &mut Vec<Pixel>, width: u16, height: u16)
        requires
            old(self).wf(),
        ensures
            final(self).drawn_from(*old(self)),
            final(self).wf(),
            final(self).local_center == old(self).local_center,
            final(self).center == old(self).center,
            final(self).radius == old(self).radius,
            final(self).orientation == old(self).orientation,
            final(self).color == old(self).color,
            final(self).z_index == old(self).z_index,
            final(self).triangles@.len() == old(self).triangles@.len(),
            forall|i: int| 0 <= i < final(self).triangles@.len() ==> {
                let t = #[trigger] final(self).triangles@[i];
                let o = old(self).triangles@[i];
                &&& t.lines@ == sort_stable(o.lines@)
                &&& t.base_vertices == o.base_vertices
                &&& t.vertices == o.vertices
                &&& t.orientation == o.orientation
                &&& t.local_center == o.local_center
                &&& t.center == o.center
                &&& t.z_index == o.z_index
                &&& t.color == o.color
            },
            final(out)@ == old(out)@ + final(self).pixels(width, height),
    {
        let n = self.triangles.len();
        let mut i: usize = 0;
        while i < n
            invariant
                n == self.triangles@.len() == old(self).triangles@.len(),
                0 <= i <= n,
                self.local_center == old(self).local_center,
                self.center == old(self).center,
                self.radius == old(self).radius,
                self.orientation == old(self).orientation,
                self.color == old(self).color,
                self.z_index == old(self).z_index,
                forall|k: int| i <= k < n ==> self.triangles@[k] == old(self).triangles@[k],
                forall|k: int| 0 <= k < n ==> (#[trigger] old(self).triangles@[k]).wf(),
                forall|k: int| 0 <= k < i ==> {
                    let t = #[trigger] self.triangles@[k];
                    let o = old(self).triangles@[k];
                    &&& t.wf()
                    &&& t.lines@ == sort_stable(o.lines@)
                    &&& t.base_vertices == o.base_vertices
                    &&& t.vertices == o.vertices
                    &&& t.orientation == o.orientation
                    &&& t.local_center == o.local_center
                    &&& t.center == o.center
                    &&& t.z_index == o.z_index
                    &&& t.color == o.color
                },
                out@ == old(out)@ + triangles_pixels(self.triangles@, i as int, width, height),
            decreases n - i,
        {
            let ghost before = self.triangles@;
            self.triangles[i].draw(out, width, height);
            proof {
                lemma_triangles_pixels_prefix(self.triangles@, before, i as int, width, height);
            }
            i = i + 1;
            proof {
                assert(out@ =~= old(out)@ + triangles_pixels(self.triangles@, i as int, width, height));
            }
        }
    }

    /// Whether `p` lies within `radius` of the world center, border included.
    pub fn collides_with_point(&self, p: Vec2<i64>) -> (r: bool)
        requires
            self.wf(),
            on_grid(p),
        ensures
            r == ({
                let c = self.center.coords();
                (p.x - c.x) * (p.x - c.x) + (p.y - c.y) * (p.y - c.y) <= self.radius * self.radius
            }),
    {
        let c = self.center.vec();
        let dx = p.x - c.x;
        let dy = p.y - c.y;
        assert(0 <= dx * dx <= 1_000_000_000_000_000_000) by (nonlinear_arith)
            requires -1_000_000_000 <= dx <= 1_000_000_000;
        assert(0 <= dy * dy <= 1_000_000_000_000_000_000) by (nonlinear_arith)
            requires -1_000_000_000 <= dy <= 1_000_000_000;
        assert(0 <= self.radius * self.radius <= PLACE_LIMIT * PLACE_LIMIT) by (nonlinear_arith)
            requires 0 <= self.radius <= PLACE_LIMIT;
        dx * dx + dy * dy <= self.radius * self.radius
    }

    /// Moves every sector to the world center and recomputes its corners,
    /// after putting the sectors in z order (stable).
    pub fn update(&mut self)
        requires
            old(self).wf(),
        ensures
            final(self).wf(),
            final(self).updated_from(*old(self), old(self).center),
    {
        let mut ts: Vec<Triangle> = Vec::new();
        std::mem::swap(&mut ts, &mut self.triangles);
        let ghost orig = ts@;
        assert(orig == old(self).triangles@);
        let mut ts = sort_by_key_stable(ts);
        proof {
            crate::sort::lemma_sort_keeps_all(orig);
            assert forall|k: int| 0 <= k < ts@.len() implies #[trigger] ts@[k].wf() by {
                assert(sort_stable(orig).contains(ts@[k]));
                assert(orig.contains(ts@[k]));
                let j = choose|j: int| 0 <= j < orig.len() && orig[j] == ts@[k];
                assert(orig[j].wf());
            }
        }
        let ghost sorted = ts@;
        let center = self.center;
        let n = ts.len();
        let mut i: usize = 0;
        while i < n
            invariant
                n == ts@.len() == sorted.len(),
                0 <= i <= n,
                sorted == sort_stable(orig),
                placeable(center.coords()),
                forall|k: int| i <= k < n ==> ts@[k] == sorted[k],
                forall|k: int| 0 <= k < n ==> #[trigger] sorted[k].wf(),
                forall|k: int| 0 <= k < i ==> {
                    let t = #[trigger] ts@[k];
                    let o = sorted[k];
                    &&& t.wf()
                    &&& t.base_vertices == o.base_vertices
                    &&& t.orientation == o.orientation
                    &&& t.z_index == o.z_index
                    &&& t.color == o.color
                    &&& t.local_center == o.local_center
                    &&& t.center == center
                    &&& t.vertices == (Triangle { center: center, ..o }).geometry()
                    &&& t.lines@ == edges_of(t.vertices, t.color)
                },
            decreases n - i,
        {
            ts[i].set_parent_pos(center);
            ts[i].update();
            i = i + 1;
        }
        self.triangles = ts;
    }

    pub open spec fn wf(self) -> bool {
        &&& placeable(self.local_center.coords())
        &&& placeable(self.center.coords())
        &&& 0 <= self.radius <= PLACE_LIMIT
        &&& forall|i: int| 0 <= i < self.triangles@.len() ==> #[trigger] self.triangles@[i].wf()
    }

    pub fn z_index(&self) -> (r: i32)
        ensures
            r == self.z_index,
    {
        self.z_index
    }

    pub fn pos(&self) -> (r: Pos2)
        ensures
            r == self.local_center,
    {
        self.local_center
    }

    /// Records the world position that a parent resolved.
    pub fn set_parent_pos(&mut self, pos: Pos2)
        requires
            old(self).wf(),
            placeable(pos.coords()),
        ensures
            *final(self) == (Circle { center: pos, ..*old(self) }),
            final(self).wf(),
    {
        self.center = pos;
    }

    /// A circle around `center` of `n_sectors` congruent wedges. Wedge `i`
    /// faces `sector_angle(i, n_sectors)` and has size `(radius, wedge_base(radius, n_sectors))`.
    pub fn new(center: Pos2, radius: i64, n_sectors: usize, color: crossterm::style::Color) -> (r: Circle)
        requires
            placeable(center.coords()),
            0 <= radius <= PLACE_LIMIT / 2,
            1 <= n_sectors <= MAX_SECTORS,
        ensures
            r.wf(),
            r.local_center == center,
            r.center == center,
            r.radius == radius,
            r.orientation == Orientation::Custom(0),
            r.color == color,
            r.z_index == 0,
            r.triangles@.len() == n_sectors,
            forall|i: int| 0 <= i < n_sectors ==> {
                let t = #[trigger] r.triangles@[i];
                &&& t.orientation == Orientation::Custom(sector_angle(i, n_sectors as int) as i64)
                &&& t.base_vertices == base_of(Vec2 { x: radius, y: wedge_base(radius as int, n_sectors as int) as i64 })
                &&& t.vertices == t.base_vertices
                &&& t.lines@ == base_edges(Vec2 { x: radius, y: wedge_base(radius as int, n_sectors as int) as i64 }, color)
                &&& t.local_center == center
                &&& t.center == center
                &&& t.z_index == 0
                &&& t.color == color
            },
    {
        let n = n_sectors as i64;
        let step = FULL_TURN / n;
        let s = sine(step / 2);
        proof {
            crate::trig::lemma_sine_upper_half((step / 2) as int);
        }
        assert(2 * radius * s <= PLACE_LIMIT * UNIT) by (nonlinear_arith)
            requires 0 <= radius <= PLACE_LIMIT / 2, 0 <= s <= UNIT;
        assert(0 <= 2 * radius * s) by (nonlinear_arith)
            requires 0 <= radius, 0 <= s;
        let base_length = 2 * radius * s / UNIT;
        assert(base_length <= PLACE_LIMIT);
        let size = Vec2 { x: radius, y: base_length };
        let mut triangles: Vec<Triangle> = Vec::new();
        let mut i: usize = 0;
        while i < n_sectors
            invariant
                0 <= i <= n_sectors,
                n == n_sectors,
                1 <= n_sectors <= MAX_SECTORS,
                placeable(center.coords()),
                placeable(size),
                size == (Vec2 { x: radius, y: wedge_base(radius as int, n_sectors as int) as i64 }),
                triangles@.len() == i,
                forall|k: int| 0 <= k < i ==> {
                    let t = #[trigger] triangles@[k];
                    &&& t.wf()
                    &&& t.orientation == Orientation::Custom(sector_angle(k, n_sectors as int) as i64)
                    &&& t.base_vertices == base_of(size)
                    &&& t.vertices == t.base_vertices
                    &&& t.lines@ == base_edges(size, color)
                    &&& t.local_center == center
                    &&& t.center == center
                    &&& t.z_index == 0
                    &&& t.color == color
                },
            decreases n_sectors - i,
        {
            let theta = (i as i64) * FULL_TURN / n;
            let t = Triangle::new(center, Orientation::Custom(theta), size, color);
            triangles.push(t);
            i = i + 1;
        }
        Circle {
            local_center: center,
            center,
            radius,
            orientation: Orientation::Custom(0),
            color,
            z_index: 0,
            triangles,
        }
    }
}

} // verus!
