//! The shape tree: every kind of shape behind one type, parent-to-child
//! placement, and paint order by z-index.
use vstd::prelude::*;
use crate::circle::Circle;
use crate::geometry::{placeable, within, LINE_LIMIT};
use crate::line::Line;
use crate::pixel::Pixel;
use crate::pos2::Pos2;
use crate::rectangle::Rectangle;
use crate::rectangle::half_geometry;
use crate::sort::Keyed;
use vstd::std_specs::ops::{AddSpec, SubSpec};
use crate::orientation::Orientation;
use crate::triangle::{edges_of, Triangle};
use crate::sort::sort_stable;
use crate::vec2::{fits, Vec2};

verus! {

/// Where a child whose logical position is `local` is placed under a parent
/// resolved at `parent`: the sum of the two, tagged as `Pos2` addition tags it.
pub open spec fn resolve(parent: Pos2, local: Pos2) -> Pos2 {
    parent.add_spec(local)
}

/// Computes `resolve(parent, local)`.
pub fn resolve_pos(parent: Pos2, local: Pos2) -> (r: Pos2)
    requires
        within(parent.coords(), LINE_LIMIT as int),
        within(local.coords(), LINE_LIMIT as int),
    ensures
        r == resolve(parent, local),
{
    parent + local
}

/// The first `n` shapes of `s`, placed under a parent resolved at `at`, fit
/// the coordinate limits all the way down.
pub open spec fn all_fit(at: Pos2, s: Seq<Shape>, n: int) -> bool
    decreases s, n,
{
    if n <= 0 || n > s.len() {
        true
    } else {
        all_fit(at, s, n - 1) && s[n - 1].fits_at(resolve(at, s[n - 1].local()))
    }
}

pub proof fn lemma_all_fit(at: Pos2, s: Seq<Shape>, n: int)
    requires
        0 <= n <= s.len(),
    ensures
        all_fit(at, s, n) <==> forall|i: int| 0 <= i < n ==> #[trigger] s[i].fits_at(resolve(at, s[i].local())),
    decreases n,
{
    if n > 0 {
        lemma_all_fit(at, s, n - 1);
        assert(all_fit(at, s, n) == (all_fit(at, s, n - 1) && s[n - 1].fits_at(resolve(at, s[n - 1].local()))));
        if all_fit(at, s, n) {
            assert forall|i: int| 0 <= i < n implies #[trigger] s[i].fits_at(resolve(at, s[i].local())) by {
                if i < n - 1 {
                }
            }
        }
    }
}

/// Any drawable shape. A rectangle owns child shapes, so shapes form a tree.
#[derive(Debug)]
pub enum Shape {
    Line(Line),
    Triangle(Triangle),
    Rectangle(Rectangle),
    Circle(Circle),
}

/// The first `n` shapes of `s` are well formed.
pub open spec fn all_wf(s: Seq<Shape>, n: int) -> bool
    decreases s, n,
{
    if n <= 0 || n > s.len() {
        true
    } else {
        all_wf(s, n - 1) && s[n - 1].wf()
    }
}

/// The first `n` shapes of `s` sit where a parent resolved at `parent` places them.
pub open spec fn all_placed(parent: Pos2, s: Seq<Shape>, n: int) -> bool
    decreases s, n,
{
    if n <= 0 || n > s.len() {
        true
    } else {
        all_placed(parent, s, n - 1) && s[n - 1].anchor() == resolve(parent, s[n - 1].local())
            && s[n - 1].placed()
    }
}

pub proof fn lemma_all_wf(s: Seq<Shape>, n: int)
    requires
        0 <= n <= s.len(),
    ensures
        all_wf(s, n) <==> forall|i: int| 0 <= i < n ==> #[trigger] s[i].wf(),
    decreases n,
{
    if n > 0 {
        lemma_all_wf(s, n - 1);
        assert(all_wf(s, n) == (all_wf(s, n - 1) && s[n - 1].wf()));
        if all_wf(s, n) {
            assert forall|i: int| 0 <= i < n implies #[trigger] s[i].wf() by {
                if i < n - 1 {
                }
            }
        }
    }
}

pub proof fn lemma_all_placed(parent: Pos2, s: Seq<Shape>, n: int)
    requires
        0 <= n <= s.len(),
    ensures
        all_placed(parent, s, n) <==> forall|i: int| 0 <= i < n ==> {
            &&& (#[trigger] s[i]).anchor() == resolve(parent, s[i].local())
            &&& s[i].placed()
        },
    decreases n,
{
    if n > 0 {
        lemma_all_placed(parent, s, n - 1);
    }
}

/// The first `n` shapes of `s` are those of `t` re-anchored under a parent
/// at `at` (see `Shape::reanchored`).
pub open spec fn all_reanchored(s: Seq<Shape>, t: Seq<Shape>, at: Pos2, n: int) -> bool
    decreases s, n,
{
    if n <= 0 || n > s.len() || n > t.len() {
        true
    } else {
        all_reanchored(s, t, at, n - 1) && s[n - 1].reanchored(t[n - 1], resolve(at, t[n - 1].local()))
    }
}

pub proof fn lemma_all_reanchored(s: Seq<Shape>, t: Seq<Shape>, at: Pos2, n: int)
    requires
        0 <= n <= s.len(),
        n <= t.len(),
    ensures
        all_reanchored(s, t, at, n) <==> forall|i: int| 0 <= i < n ==> #[trigger] s[i].reanchored(t[i], resolve(at, t[i].local())),
    decreases n,
{
    if n > 0 {
        lemma_all_reanchored(s, t, at, n - 1);
        assert(all_reanchored(s, t, at, n) == (all_reanchored(s, t, at, n - 1) && s[n - 1].reanchored(t[n - 1], resolve(at, t[n - 1].local()))));
        if all_reanchored(s, t, at, n) {
            assert forall|i: int| 0 <= i < n implies #[trigger] s[i].reanchored(t[i], resolve(at, t[i].local())) by {
                if i < n - 1 {
                }
            }
        }
    }
}

/// The first `n` shapes of `s` are those of `t` updated under a parent at
/// `at` (see `Shape::updated_from`).
pub open spec fn all_updated(s: Seq<Shape>, t: Seq<Shape>, at: Pos2, n: int) -> bool
    decreases s, n,
{
    if n <= 0 || n > s.len() || n > t.len() {
        true
    } else {
        all_updated(s, t, at, n - 1) && s[n - 1].updated_from(t[n - 1], resolve(at, t[n - 1].local()))
    }
}

pub proof fn lemma_all_updated(s: Seq<Shape>, t: Seq<Shape>, at: Pos2, n: int)
    requires
        0 <= n <= s.len(),
        n <= t.len(),
    ensures
        all_updated(s, t, at, n) <==> forall|i: int| 0 <= i < n ==> #[trigger] s[i].updated_from(t[i], resolve(at, t[i].local())),
    decreases n,
{
    if n > 0 {
        lemma_all_updated(s, t, at, n - 1);
        assert(all_updated(s, t, at, n) == (all_updated(s, t, at, n - 1) && s[n - 1].updated_from(t[n - 1], resolve(at, t[n - 1].local()))));
        if all_updated(s, t, at, n) {
            assert forall|i: int| 0 <= i < n implies #[trigger] s[i].updated_from(t[i], resolve(at, t[i].local())) by {
                if i < n - 1 {
                }
            }
        }
    }
}

/// The first `n` shapes of `s` are those of `t` drawn under a parent at
/// `at` (see `Shape::drawn_from`).
pub open spec fn all_drawn(s: Seq<Shape>, t: Seq<Shape>, at: Pos2, n: int) -> bool
    decreases s, n,
{
    if n <= 0 || n > s.len() || n > t.len() {
        true
    } else {
        all_drawn(s, t, at, n - 1) && s[n - 1].drawn_from(t[n - 1], resolve(at, t[n - 1].local()))
    }
}

pub proof fn lemma_all_drawn(s: Seq<Shape>, t: Seq<Shape>, at: Pos2, n: int)
    requires
        0 <= n <= s.len(),
        n <= t.len(),
    ensures
        all_drawn(s, t, at, n) <==> forall|i: int| 0 <= i < n ==> #[trigger] s[i].drawn_from(t[i], resolve(at, t[i].local())),
    decreases n,
{
    if n > 0 {
        lemma_all_drawn(s, t, at, n - 1);
        assert(all_drawn(s, t, at, n) == (all_drawn(s, t, at, n - 1) && s[n - 1].drawn_from(t[n - 1], resolve(at, t[n - 1].local()))));
        if all_drawn(s, t, at, n) {
            assert forall|i: int| 0 <= i < n implies #[trigger] s[i].drawn_from(t[i], resolve(at, t[i].local())) by {
                if i < n - 1 {
                }
            }
        }
    }
}

/// The first `n` shapes of `s` are twins of those of `t` (see `Shape::twin`).
pub open spec fn all_twin(s: Seq<Shape>, t: Seq<Shape>, n: int) -> bool
    decreases s, n,
{
    if n <= 0 || n > s.len() || n > t.len() {
        true
    } else {
        all_twin(s, t, n - 1) && s[n - 1].twin(t[n - 1])
    }
}

pub proof fn lemma_all_twin(s: Seq<Shape>, t: Seq<Shape>, n: int)
    requires
        0 <= n <= s.len(),
        n <= t.len(),
    ensures
        all_twin(s, t, n) <==> forall|i: int| 0 <= i < n ==> #[trigger] s[i].twin(t[i]),
    decreases n,
{
    if n > 0 {
        lemma_all_twin(s, t, n - 1);
        assert(all_twin(s, t, n) == (all_twin(s, t, n - 1) && s[n - 1].twin(t[n - 1])));
        if all_twin(s, t, n) {
            assert forall|i: int| 0 <= i < n implies #[trigger] s[i].twin(t[i]) by {
                if i < n - 1 {
                }
            }
        }
    }
}

impl Keyed for Shape {
    /// Shapes are painted by z-index, lowest first.
    open spec fn key(&self) -> int {
        self.z() as int
    }

    fn sort_key(&self) -> (r: i128) {
        self.z_index() as i128
    }
}

/// The pixels of the first `n` shapes of `s`, in order.
pub open spec fn list_pixels(s: Seq<Shape>, n: int, width: u16, height: u16) -> Seq<Pixel>
    decreases s, n,
{
    if n <= 0 || n > s.len() {
        Seq::empty()
    } else {
        list_pixels(s, n - 1, width, height) + s[n - 1].pixels(width, height)
    }
}

impl Shape {
    /// What `rasterize` appends: a rectangle's halves, then its children in order.
    pub open spec fn pixels(self, width: u16, height: u16) -> Seq<Pixel>
        decreases self, 0int,
    {
        match self {
            Shape::Line(l) => l.pixels(width, height),
            Shape::Triangle(t) => t.pixels(width, height),
            Shape::Circle(c) => c.pixels(width, height),
            Shape::Rectangle(r) => r.triangles@[0].pixels(width, height) + r.triangles@[1].pixels(width, height)
                + list_pixels(r.children@, r.children@.len() as int, width, height),
        }
    }

    /// Every shape in the tree is well formed.
    pub open spec fn wf(self) -> bool
        decreases self, 0int,
    {
        match self {
            Shape::Line(l) => l.wf(),
            Shape::Triangle(t) => t.wf(),
            Shape::Circle(c) => c.wf(),
            Shape::Rectangle(r) => r.own_wf() && all_wf(r.children@, r.children@.len() as int),
        }
    }

    /// Placed at `at`, the shape and every shape under it stay within the
    /// coordinate limits: `LINE_LIMIT` for a line, `PLACE_LIMIT` for the others.
    pub open spec fn fits_at(self, at: Pos2) -> bool
        decreases self, 0int,
    {
        match self {
            Shape::Line(_) => within(at.coords(), LINE_LIMIT as int),
            Shape::Triangle(_) => placeable(at.coords()),
            Shape::Circle(_) => placeable(at.coords()),
            Shape::Rectangle(r) => placeable(at.coords()) && all_fit(at, r.children@, r.children@.len() as int),
        }
    }

    /// The same kind of shape as `o`, with the same own fields; the world
    /// position and derived geometry may differ, and a composite has as many
    /// parts.
    pub open spec fn keeps(self, o: Shape) -> bool {
        match (self, o) {
            (Shape::Line(a), Shape::Line(b)) => a.pos1 == b.pos1 && a.pos2 == b.pos2 && a.color == b.color
                && a.z_index == b.z_index,
            (Shape::Triangle(a), Shape::Triangle(b)) => a.base_vertices == b.base_vertices
                && a.orientation == b.orientation && a.local_center == b.local_center && a.z_index
                == b.z_index && a.color == b.color,
            (Shape::Circle(a), Shape::Circle(b)) => a.local_center == b.local_center && a.radius
                == b.radius && a.orientation == b.orientation && a.color == b.color && a.z_index
                == b.z_index && a.triangles@.len() == b.triangles@.len(),
            (Shape::Rectangle(a), Shape::Rectangle(b)) => a.local_pos == b.local_pos && a.size == b.size
                && a.orientation == b.orientation && a.color == b.color && a.z_index == b.z_index
                && a.children@.len() == b.children@.len(),
            _ => false,
        }
    }

    /// The logical position, in the parent's frame.
    pub open spec fn local(self) -> Pos2 {
        match self {
            Shape::Line(l) => l.local(),
            Shape::Triangle(t) => t.local_center,
            Shape::Circle(c) => c.local_center,
            Shape::Rectangle(r) => r.local_pos,
        }
    }

    /// The world position last resolved by a parent.
    pub open spec fn anchor(self) -> Pos2 {
        match self {
            Shape::Line(l) => l.center,
            Shape::Triangle(t) => t.center,
            Shape::Circle(c) => c.center,
            Shape::Rectangle(r) => r.pos,
        }
    }

    pub open spec fn z(self) -> i32 {
        match self {
            Shape::Line(l) => l.z_index,
            Shape::Triangle(t) => t.z_index,
            Shape::Circle(c) => c.z_index,
            Shape::Rectangle(r) => r.z_index,
        }
    }

    /// Every child in the tree sits where its parent resolves it.
    pub open spec fn placed(self) -> bool
        decreases self, 0int,
    {
        match self {
            Shape::Rectangle(r) => all_placed(r.pos, r.children@, r.children@.len() as int),
            _ => true,
        }
    }

    /// Recomputes the geometry of the shape and of every shape under it,
    /// at its current world position.
    pub fn update(&mut self)
        requires
            old(self).wf(),
            old(self).fits_at(old(self).anchor()),
        ensures
            final(self).wf(),
            final(self).fits_at(old(self).anchor()),
            final(self).updated_from(*old(self), old(self).anchor()),
            final(self).keeps(*old(self)),
            final(self).placed(),
            final(self).anchor() == old(self).anchor(),
            final(self).local() == old(self).local(),
            final(self).z() == old(self).z(),
            *old(self) is Triangle ==> *final(self) is Triangle && (*final(self))->Triangle_0.vertices == (*old(self))->Triangle_0.geometry(),
            *old(self) is Circle ==> *final(self) is Circle && (*final(self))->Circle_0.updated_from((*old(self))->Circle_0, (*old(self))->Circle_0.center),
            *old(self) is Rectangle ==> *final(self) is Rectangle && {
                let r0 = (*old(self))->Rectangle_0;
                let r1 = (*final(self))->Rectangle_0;
                &&& r1.triangles@[0].vertices == half_geometry(r0.pos, r0.orientation, r0.size)
                &&& r1.triangles@[1].vertices == half_geometry(r0.pos, r0.orientation.opposite_spec(), r0.size)
            },
    {
        let a = self.anchor_pos();
        self.update_at(a);
    }

    /// Draws the shape at its current world position (see `draw_at`).
    pub fn draw(&mut self, out: &mut Vec<Pixel>, width: u16, height: u16)
        requires
            old(self).wf(),
            old(self).fits_at(old(self).anchor()),
        ensures
            final(self).wf(),
            final(self).fits_at(old(self).anchor()),
            final(self).drawn_from(*old(self), old(self).anchor()),
            final(self).keeps(*old(self)),
            final(self).placed(),
            final(self).anchor() == old(self).anchor(),
            final(self).local() == old(self).local(),
            final(self).z() == old(self).z(),
            final(out)@ == old(out)@ + final(self).pixels(width, height),
    {
        let a = self.anchor_pos();
        self.draw_at(a, out, width, height);
    }

    /// Takes `pos` as the world position and appends the shape's pixels to
    /// `out` with the geometry it has: a rectangle draws its halves, puts its
    /// children in z order (stable), then places and draws each child in turn.
    pub fn draw_at(&mut self, pos: Pos2, out: &mut Vec<Pixel>, width: u16, height: u16)
        requires
            old(self).wf(),
            old(self).fits_at(pos),
        ensures
            final(self).wf(),
            final(self).fits_at(pos),
            final(self).drawn_from(*old(self), pos),
            final(self).keeps(*old(self)),
            final(self).placed(),
            final(self).anchor() == pos,
            final(self).local() == old(self).local(),
            final(self).z() == old(self).z(),
            final(out)@ == old(out)@ + final(self).pixels(width, height),
        decreases *old(self),
    {
        match self {
            Shape::Line(l) => {
                l.center = pos;
                l.rasterize(out, width, height);
            },
            Shape::Triangle(t) => {
                t.center = pos;
                t.draw(out, width, height);
            },
            Shape::Circle(c) => {
                c.center = pos;
                c.draw(out, width, height);
            },
            Shape::Rectangle(r) => {
                proof {
                    assert(decreases_to!(*old(self) => (*old(self))->Rectangle_0));
                }
                r.draw_at(pos, out, width, height);
                proof {
                    lemma_all_placed(pos, r.children@, r.children@.len() as int);
                }
            },
        }
    }

    /// The world position last resolved by a parent.
    pub fn anchor_pos(&self) -> (r: Pos2)
        requires
            self.wf(),
        ensures
            r == self.anchor(),
            placeable(r.coords()) || (*self is Line && within(r.coords(), LINE_LIMIT as int)),
    {
        match self {
            Shape::Line(l) => l.center,
            Shape::Triangle(t) => t.center,
            Shape::Circle(c) => c.center,
            Shape::Rectangle(r) => r.pos,
        }
    }

    /// Takes `pos` as the world position, then recomputes the geometry of the
    /// shape and of every shape under it.
    pub fn update_at(&mut self, pos: Pos2)
        requires
            old(self).wf(),
            old(self).fits_at(pos),
        ensures
            final(self).wf(),
            final(self).fits_at(pos),
            final(self).updated_from(*old(self), pos),
            final(self).keeps(*old(self)),
            final(self).placed(),
            final(self).anchor() == pos,
            final(self).local() == old(self).local(),
            final(self).z() == old(self).z(),
            *old(self) is Triangle ==> *final(self) is Triangle && (*final(self))->Triangle_0.vertices == (Triangle { center: pos, ..(*old(self))->Triangle_0 }).geometry(),
            *old(self) is Circle ==> *final(self) is Circle && (*final(self))->Circle_0.updated_from((*old(self))->Circle_0, pos),
            *old(self) is Rectangle ==> *final(self) is Rectangle && {
                let r0 = (*old(self))->Rectangle_0;
                let r1 = (*final(self))->Rectangle_0;
                &&& r1.triangles@[0].vertices == half_geometry(pos, r0.orientation, r0.size)
                &&& r1.triangles@[1].vertices == half_geometry(pos, r0.orientation.opposite_spec(), r0.size)
            },
        decreases *old(self),
    {
        match self {
            Shape::Line(l) => {
                l.center = pos;
            },
            Shape::Triangle(t) => {
                t.center = pos;
                t.update();
            },
            Shape::Circle(c) => {
                c.center = pos;
                c.update();
            },
            Shape::Rectangle(r) => {
                proof {
                    assert(decreases_to!(*old(self) => (*old(self))->Rectangle_0));
                }
                r.update_at(pos);
                proof {
                    lemma_all_placed(pos, r.children@, r.children@.len() as int);
                }
            },
        }
    }

    /// Appends the shape's pixels to `out`: a triangle's fill then its edges,
    /// a circle's sectors in order, a rectangle's two halves then its
    /// children in their current order.
    pub fn rasterize(&self, out: &mut Vec<Pixel>, width: u16, height: u16)
        requires
            self.wf(),
        ensures
            final(out)@ == old(out)@ + self.pixels(width, height),
        decreases self,
    {
        match self {
            Shape::Line(l) => l.rasterize(out, width, height),
            Shape::Triangle(t) => t.render(out, width, height),
            Shape::Circle(c) => c.rasterize(out, width, height),
            Shape::Rectangle(r) => {
                r.triangles[0].render(out, width, height);
                r.triangles[1].render(out, width, height);
                let ghost mid = out@;
                let n = r.children.len();
                proof {
                    lemma_all_wf(r.children@, n as int);
                }
                let mut i: usize = 0;
                while i < n
                    invariant
                        *self == Shape::Rectangle(*r),
                        n == r.children@.len(),
                        0 <= i <= n,
                        forall|k: int| 0 <= k < n ==> #[trigger] r.children@[k].wf(),
                        out@ == mid + list_pixels(r.children@, i as int, width, height),
                    decreases n - i,
                {
                    proof {
                        vstd::std_specs::vec::axiom_vec_index_decreases(r.children, i as int);
                        assert(decreases_to!(*self => (*self)->Rectangle_0));
                        assert((*self)->Rectangle_0 == *r);
                        assert(decreases_to!(*r => r.children));
                    }
                    r.children[i].rasterize(out, width, height);
                    i = i + 1;
                    proof {
                        assert(out@ =~= mid + list_pixels(r.children@, i as int, width, height));
                    }
                }
                proof {
                    assert(out@ =~= old(out)@ + self.pixels(width, height));
                }
            },
        }
    }

    /// Whether the logical position of `other` lies on this shape: inside a
    /// triangle's corners or either half of a rectangle, within a circle's
    /// radius, or in a line's bounding box.
    pub fn collides_with(&self, other: &Shape) -> (r: bool)
        requires
            self.wf(),
            other.wf(),
        ensures
            r == self.covers(other.local().coords()),
    {
        let p = other.pos().vec();
        match self {
            Shape::Line(l) => l.collides_with_point(p),
            Shape::Triangle(t) => t.collides_with_point(p),
            Shape::Circle(c) => c.collides_with_point(p),
            Shape::Rectangle(r) => r.collides_with_point(p),
        }
    }

    /// Whether the point `p` lies on this shape, as `collides_with` tests it.
    pub open spec fn covers(self, p: Vec2<i64>) -> bool {
        match self {
            Shape::Line(l) => {
                let a = l.pos1.coords();
                let b = l.pos2.coords();
                (a.x <= p.x <= b.x || b.x <= p.x <= a.x) && (a.y <= p.y <= b.y || b.y <= p.y <= a.y)
            },
            Shape::Triangle(t) => t.vertices.contains(p),
            Shape::Circle(c) => {
                let q = c.center.coords();
                (p.x - q.x) * (p.x - q.x) + (p.y - q.y) * (p.y - q.y) <= c.radius * c.radius
            },
            Shape::Rectangle(r) => half_geometry(r.pos, r.orientation, r.size).contains(p)
                || half_geometry(r.pos, r.orientation.opposite_spec(), r.size).contains(p),
        }
    }

    /// The shape's world position plus `local`: a child's offset taken into
    /// this shape's frame (translation only).
    pub fn local_to_parent(&self, local: Pos2) -> (r: Pos2)
        requires
            self.wf(),
            within(local.coords(), LINE_LIMIT as int),
        ensures
            r == local.add_spec(self.local()),
    {
        local + self.pos()
    }

    /// `world` less the shape's logical position: the inverse of `local_to_parent`.
    pub fn parent_to_local(&self, world: Pos2) -> (r: Pos2)
        requires
            self.wf(),
            within(world.coords(), LINE_LIMIT as int),
        ensures
            r == world.sub_spec(self.local()),
    {
        world - self.pos()
    }

    /// The facing of a triangle, rectangle or circle.
    pub open spec fn facing(self) -> Orientation
        recommends
            !(self is Line),
    {
        match self {
            Shape::Triangle(t) => t.orientation,
            Shape::Circle(c) => c.orientation,
            Shape::Rectangle(r) => r.orientation,
            Shape::Line(_) => Orientation::Up,
        }
    }

    /// This shape facing `o`, all else kept.
    pub open spec fn with_facing(self, o: Orientation) -> Shape {
        match self {
            Shape::Triangle(t) => Shape::Triangle(Triangle { orientation: o, ..t }),
            Shape::Circle(c) => Shape::Circle(Circle { orientation: o, ..c }),
            Shape::Rectangle(r) => Shape::Rectangle(Rectangle { orientation: o, ..r }),
            Shape::Line(l) => Shape::Line(l),
        }
    }

    /// The facing of a triangle, rectangle or circle. (A line's direction
    /// is that of its endpoints.)
    pub fn orientation(&self) -> (r: Orientation)
        requires
            !(*self is Line),
        ensures
            r == self.facing(),
    {
        match self {
            Shape::Triangle(t) => t.orientation,
            Shape::Circle(c) => c.orientation,
            Shape::Rectangle(r) => r.orientation,
            Shape::Line(_) => Orientation::Up,
        }
    }

    /// Faces `o`; the geometry follows at the next update.
    pub fn set_orientation(&mut self, o: Orientation)
        requires
            old(self).wf(),
            !(*old(self) is Line),
            o.in_range(),
        ensures
            *final(self) == old(self).with_facing(o),
            final(self).wf(),
    {
        match self {
            Shape::Triangle(t) => t.orientation = o,
            Shape::Circle(c) => c.orientation = o,
            Shape::Rectangle(r) => r.orientation = o,
            Shape::Line(_) => {},
        }
    }

    /// Faces the custom angle `angle` (millidegrees).
    pub fn rotate_to(&mut self, angle: i64)
        requires
            old(self).wf(),
            !(*old(self) is Line),
            Orientation::Custom(angle).in_range(),
        ensures
            *final(self) == old(self).with_facing(Orientation::Custom(angle)),
            final(self).wf(),
    {
        self.set_orientation(Orientation::Custom(angle));
    }

    /// Turns by `delta` millidegrees. A triangle, rectangle or circle faces
    /// the custom angle of its old facing plus `delta`; a line has both
    /// endpoints turned about its midpoint.
    pub fn rotate(&mut self, delta: i64)
        requires
            old(self).wf(),
            *old(self) is Line ==> (*old(self))->Line_0.turned(delta as int).wf(),
            !(*old(self) is Line) ==> Orientation::Custom((old(self).facing().angle() + delta) as i64).in_range(),
            !(*old(self) is Line) ==> fits(old(self).facing().angle() + delta),
        ensures
            !(*old(self) is Line) ==> *final(self) == old(self).with_facing(
                Orientation::Custom((old(self).facing().angle() + delta) as i64),
            ),
            *old(self) is Line ==> *final(self) == Shape::Line((*old(self))->Line_0.turned(delta as int)),
            final(self).wf(),
    {
        match self {
            Shape::Line(l) => {
                proof {
                    crate::line::lemma_line_diffs_bounded(*l);
                }
                l.rotate_about_mid(delta);
            },
            _ => {
                let last = self.orientation().to_angle();
                self.set_orientation(Orientation::Custom(last + delta));
            },
        }
    }

    /// `self` is `o` given the world position `pos` by `set_parent_pos`:
    /// nothing else of it changes, and each child of a rectangle is in turn
    /// re-anchored under `pos`, in the same order.
    pub open spec fn reanchored(self, o: Shape, pos: Pos2) -> bool
        decreases self, 0int,
    {
        match (self, o) {
            (Shape::Line(a), Shape::Line(b)) => a == Line { center: pos, ..b },
            (Shape::Triangle(a), Shape::Triangle(b)) => a.same_as(Triangle { center: pos, ..b }),
            (Shape::Circle(a), Shape::Circle(b)) => a.local_center == b.local_center && a.center == pos
                && a.radius == b.radius && a.orientation == b.orientation && a.color == b.color
                && a.z_index == b.z_index && a.triangles@ == b.triangles@,
            (Shape::Rectangle(a), Shape::Rectangle(b)) => a.own_fields_match(b) && a.pos == pos
                && a.triangles@ == b.triangles@ && a.children@.len() == b.children@.len()
                && all_reanchored(a.children@, b.children@, pos, a.children@.len() as int),
            _ => false,
        }
    }

    /// `self` is `o` updated at the world position `pos`: a line only moves;
    /// a triangle gets the corners of its orientation at `pos` and the
    /// matching edges; a circle is updated sector by sector; a rectangle
    /// rebuilds its halves at `pos` and has the stable z-sort of its old
    /// children, each updated under `pos`.
    pub open spec fn updated_from(self, o: Shape, pos: Pos2) -> bool
        decreases self, 0int,
    {
        match (self, o) {
            (Shape::Line(a), Shape::Line(b)) => a == Line { center: pos, ..b },
            (Shape::Triangle(a), Shape::Triangle(b)) => {
                let m = Triangle { center: pos, ..b };
                &&& a.base_vertices == b.base_vertices
                &&& a.orientation == b.orientation
                &&& a.local_center == b.local_center
                &&& a.center == pos
                &&& a.z_index == b.z_index
                &&& a.color == b.color
                &&& a.vertices == m.geometry()
                &&& a.lines@ == edges_of(a.vertices, a.color)
            },
            (Shape::Circle(a), Shape::Circle(b)) => a.updated_from(b, pos),
            (Shape::Rectangle(a), Shape::Rectangle(b)) => {
                &&& a.own_fields_match(b)
                &&& a.pos == pos
                &&& a.triangles@.len() == 2
                &&& a.triangles@[0].vertices == half_geometry(pos, b.orientation, b.size)
                &&& a.triangles@[1].vertices == half_geometry(pos, b.orientation.opposite_spec(), b.size)
                &&& a.triangles@[0].lines@ == edges_of(a.triangles@[0].vertices, b.color)
                &&& a.triangles@[1].lines@ == edges_of(a.triangles@[1].vertices, b.color)
                &&& a.children@.len() == b.children@.len()
                &&& all_updated(a.children@, sort_stable(b.children@), pos, a.children@.len() as int)
            },
            _ => false,
        }
    }

    /// `self` is `o` after `draw_at(pos)`: the world position set, every
    /// triangle's edges put in paint order, nothing else changed; a
    /// rectangle has the stable z-sort of its old children, each drawn under `pos`.
    pub open spec fn drawn_from(self, o: Shape, pos: Pos2) -> bool
        decreases self, 0int,
    {
        match (self, o) {
            (Shape::Line(a), Shape::Line(b)) => a == Line { center: pos, ..b },
            (Shape::Triangle(a), Shape::Triangle(b)) => a.drawn_from(Triangle { center: pos, ..b }),
            (Shape::Circle(a), Shape::Circle(b)) => a.drawn_from(Circle { center: pos, ..b }),
            (Shape::Rectangle(a), Shape::Rectangle(b)) => {
                &&& a.own_fields_match(b)
                &&& a.pos == pos
                &&& a.triangles@.len() == b.triangles@.len()
                &&& forall|i: int| 0 <= i < a.triangles@.len() ==> (#[trigger] a.triangles@[i]).drawn_from(b.triangles@[i])
                &&& a.children@.len() == b.children@.len()
                &&& all_drawn(a.children@, sort_stable(b.children@), pos, a.children@.len() as int)
            },
            _ => false,
        }
    }

    /// Interchangeable with `o`: the same kind and own fields (size,
    /// orientation, color, number of parts), the same placement, z-index and
    /// well-formedness, and the same pixels in every terminal.
    pub open spec fn twin(self, o: Shape) -> bool
        decreases self, 0int,
    {
        &&& self.keeps(o)
        &&& match (self, o) {
            (Shape::Rectangle(a), Shape::Rectangle(b)) => all_twin(a.children@, b.children@, a.children@.len() as int),
            _ => true,
        }
        &&& self.local() == o.local()
        &&& self.anchor() == o.anchor()
        &&& self.z() == o.z()
        &&& self.wf() == o.wf()
        &&& forall|w: u16, h: u16| #[trigger] self.pixels(w, h) == o.pixels(w, h)
    }

    /// A deep copy of the shape and of every shape under it.
    pub fn box_clone(&self) -> (r: Shape)
        requires
            self.wf(),
        ensures
            r.twin(*self),
        decreases self,
    {
        match self {
            Shape::Line(l) => Shape::Line(*l),
            Shape::Triangle(t) => {
                let c = t.clone();
                Shape::Triangle(c)
            },
            Shape::Circle(c) => {
                let d = c.clone();
                proof {
                    assert forall|w: u16, h: u16| d.pixels(w, h) == c.pixels(w, h) by {
                        d.lemma_same_as(*c, w, h);
                    }
                    d.lemma_same_as(*c, 0, 0);
                }
                Shape::Circle(d)
            },
            Shape::Rectangle(r) => {
                let mut triangles: Vec<Triangle> = Vec::new();
                let mut i: usize = 0;
                while i < r.triangles.len()
                    invariant
                        0 <= i <= r.triangles@.len(),
                        triangles@.len() == i,
                        forall|k: int| 0 <= k < i ==> (#[trigger] triangles@[k]).same_as(r.triangles@[k]),
                    decreases r.triangles@.len() - i,
                {
                    triangles.push(r.triangles[i].clone());
                    i = i + 1;
                }
                proof {
                    lemma_all_wf(r.children@, r.children@.len() as int);
                }
                let mut children: Vec<Shape> = Vec::new();
                let mut j: usize = 0;
                while j < r.children.len()
                    invariant
                        *self == Shape::Rectangle(*r),
                        0 <= j <= r.children@.len(),
                        forall|k: int| 0 <= k < r.children@.len() ==> (#[trigger] r.children@[k]).wf(),
                        children@.len() == j,
                        forall|k: int| 0 <= k < j ==> (#[trigger] children@[k]).twin(r.children@[k]),
                    decreases r.children@.len() - j,
                {
                    proof {
                        vstd::std_specs::vec::axiom_vec_index_decreases(r.children, j as int);
                        assert(decreases_to!(*self => (*self)->Rectangle_0));
                        assert(decreases_to!(*r => r.children));
                    }
                    children.push(r.children[j].box_clone());
                    j = j + 1;
                }
                let copy = Rectangle {
                    local_pos: r.local_pos,
                    pos: r.pos,
                    size: r.size,
                    orientation: r.orientation,
                    color: r.color,
                    z_index: r.z_index,
                    triangles,
                    children,
                };
                proof {
                    let n = r.children@.len() as int;
                    assert forall|w: u16, h: u16| #[trigger] Shape::Rectangle(copy).pixels(w, h) == self.pixels(w, h) by {
                        lemma_twin_lists(copy.children@, r.children@, n, w, h);
                        assert(copy.triangles@[0].same_as(r.triangles@[0]));
                        assert(copy.triangles@[1].same_as(r.triangles@[1]));
                    }
                    lemma_twin_lists(copy.children@, r.children@, n, 0, 0);
                    lemma_all_twin(copy.children@, r.children@, n);
                    if r.triangles@.len() == 2 {
                        assert(copy.triangles@[0].same_as(r.triangles@[0]));
                        assert(copy.triangles@[1].same_as(r.triangles@[1]));
                    }
                }
                Shape::Rectangle(copy)
            },
        }
    }

    /// The logical position.
    pub fn pos(&self) -> (r: Pos2)
        requires
            self.wf(),
        ensures
            r == self.local(),
            within(r.coords(), LINE_LIMIT as int),
    {
        match self {
            Shape::Line(l) => l.pos(),
            Shape::Triangle(t) => t.pos(),
            Shape::Circle(c) => c.pos(),
            Shape::Rectangle(r) => r.local_pos,
        }
    }

    pub fn z_index(&self) -> (r: i32)
        ensures
            r == self.z(),
    {
        match self {
            Shape::Line(l) => l.z_index,
            Shape::Triangle(t) => t.z_index,
            Shape::Circle(c) => c.z_index,
            Shape::Rectangle(r) => r.z_index,
        }
    }

    /// Records the world position `pos` that a parent resolved; a rectangle
    /// passes it on, each child being placed at `resolve(pos, child.local())`.
    pub fn set_parent_pos(&mut self, pos: Pos2)
        requires
            old(self).wf(),
            old(self).fits_at(pos),
        ensures
            final(self).wf(),
            final(self).fits_at(pos),
            final(self).reanchored(*old(self), pos),
            final(self).keeps(*old(self)),
            *old(self) is Rectangle ==> {
                let r0 = (*old(self))->Rectangle_0;
                let r1 = (*final(self))->Rectangle_0;
                &&& r1.triangles == r0.triangles
                &&& forall|i: int| 0 <= i < r1.children@.len() ==> (#[trigger] r1.children@[i]).keeps(r0.children@[i])
            },
            final(self).placed(),
            final(self).anchor() == pos,
            final(self).local() == old(self).local(),
            final(self).z() == old(self).z(),
        decreases *old(self),
    {
        match self {
            Shape::Line(l) => l.set_parent_pos(pos),
            Shape::Triangle(t) => t.set_parent_pos(pos),
            Shape::Circle(c) => c.set_parent_pos(pos),
            Shape::Rectangle(r) => {
                let ghost r0 = *r;
                proof {
                    lemma_all_wf(r0.children@, r0.children@.len() as int);
                    lemma_all_fit(pos, r0.children@, r0.children@.len() as int);
                }
                r.pos = pos;
                let n = r.children.len();
                let mut i: usize = 0;
                while i < n
                    invariant
                        *old(self) == Shape::Rectangle(r0),
                        n == r.children@.len() == r0.children@.len(),
                        0 <= i <= n,
                        r.pos == pos,
                        placeable(pos.coords()),
                        r.own_wf(),
                        r.own_fields_match(r0),
                        r.triangles == r0.triangles,
                        forall|j: int| i <= j < n ==> r.children@[j] == r0.children@[j],
                        forall|j: int| 0 <= j < n ==> (#[trigger] r0.children@[j]).wf(),
                        forall|j: int| 0 <= j < n ==> (#[trigger] r0.children@[j]).fits_at(resolve(pos, r0.children@[j].local())),
                        forall|j: int| 0 <= j < i ==> {
                            let c = #[trigger] r.children@[j];
                            &&& c.wf()
                            &&& c.fits_at(resolve(pos, c.local()))
                            &&& c.keeps(r0.children@[j])
                            &&& c.reanchored(r0.children@[j], resolve(pos, r0.children@[j].local()))
                            &&& c.placed()
                            &&& c.anchor() == resolve(pos, c.local())
                            &&& c.local() == r0.children@[j].local()
                            &&& c.z() == r0.children@[j].z()
                        },
                    decreases n - i,
                {
                    proof {
                        vstd::std_specs::vec::axiom_vec_index_decreases(r0.children, i as int);
                        assert(decreases_to!(*old(self) => (*old(self))->Rectangle_0));
                        assert(decreases_to!(r0 => r0.children));
                        assert(decreases_to!(r0.children => r0.children[i as int]));
                    }
                    let local = r.children[i].pos();
                    let w = resolve_pos(pos, local);
                    r.children[i].set_parent_pos(w);
                    i = i + 1;
                }
                proof {
                    lemma_all_wf(r.children@, n as int);
                    lemma_all_placed(pos, r.children@, n as int);
                    lemma_all_fit(pos, r.children@, n as int);
                    lemma_all_reanchored(r.children@, r0.children@, pos, n as int);
                }
            }
        }
    }
}

/// `list_pixels` reads only the first `n` shapes.
pub proof fn lemma_list_pixels_prefix(a: Seq<Shape>, b: Seq<Shape>, n: int, width: u16, height: u16)
    requires
        0 <= n <= a.len(),
        n <= b.len(),
        forall|i: int| 0 <= i < n ==> a[i] == b[i],
    ensures
        list_pixels(a, n, width, height) == list_pixels(b, n, width, height),
    decreases n,
{
    if n > 0 {
        lemma_list_pixels_prefix(a, b, n - 1, width, height);
    }
}

proof fn lemma_twin_lists(a: Seq<Shape>, b: Seq<Shape>, n: int, width: u16, height: u16)
    requires
        a.len() == b.len(),
        0 <= n <= a.len(),
        forall|i: int| 0 <= i < a.len() ==> (#[trigger] a[i]).twin(b[i]),
    ensures
        all_wf(a, n) == all_wf(b, n),
        list_pixels(a, n, width, height) == list_pixels(b, n, width, height),
    decreases n,
{
    if n > 0 {
        lemma_twin_lists(a, b, n - 1, width, height);
        assert(a[n - 1].twin(b[n - 1]));
        assert(a[n - 1].pixels(width, height) == b[n - 1].pixels(width, height));
    }
}

/// Turning a triangle, rectangle or circle by `delta` and back by `-delta`
/// leaves it facing the custom angle it had, everything else unchanged.
pub proof fn lemma_shape_rotation_round_trip(s: Shape, delta: int)
    requires
        !(s is Line),
        fits(s.facing().angle() + delta),
        fits(s.facing().angle()),
    ensures
        ({
            let t = s.with_facing(Orientation::Custom((s.facing().angle() + delta) as i64));
            t.with_facing(Orientation::Custom((t.facing().angle() - delta) as i64))
                == s.with_facing(Orientation::Custom(s.facing().angle() as i64))
        }),
{
}

/// Puts shapes in paint order: by z-index, lowest first, shapes with equal
/// z-index keeping their order.
pub fn sort_by_z(shapes: Vec<Shape>) -> (r: Vec<Shape>)
    ensures
        r@ == crate::sort::sort_stable(shapes@),
        crate::sort::sorted_by_key(r@),
        forall|k: int| #[trigger] crate::sort::with_key(r@, k) == crate::sort::with_key(shapes@, k),
{
    proof {
        crate::sort::lemma_paint_order(shapes@);
    }
    crate::sort::sort_by_key_stable(shapes)
}

/// Appends the pixels of every shape of `shapes`, in order.
pub fn rasterize_all(shapes: &Vec<Shape>, out: &mut Vec<Pixel>, width: u16, height: u16)
    requires
        forall|i: int| 0 <= i < shapes@.len() ==> #[trigger] shapes@[i].wf(),
    ensures
        final(out)@ == old(out)@ + list_pixels(shapes@, shapes@.len() as int, width, height),
{
    let mut i: usize = 0;
    while i < shapes.len()
        invariant
            0 <= i <= shapes@.len(),
            forall|k: int| 0 <= k < shapes@.len() ==> #[trigger] shapes@[k].wf(),
            out@ == old(out)@ + list_pixels(shapes@, i as int, width, height),
        decreases shapes@.len() - i,
    {
        shapes[i].rasterize(out, width, height);
        i = i + 1;
        proof {
            assert(out@ =~= old(out)@ + list_pixels(shapes@, i as int, width, height));
        }
    }
}

} // verus!
