//! Rectangles: two triangles and an ordered list of child shapes.
use vstd::prelude::*;
use crate::geometry::{placeable, PLACE_LIMIT};
use crate::orientation::Orientation;
use crate::pos2::Pos2;
use crate::geometry::on_grid;
use crate::pixel::Pixel;
use crate::shape::{lemma_all_updated, lemma_all_drawn, all_fit, all_placed, all_wf, lemma_all_fit, lemma_all_placed, lemma_all_wf, lemma_list_pixels_prefix, list_pixels, resolve, resolve_pos, Shape};
use crate::sort::{sort_by_key_stable, sort_stable};
use crate::triangle::{base_edges, base_of, Triangle};
use crate::vec2::Vec2;

verus! {

/// A rectangle drawn as two triangles, upper and lower halves, with child
/// shapes painted over it in z order. `local_pos` is the position in the
/// parent's frame, `pos` the world position that the parent resolved.
#[derive(Debug)]
pub struct Rectangle {
    pub local_pos: Pos2,
    pub pos: Pos2,
    pub size: Vec2<i64>,
    pub orientation: Orientation,
    pub color: crossterm::style::Color,
    pub z_index: i32,
    pub triangles: Vec<Triangle>,
    pub children: Vec<Shape>,
}

/// The world corners of a half of a rectangle of `size` at `center`, facing `o`.
pub open spec fn half_geometry(center: Pos2, o: Orientation, size: Vec2<i64>) -> crate::triangle::TriangleVertices {
    let b = base_of(size);
    let a = o.angle();
    let c = center.coords();
    crate::triangle::TriangleVertices {
        top_left: crate::triangle::screen_vertex(b.top_left, a, c),
        bottom_left: crate::triangle::screen_vertex(b.bottom_left, a, c),
        bottom_right: crate::triangle::screen_vertex(b.bottom_right, a, c),
    }
}

/// The two halves of a rectangle: one facing `orientation`, the other the opposite way.
fn make_halves(pos: Pos2, orientation: Orientation, size: Vec2<i64>, color: crossterm::style::Color) -> (r: Vec<Triangle>)
    requires
        placeable(pos.coords()),
        placeable(size),
        orientation.in_range(),
    ensures
        r@.len() == 2,
        r@[0].wf() && r@[1].wf(),
        r@[0].orientation == orientation,
        r@[1].orientation == orientation.opposite_spec(),
        forall|i: int| 0 <= i < 2 ==> {
            let t = #[trigger] r@[i];
            &&& t.base_vertices == base_of(size)
            &&& t.vertices == base_of(size)
            &&& t.lines@ == base_edges(size, color)
            &&& t.center == pos
            &&& t.local_center == pos
            &&& t.z_index == 0
            &&& t.color == color
        },
{
    let upper = Triangle::new(pos, orientation, size, color);
    let lower = Triangle::new(pos, orientation.opposite(), size, color);
    vec![upper, lower]
}

impl Rectangle {
    /// Placed at `at`, the rectangle and every shape under it stay within the
    /// coordinate limits (see `Shape::fits_at`).
    pub open spec fn fits_at(self, at: Pos2) -> bool {
        placeable(at.coords()) && all_fit(at, self.children@, self.children@.len() as int)
    }

    /// The rectangle and every shape under it are well formed.
    pub open spec fn wf(self) -> bool {
        self.own_wf() && all_wf(self.children@, self.children@.len() as int)
    }

    /// Its halves, then its children in their current order, as pixels.
    pub open spec fn pixels(self, width: u16, height: u16) -> Seq<Pixel> {
        self.triangles@[0].pixels(width, height) + self.triangles@[1].pixels(width, height)
            + list_pixels(self.children@, self.children@.len() as int, width, height)
    }

    /// A rectangle at `pos` of `size`, facing `Left`, with no children. The
    /// size is stored with its coordinates exchanged, so that width and height
    /// land on the right axes of the halves.
    pub fn new(pos: Pos2, size: Vec2<i64>, color: crossterm::style::Color) -> (r: Rectangle)
        requires
            placeable(pos.coords()),
            placeable(size),
        ensures
            r.wf(),
            r.local_pos == pos,
            r.pos == pos,
            r.size == (Vec2 { x: size.y, y: size.x }),
            r.orientation == Orientation::Left,
            r.color == color,
            r.z_index == 0,
            r.children@.len() == 0,
            r.triangles@.len() == 2,
            r.triangles@[0].orientation == Orientation::Left,
            r.triangles@[1].orientation == Orientation::Left.opposite_spec(),
            forall|i: int| 0 <= i < 2 ==> {
                let t = #[trigger] r.triangles@[i];
                &&& t.base_vertices == base_of(Vec2 { x: size.y, y: size.x })
                &&& t.vertices == base_of(Vec2 { x: size.y, y: size.x })
                &&& t.lines@ == base_edges(Vec2 { x: size.y, y: size.x }, color)
                &&& t.center == pos
                &&& t.local_center == pos
                &&& t.z_index == 0
                &&& t.color == color
            },
    {
        let orientation = Orientation::Left;
        let size = size.swapped();
        let triangles = make_halves(pos, orientation, size, color);
        Rectangle { local_pos: pos, pos, size, orientation, color, z_index: 0, triangles, children: Vec::new() }
    }

    /// Adds a child, painted after the ones already there when z-indices are equal.
    pub fn push(&mut self, child: Shape)
        requires
            old(self).wf(),
            child.wf(),
        ensures
            final(self).wf(),
            final(self).children@ == old(self).children@.push(child),
            final(self).own_fields_match(*old(self)),
            final(self).pos == old(self).pos,
    {
        proof {
            lemma_all_wf(self.children@, self.children@.len() as int);
        }
        self.children.push(child);
        proof {
            lemma_all_wf(self.children@, self.children@.len() as int);
        }
    }

    pub fn z_index(&self) -> (r: i32)
        ensures
            r == self.z_index,
    {
        self.z_index
    }

    pub fn pos(&self) -> (r: Pos2)
        ensures
            r == self.local_pos,
    {
        self.local_pos
    }

    /// Whether `p` lies inside either half as the rectangle now faces, border
    /// included: a rotated rectangle is tested as rotated.
    pub fn collides_with_point(&self, p: Vec2<i64>) -> (r: bool)
        requires
            self.own_wf(),
            on_grid(p),
        ensures
            r == (half_geometry(self.pos, self.orientation, self.size).contains(p) || half_geometry(
                self.pos,
                self.orientation.opposite_spec(),
                self.size,
            ).contains(p)),
    {
        let mut halves = make_halves(self.pos, self.orientation, self.size, self.color);
        halves[0].update();
        halves[1].update();
        halves[0].collides_with_point(p) || halves[1].collides_with_point(p)
    }

    /// Draws at the current world position (see `draw_at`).
    pub fn draw(&mut self, out: &mut Vec<Pixel>, width: u16, height: u16)
        requires
            old(self).wf(),
            old(self).fits_at(old(self).pos),
        ensures
            Shape::Rectangle(*final(self)).drawn_from(Shape::Rectangle(*old(self)), old(self).pos),
            final(self).fits_at(old(self).pos),
            forall|i: int| 0 <= i < final(self).children@.len() ==> (#[trigger] final(self).children@[i]).keeps(sort_stable(old(self).children@)[i]),
            final(self).wf(),
            final(self).own_fields_match(*old(self)),
            final(self).pos == old(self).pos,
            all_placed(final(self).pos, final(self).children@, final(self).children@.len() as int),
            final(self).children@.len() == old(self).children@.len(),
            final(out)@ == old(out)@ + final(self).pixels(width, height),
    {
        let p = self.pos;
        self.draw_at(p, out, width, height);
    }

    /// Takes `pos` as the world position; appends the two halves as they
    /// are; puts the children in z order (stable); then places each child at
    /// `resolve(pos, child.local())` and draws it, so that higher children
    /// paint over lower ones and over the halves.
    pub fn draw_at(&mut self, pos: Pos2, out: &mut Vec<Pixel>, width: u16, height: u16)
        requires
            old(self).wf(),
            old(self).fits_at(pos),
        ensures
            Shape::Rectangle(*final(self)).drawn_from(Shape::Rectangle(*old(self)), pos),
            final(self).fits_at(pos),
            forall|i: int| 0 <= i < final(self).children@.len() ==> (#[trigger] final(self).children@[i]).keeps(sort_stable(old(self).children@)[i]),
            final(self).wf(),
            final(self).own_fields_match(*old(self)),
            final(self).pos == pos,
            all_placed(pos, final(self).children@, final(self).children@.len() as int),
            final(self).children@.len() == old(self).children@.len(),
            forall|i: int| 0 <= i < final(self).children@.len() ==> {
                let c = #[trigger] final(self).children@[i];
                let o = sort_stable(old(self).children@)[i];
                &&& c.local() == o.local()
                &&& c.z() == o.z()
            },
            final(out)@ == old(out)@ + final(self).pixels(width, height),
        decreases *old(self),
    {
        let ghost r0 = *self;
        self.pos = pos;
        self.triangles[0].draw(out, width, height);
        self.triangles[1].draw(out, width, height);
        let ghost start = out@;
        let mut kids: Vec<Shape> = Vec::new();
        std::mem::swap(&mut kids, &mut self.children);
        let ghost orig = kids@;
        proof {
            lemma_all_wf(orig, orig.len() as int);
        }
        let mut kids = sort_by_key_stable(kids);
        let ghost sorted = kids@;
        proof {
            crate::sort::lemma_sort_keeps_all(orig);
            lemma_all_fit(pos, orig, orig.len() as int);
            assert forall|k: int| 0 <= k < sorted.len() implies #[trigger] sorted[k].wf() && decreases_to!(r0 => sorted[k])
                && sorted[k].fits_at(resolve(pos, sorted[k].local())) by {
                assert(sort_stable(orig).contains(sorted[k]));
                assert(orig.contains(sorted[k]));
                let j = choose|j: int| 0 <= j < orig.len() && orig[j] == sorted[k];
                assert(orig[j].wf());
                assert(orig[j].fits_at(resolve(pos, orig[j].local())));
                vstd::std_specs::vec::axiom_vec_index_decreases(r0.children, j);
                assert(decreases_to!(r0 => r0.children));
            }
        }
        let n = kids.len();
        let mut i: usize = 0;
        while i < n
            invariant
                n == kids@.len() == sorted.len(),
                0 <= i <= n,
                sorted == sort_stable(orig),
                *old(self) == r0,
                placeable(pos.coords()),
                forall|k: int| i <= k < n ==> kids@[k] == sorted[k],
                forall|k: int| 0 <= k < n ==> #[trigger] sorted[k].wf() && decreases_to!(r0 => sorted[k])
                    && sorted[k].fits_at(resolve(pos, sorted[k].local())),
                forall|k: int| 0 <= k < i ==> {
                    let c = #[trigger] kids@[k];
                    &&& c.wf()
                    &&& c.fits_at(resolve(pos, c.local()))
                    &&& c.keeps(sorted[k])
                    &&& c.drawn_from(sorted[k], resolve(pos, sorted[k].local()))
                    &&& c.placed()
                    &&& c.anchor() == resolve(pos, c.local())
                    &&& c.local() == sorted[k].local()
                    &&& c.z() == sorted[k].z()
                },
                out@ == start + list_pixels(kids@, i as int, width, height),
            decreases n - i,
        {
            let local = kids[i].pos();
            let w = resolve_pos(pos, local);
            let ghost before = kids@;
            assert(sorted[i as int].wf());
            kids[i].draw_at(w, out, width, height);
            proof {
                lemma_list_pixels_prefix(kids@, before, i as int, width, height);
            }
            i = i + 1;
            proof {
                assert(out@ =~= start + list_pixels(kids@, i as int, width, height));
            }
        }
        self.children = kids;
        proof {
            lemma_all_wf(self.children@, n as int);
            lemma_all_placed(pos, self.children@, n as int);
            lemma_all_fit(pos, self.children@, n as int);
            lemma_all_drawn(self.children@, sorted, pos, n as int);
            assert(self.triangles@[0].drawn_from(r0.triangles@[0]));
            assert(self.triangles@[1].drawn_from(r0.triangles@[1]));
            assert(out@ =~= old(out)@ + self.pixels(width, height));
        }
    }

    /// Recomputes the geometry at the current world position (see `update_at`).
    pub fn update(&mut self)
        requires
            old(self).wf(),
            old(self).fits_at(old(self).pos),
        ensures
            Shape::Rectangle(*final(self)).updated_from(Shape::Rectangle(*old(self)), old(self).pos),
            final(self).fits_at(old(self).pos),
            forall|i: int| 0 <= i < final(self).children@.len() ==> (#[trigger] final(self).children@[i]).keeps(sort_stable(old(self).children@)[i]),
            final(self).wf(),
            final(self).local_pos == old(self).local_pos,
            final(self).pos == old(self).pos,
            final(self).size == old(self).size,
            final(self).orientation == old(self).orientation,
            final(self).color == old(self).color,
            final(self).z_index == old(self).z_index,
            final(self).triangles@[0].vertices == half_geometry(old(self).pos, old(self).orientation, old(self).size),
            final(self).triangles@[1].vertices == half_geometry(
                old(self).pos,
                old(self).orientation.opposite_spec(),
                old(self).size,
            ),
            final(self).children@.len() == old(self).children@.len(),
            all_placed(final(self).pos, final(self).children@, final(self).children@.len() as int),
            forall|i: int| 0 <= i < final(self).children@.len() ==> {
                let c = #[trigger] final(self).children@[i];
                let o = sort_stable(old(self).children@)[i];
                &&& c.local() == o.local()
                &&& c.z() == o.z()
            },
    {
        let p = self.pos;
        self.update_at(p);
    }

    /// Takes `pos` as the world position; rebuilds the two halves from it,
    /// the orientation and the size; puts the children in z order (stable);
    /// then places each child at `resolve(pos, child.local())` and updates it there.
    pub fn update_at(&mut self, pos: Pos2)
        requires
            old(self).wf(),
            old(self).fits_at(pos),
        ensures
            Shape::Rectangle(*final(self)).updated_from(Shape::Rectangle(*old(self)), pos),
            final(self).fits_at(pos),
            forall|i: int| 0 <= i < final(self).children@.len() ==> (#[trigger] final(self).children@[i]).keeps(sort_stable(old(self).children@)[i]),
            final(self).wf(),
            final(self).local_pos == old(self).local_pos,
            final(self).pos == pos,
            final(self).size == old(self).size,
            final(self).orientation == old(self).orientation,
            final(self).color == old(self).color,
            final(self).z_index == old(self).z_index,
            final(self).triangles@[0].vertices == half_geometry(pos, old(self).orientation, old(self).size),
            final(self).triangles@[1].vertices == half_geometry(
                pos,
                old(self).orientation.opposite_spec(),
                old(self).size,
            ),
            final(self).children@.len() == old(self).children@.len(),
            all_placed(pos, final(self).children@, final(self).children@.len() as int),
            forall|i: int| 0 <= i < final(self).children@.len() ==> {
                let c = #[trigger] final(self).children@[i];
                let o = sort_stable(old(self).children@)[i];
                &&& c.local() == o.local()
                &&& c.z() == o.z()
            },
        decreases *old(self),
    {
        let ghost r0 = *self;
        self.pos = pos;
        let mut halves = make_halves(self.pos, self.orientation, self.size, self.color);
        halves[0].update();
        halves[1].update();
        self.triangles = halves;
        let mut kids: Vec<Shape> = Vec::new();
        std::mem::swap(&mut kids, &mut self.children);
        let ghost orig = kids@;
        proof {
            lemma_all_wf(orig, orig.len() as int);
        }
        let mut kids = sort_by_key_stable(kids);
        let ghost sorted = kids@;
        proof {
            crate::sort::lemma_sort_keeps_all(orig);
            lemma_all_fit(pos, orig, orig.len() as int);
            assert forall|k: int| 0 <= k < sorted.len() implies #[trigger] sorted[k].wf() && decreases_to!(r0 => sorted[k])
                && sorted[k].fits_at(resolve(pos, sorted[k].local())) by {
                assert(sort_stable(orig).contains(sorted[k]));
                assert(orig.contains(sorted[k]));
                let j = choose|j: int| 0 <= j < orig.len() && orig[j] == sorted[k];
                assert(orig[j].wf());
                assert(orig[j].fits_at(resolve(pos, orig[j].local())));
                vstd::std_specs::vec::axiom_vec_index_decreases(r0.children, j);
                assert(decreases_to!(r0 => r0.children));
            }
        }
        let pos = self.pos;
        let n = kids.len();
        let mut i: usize = 0;
        while i < n
            invariant
                n == kids@.len() == sorted.len(),
                0 <= i <= n,
                sorted == sort_stable(orig),
                *old(self) == r0,
                placeable(pos.coords()),
                forall|k: int| i <= k < n ==> kids@[k] == sorted[k],
                forall|k: int| 0 <= k < n ==> #[trigger] sorted[k].wf() && decreases_to!(r0 => sorted[k])
                    && sorted[k].fits_at(resolve(pos, sorted[k].local())),
                forall|k: int| 0 <= k < i ==> {
                    let c = #[trigger] kids@[k];
                    &&& c.wf()
                    &&& c.fits_at(resolve(pos, c.local()))
                    &&& c.keeps(sorted[k])
                    &&& c.updated_from(sorted[k], resolve(pos, sorted[k].local()))
                    &&& c.placed()
                    &&& c.anchor() == resolve(pos, c.local())
                    &&& c.local() == sorted[k].local()
                    &&& c.z() == sorted[k].z()
                },
            decreases n - i,
        {
            let local = kids[i].pos();
            let w = resolve_pos(pos, local);
            assert(sorted[i as int].wf());
            kids[i].update_at(w);
            i = i + 1;
        }
        self.children = kids;
        proof {
            lemma_all_wf(self.children@, n as int);
            lemma_all_placed(pos, self.children@, n as int);
            lemma_all_fit(pos, self.children@, n as int);
            lemma_all_updated(self.children@, sorted, pos, n as int);
        }
    }

    /// The rectangle's own fields, its children aside, are well formed.
    pub open spec fn own_wf(self) -> bool {
        &&& placeable(self.local_pos.coords())
        &&& placeable(self.pos.coords())
        &&& placeable(self.size)
        &&& self.orientation.in_range()
        &&& self.triangles@.len() == 2
        &&& self.triangles@[0].wf()
        &&& self.triangles@[1].wf()
    }

    /// Same fields as `o`, but the world position, the halves and the children.
    pub open spec fn own_fields_match(self, o: Rectangle) -> bool {
        &&& self.local_pos == o.local_pos
        &&& self.size == o.size
        &&& self.orientation == o.orientation
        &&& self.color == o.color
        &&& self.z_index == o.z_index
    }
}

} // verus!
