//! Positions tagged as world-space (`Absolute`) or parent-space (`Relative`).
use vstd::prelude::*;
use vstd::std_specs::ops::AddSpec;
use crate::trig::tdiv;
use crate::vec2::{fits, Vec2};

verus! {

/// A position in the render grid (`Absolute`) or an offset from a parent
/// that is not resolved yet (`Relative`).
#[derive(Debug, Clone, Copy, PartialEq, Eq, Structural)]
pub enum Pos2 {
    Absolute(Vec2<i64>),
    Relative(Vec2<i64>),
}

/// Whether the sum or difference of two positions fits in `i64`, coordinate by coordinate.
pub open spec fn sum_fits(a: Vec2<i64>, b: Vec2<i64>) -> bool {
    fits(a.x + b.x) && fits(a.y + b.y)
}

pub open spec fn diff_fits(a: Vec2<i64>, b: Vec2<i64>) -> bool {
    fits(a.x - b.x) && fits(a.y - b.y)
}

pub open spec fn vadd(a: Vec2<i64>, b: Vec2<i64>) -> Vec2<i64> {
    Vec2 { x: (a.x + b.x) as i64, y: (a.y + b.y) as i64 }
}

pub open spec fn vsub(a: Vec2<i64>, b: Vec2<i64>) -> Vec2<i64> {
    Vec2 { x: (a.x - b.x) as i64, y: (a.y - b.y) as i64 }
}

impl Pos2 {
    /// The coordinates, whatever the tag.
    pub open spec fn coords(self) -> Vec2<i64> {
        match self {
            Pos2::Absolute(v) => v,
            Pos2::Relative(v) => v,
        }
    }

    pub open spec fn is_relative(self) -> bool {
        self is Relative
    }

    /// The tag of a combination of two positions: `Relative` only when both are.
    pub open spec fn combine(a: Pos2, b: Pos2, v: Vec2<i64>) -> Pos2 {
        if a.is_relative() && b.is_relative() {
            Pos2::Relative(v)
        } else {
            Pos2::Absolute(v)
        }
    }

    /// The same tag as `self` on other coordinates.
    pub open spec fn retag(self, v: Vec2<i64>) -> Pos2 {
        match self {
            Pos2::Absolute(_) => Pos2::Absolute(v),
            Pos2::Relative(_) => Pos2::Relative(v),
        }
    }

    /// The coordinates, whatever the tag.
    pub fn vec(self) -> (r: Vec2<i64>)
        ensures
            r == self.coords(),
    {
        match self {
            Pos2::Absolute(v) => v,
            Pos2::Relative(v) => v,
        }
    }

    /// Multiplies the coordinates by a scalar, keeping the tag.
    pub fn mul_scalar(self, k: i64) -> (r: Pos2)
        requires
            fits(self.coords().x * k),
            fits(self.coords().y * k),
        ensures
            r == self.retag(Vec2 { x: (self.coords().x * k) as i64, y: (self.coords().y * k) as i64 }),
    {
        match self {
            Pos2::Absolute(v) => Pos2::Absolute(v.mul_scalar(k)),
            Pos2::Relative(v) => Pos2::Relative(v.mul_scalar(k)),
        }
    }

    /// Divides the coordinates by a scalar, truncating toward zero, keeping the tag.
    pub fn div_scalar(self, k: i64) -> (r: Pos2)
        requires
            k != 0,
            k != -1 || (self.coords().x != i64::MIN && self.coords().y != i64::MIN),
        ensures
            r == self.retag(Vec2 { x: tdiv(self.coords().x as int, k as int) as i64, y: tdiv(self.coords().y as int, k as int) as i64 }),
    {
        match self {
            Pos2::Absolute(v) => Pos2::Absolute(v.div_scalar(k)),
            Pos2::Relative(v) => Pos2::Relative(v.div_scalar(k)),
        }
    }

    /// Re-tags as `Relative` to the origin `origin`: an `Absolute` position
    /// becomes its offset from `origin`.
    pub fn to_relative(self, origin: Vec2<i64>) -> (r: Pos2)
        requires
            self is Absolute ==> diff_fits(self.coords(), origin),
        ensures
            r == Pos2::Relative(
                if self is Absolute { vsub(self.coords(), origin) } else { self.coords() },
            ),
    {
        match self {
            Pos2::Relative(p) => Pos2::Relative(p),
            Pos2::Absolute(p) => Pos2::Relative(p - origin),
        }
    }

    /// Re-tags as `Absolute`: a `Relative` position, an offset from the
    /// origin `origin`, is resolved to `origin` plus the offset.
    pub fn to_absolute(self, origin: Vec2<i64>) -> (r: Pos2)
        requires
            self is Relative ==> sum_fits(self.coords(), origin),
        ensures
            r == Pos2::Absolute(
                if self is Relative { vadd(self.coords(), origin) } else { self.coords() },
            ),
    {
        match self {
            Pos2::Relative(p) => Pos2::Absolute(p + origin),
            Pos2::Absolute(p) => Pos2::Absolute(p),
        }
    }
}

/// Converting a relative position to absolute and back, about the same
/// origin, gives it back.
pub proof fn lemma_relative_round_trip(p: Vec2<i64>, origin: Vec2<i64>)
    requires
        sum_fits(p, origin),
    ensures
        vsub(vadd(p, origin), origin) == p,
{
}

/// Adding positions commutes, tag and coordinates alike.
pub proof fn lemma_add_commutes(a: Pos2, b: Pos2)
    ensures
        a.add_spec(b) == b.add_spec(a),
        a.add_spec(b).coords() == vadd(a.coords(), b.coords()),
        a.add_spec(b).is_relative() <==> (a.is_relative() && b.is_relative()),
{
    assert(vadd(a.coords(), b.coords()) == vadd(b.coords(), a.coords()));
}

impl core::ops::Add for Pos2 {
    type Output = Pos2;

    /// `Relative` only when both operands are; otherwise `Absolute`.
    fn add(self, rhs: Pos2) -> (r: Pos2) {
        match (self, rhs) {
            (Pos2::Relative(a), Pos2::Relative(b)) => Pos2::Relative(a + b),
            (Pos2::Absolute(a), Pos2::Absolute(b)) => Pos2::Absolute(a + b),
            (Pos2::Absolute(a), Pos2::Relative(b)) => Pos2::Absolute(a + b),
            (Pos2::Relative(a), Pos2::Absolute(b)) => Pos2::Absolute(a + b),
        }
    }
}

impl vstd::std_specs::ops::AddSpecImpl for Pos2 {
    open spec fn obeys_add_spec() -> bool {
        true
    }

    open spec fn add_req(self, rhs: Pos2) -> bool {
        sum_fits(self.coords(), rhs.coords())
    }

    open spec fn add_spec(self, rhs: Pos2) -> Pos2 {
        Pos2::combine(self, rhs, vadd(self.coords(), rhs.coords()))
    }
}

impl core::ops::Sub for Pos2 {
    type Output = Pos2;

    /// `Relative` only when both operands are; otherwise `Absolute`.
    fn sub(self, rhs: Pos2) -> (r: Pos2) {
        match (self, rhs) {
            (Pos2::Relative(a), Pos2::Relative(b)) => Pos2::Relative(a - b),
            (Pos2::Absolute(a), Pos2::Absolute(b)) => Pos2::Absolute(a - b),
            (Pos2::Absolute(a), Pos2::Relative(b)) => Pos2::Absolute(a - b),
            (Pos2::Relative(a), Pos2::Absolute(b)) => Pos2::Absolute(a - b),
        }
    }
}

impl vstd::std_specs::ops::SubSpecImpl for Pos2 {
    open spec fn obeys_sub_spec() -> bool {
        true
    }

    open spec fn sub_req(self, rhs: Pos2) -> bool {
        diff_fits(self.coords(), rhs.coords())
    }

    open spec fn sub_spec(self, rhs: Pos2) -> Pos2 {
        Pos2::combine(self, rhs, vsub(self.coords(), rhs.coords()))
    }
}

impl core::ops::Add<Vec2<i64>> for Pos2 {
    type Output = Pos2;

    /// Shifts by a plain vector, keeping the tag.
    fn add(self, rhs: Vec2<i64>) -> (r: Pos2) {
        match self {
            Pos2::Absolute(a) => Pos2::Absolute(a + rhs),
            Pos2::Relative(a) => Pos2::Relative(a + rhs),
        }
    }
}

impl vstd::std_specs::ops::AddSpecImpl<Vec2<i64>> for Pos2 {
    open spec fn obeys_add_spec() -> bool {
        true
    }

    open spec fn add_req(self, rhs: Vec2<i64>) -> bool {
        sum_fits(self.coords(), rhs)
    }

    open spec fn add_spec(self, rhs: Vec2<i64>) -> Pos2 {
        self.retag(vadd(self.coords(), rhs))
    }
}

impl core::ops::Sub<Vec2<i64>> for Pos2 {
    type Output = Pos2;

    /// Shifts by the opposite of a plain vector, keeping the tag.
    fn sub(self, rhs: Vec2<i64>) -> (r: Pos2) {
        match self {
            Pos2::Absolute(a) => Pos2::Absolute(a - rhs),
            Pos2::Relative(a) => Pos2::Relative(a - rhs),
        }
    }
}

impl vstd::std_specs::ops::SubSpecImpl<Vec2<i64>> for Pos2 {
    open spec fn obeys_sub_spec() -> bool {
        true
    }

    open spec fn sub_req(self, rhs: Vec2<i64>) -> bool {
        diff_fits(self.coords(), rhs)
    }

    open spec fn sub_spec(self, rhs: Vec2<i64>) -> Pos2 {
        self.retag(vsub(self.coords(), rhs))
    }
}

impl From<Vec2<i64>> for Pos2 {
    /// A plain vector is a world-space position.
    fn from(v: Vec2<i64>) -> (r: Pos2) {
        Pos2::Absolute(v)
    }
}

impl vstd::std_specs::convert::FromSpecImpl<Vec2<i64>> for Pos2 {
    open spec fn obeys_from_spec() -> bool {
        true
    }

    open spec fn from_spec(v: Vec2<i64>) -> Pos2 {
        Pos2::Absolute(v)
    }
}

} // verus!
