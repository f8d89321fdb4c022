use vstd::prelude::*;
use crate::trig::{cosine, cosine_fx, iabs, sine, sine_fx, tdiv, UNIT};

verus! {

/// A 2D vector. The arithmetic of the library is carried out on `Vec2<i64>`,
/// whose coordinates count terminal cells.
#[derive(Debug, Clone, Copy, PartialEq, Eq, Structural)]
pub struct Vec2<T> {
    pub x: T,
    pub y: T,
}

/// Whether an integer fits in an `i64`.
pub open spec fn fits(v: int) -> bool {
    i64::MIN <= v <= i64::MAX
}

impl<T: Copy> Vec2<T> {
    pub fn new(x: T, y: T) -> (r: Self)
        ensures
            r.x == x,
            r.y == y,
    {
        Vec2 { x, y }
    }

    pub fn splat(num: T) -> (r: Self)
        ensures
            r.x == num,
            r.y == num,
    {
        Vec2 { x: num, y: num }
    }

    /// Exchanges the two coordinates in place.
    pub fn swap(&mut self)
        ensures
            final(self).x == old(self).y,
            final(self).y == old(self).x,
    {
        let t = self.x;
        self.x = self.y;
        self.y = t;
    }

    pub fn swapped(&self) -> (r: Self)
        ensures
            r.x == self.y,
            r.y == self.x,
    {
        Vec2 { x: self.y, y: self.x }
    }
}

/// The largest coordinate magnitude that rotation accepts, so that its
/// fixed-point products stay within `i64`.
pub const COORD_LIMIT: i64 = 1_000_000_000_000;

/// Whether both coordinates are within `COORD_LIMIT` in magnitude.
pub open spec fn bounded(v: Vec2<i64>) -> bool {
    -COORD_LIMIT <= v.x <= COORD_LIMIT && -COORD_LIMIT <= v.y <= COORD_LIMIT
}

/// The x-coordinate of `(x, y)` rotated by `angle` millidegrees:
/// `x * cos + y * sin`, in the screen-space convention where y grows downward.
pub open spec fn rot_x(x: int, y: int, angle: int) -> int {
    tdiv(x * cosine_fx(angle) + y * sine_fx(angle), UNIT as int)
}

/// The y-coordinate of `(x, y)` rotated by `angle` millidegrees: `-x * sin + y * cos`.
pub open spec fn rot_y(x: int, y: int, angle: int) -> int {
    tdiv(-x * sine_fx(angle) + y * cosine_fx(angle), UNIT as int)
}

proof fn lemma_rot_bounds(x: int, y: int, c: int, s: int)
    requires
        -COORD_LIMIT <= x <= COORD_LIMIT,
        -COORD_LIMIT <= y <= COORD_LIMIT,
        -UNIT <= c <= UNIT,
        -UNIT <= s <= UNIT,
    ensures
        -2 * COORD_LIMIT * UNIT <= x * c + y * s <= 2 * COORD_LIMIT * UNIT,
        -2 * COORD_LIMIT * UNIT <= -x * s + y * c <= 2 * COORD_LIMIT * UNIT,
        -COORD_LIMIT * UNIT <= x * c <= COORD_LIMIT * UNIT,
        -COORD_LIMIT * UNIT <= y * s <= COORD_LIMIT * UNIT,
        -COORD_LIMIT * UNIT <= x * s <= COORD_LIMIT * UNIT,
        -COORD_LIMIT * UNIT <= y * c <= COORD_LIMIT * UNIT,
{
    assert(-COORD_LIMIT * UNIT <= x * c <= COORD_LIMIT * UNIT) by (nonlinear_arith)
        requires -COORD_LIMIT <= x <= COORD_LIMIT, -UNIT <= c <= UNIT;
    assert(-COORD_LIMIT * UNIT <= y * s <= COORD_LIMIT * UNIT) by (nonlinear_arith)
        requires -COORD_LIMIT <= y <= COORD_LIMIT, -UNIT <= s <= UNIT;
    assert(-COORD_LIMIT * UNIT <= x * s <= COORD_LIMIT * UNIT) by (nonlinear_arith)
        requires -COORD_LIMIT <= x <= COORD_LIMIT, -UNIT <= s <= UNIT;
    assert(-COORD_LIMIT * UNIT <= y * c <= COORD_LIMIT * UNIT) by (nonlinear_arith)
        requires -COORD_LIMIT <= y <= COORD_LIMIT, -UNIT <= c <= UNIT;
    assert(-x * s == -(x * s)) by (nonlinear_arith);
}

proof fn lemma_quotient_negates(n: int, d: int)
    requires
        i64::MIN <= n <= i64::MAX,
        d >= 1,
        d == 1 ==> n != i64::MIN,
    ensures
        fits(-tdiv(n, d)),
{
    if d >= 2 {
        vstd::arithmetic::div_mod::lemma_div_is_ordered_by_denominator(iabs(n), 2, d);
        vstd::arithmetic::div_mod::lemma_div_pos_is_pos(iabs(n), d);
    }
}

/// A rotated vector is no longer than the sum of the magnitudes of its coordinates.
pub proof fn lemma_rot_small(x: int, y: int, angle: int)
    requires
        -COORD_LIMIT <= x <= COORD_LIMIT,
        -COORD_LIMIT <= y <= COORD_LIMIT,
    ensures
        iabs(rot_x(x, y, angle)) <= iabs(x) + iabs(y),
        iabs(rot_y(x, y, angle)) <= iabs(x) + iabs(y),
{
    let c = cosine_fx(angle);
    let s = sine_fx(angle);
    crate::trig::lemma_trig_bounds(angle);
    let ax = iabs(x);
    let ay = iabs(y);
    assert(-(ax + ay) * UNIT <= x * c + y * s <= (ax + ay) * UNIT) by (nonlinear_arith)
        requires
            -UNIT <= c <= UNIT,
            -UNIT <= s <= UNIT,
            ax >= x, ax >= -x, ay >= y, ay >= -y,
    ;
    assert(-(ax + ay) * UNIT <= -x * s + y * c <= (ax + ay) * UNIT) by (nonlinear_arith)
        requires
            -UNIT <= c <= UNIT,
            -UNIT <= s <= UNIT,
            ax >= x, ax >= -x, ay >= y, ay >= -y,
    ;
    lemma_tdiv_bound(x * c + y * s, ax + ay);
    lemma_tdiv_bound(-x * s + y * c, ax + ay);
}

proof fn lemma_tdiv_bound(n: int, m: int)
    requires
        m >= 0,
        iabs(n) <= m * UNIT,
    ensures
        iabs(tdiv(n, UNIT as int)) <= m,
{
    let q = iabs(n) / (UNIT as int);
    assert(q <= m) by (nonlinear_arith)
        requires
            q == iabs(n) / (UNIT as int),
            iabs(n) <= m * UNIT,
            UNIT > 0,
    {
        vstd::arithmetic::div_mod::lemma_div_is_ordered(iabs(n), m * UNIT, UNIT as int);
        vstd::arithmetic::div_mod::lemma_div_by_multiple(m, UNIT as int);
    }
}

impl Vec2<i64> {
    /// The zero vector.
    pub fn zero() -> (r: Self)
        ensures
            r.x == 0,
            r.y == 0,
    {
        Vec2 { x: 0, y: 0 }
    }

    /// The dot product `x * rhs.x + y * rhs.y`.
    pub fn dot(self, rhs: Self) -> (r: i64)
        requires
            fits(self.x * rhs.x),
            fits(self.y * rhs.y),
            fits(self.x * rhs.x + self.y * rhs.y),
        ensures
            r == self.x * rhs.x + self.y * rhs.y,
    {
        self.x * rhs.x + self.y * rhs.y
    }

    /// The z-component of the cross product, `x * rhs.y - y * rhs.x`.
    pub fn cross(self, rhs: Self) -> (r: i64)
        requires
            fits(self.x * rhs.y),
            fits(self.y * rhs.x),
            fits(self.x * rhs.y - self.y * rhs.x),
        ensures
            r == self.x * rhs.y - self.y * rhs.x,
    {
        self.x * rhs.y - self.y * rhs.x
    }

    /// Rotates by `angle` millidegrees with the matrix `[cos sin; -sin cos]`,
    /// truncating the fixed-point result toward zero.
    pub fn rotate(self, angle: i64) -> (r: Self)
        requires
            bounded(self),
        ensures
            r.x == rot_x(self.x as int, self.y as int, angle as int),
            r.y == rot_y(self.x as int, self.y as int, angle as int),
    {
        let c = cosine(angle);
        let s = sine(angle);
        proof {
            lemma_rot_bounds(self.x as int, self.y as int, c as int, s as int);
            lemma_rot_small(self.x as int, self.y as int, angle as int);
        }
        let (x, y) = (self.x as i128, self.y as i128);
        let (c, s) = (c as i128, s as i128);
        let nx = x * c + y * s;
        let ny = -x * s + y * c;
        let u = UNIT as i128;
        Vec2 { x: (nx / u) as i64, y: (ny / u) as i64 }
    }

    pub fn add_scalar(self, scalar: i64) -> (r: Self)
        requires
            fits(self.x + scalar),
            fits(self.y + scalar),
        ensures
            r.x == self.x + scalar,
            r.y == self.y + scalar,
    {
        Vec2 { x: self.x + scalar, y: self.y + scalar }
    }

    pub fn sub_scalar(self, scalar: i64) -> (r: Self)
        requires
            fits(self.x - scalar),
            fits(self.y - scalar),
        ensures
            r.x == self.x - scalar,
            r.y == self.y - scalar,
    {
        Vec2 { x: self.x - scalar, y: self.y - scalar }
    }

    pub fn mul_scalar(self, scalar: i64) -> (r: Self)
        requires
            fits(self.x * scalar),
            fits(self.y * scalar),
        ensures
            r.x == self.x * scalar,
            r.y == self.y * scalar,
    {
        Vec2 { x: self.x * scalar, y: self.y * scalar }
    }

    /// Divides both coordinates by `scalar`, truncating toward zero.
    pub fn div_scalar(self, scalar: i64) -> (r: Self)
        requires
            scalar != 0,
            scalar != -1 || (self.x != i64::MIN && self.y != i64::MIN),
        ensures
            r.x == tdiv(self.x as int, scalar as int),
            r.y == tdiv(self.y as int, scalar as int),
    {
        Vec2 { x: trunc_div(self.x, scalar), y: trunc_div(self.y, scalar) }
    }
}

impl core::ops::Add for Vec2<i64> {
    type Output = Vec2<i64>;

    fn add(self, rhs: Vec2<i64>) -> (r: Vec2<i64>) {
        Vec2 { x: self.x + rhs.x, y: self.y + rhs.y }
    }
}

impl vstd::std_specs::ops::AddSpecImpl for Vec2<i64> {
    open spec fn obeys_add_spec() -> bool {
        true
    }

    open spec fn add_req(self, rhs: Vec2<i64>) -> bool {
        fits(self.x + rhs.x) && fits(self.y + rhs.y)
    }

    open spec fn add_spec(self, rhs: Vec2<i64>) -> Vec2<i64> {
        Vec2 { x: (self.x + rhs.x) as i64, y: (self.y + rhs.y) as i64 }
    }
}

impl core::ops::Sub for Vec2<i64> {
    type Output = Vec2<i64>;

    fn sub(self, rhs: Vec2<i64>) -> (r: Vec2<i64>) {
        Vec2 { x: self.x - rhs.x, y: self.y - rhs.y }
    }
}

impl vstd::std_specs::ops::SubSpecImpl for Vec2<i64> {
    open spec fn obeys_sub_spec() -> bool {
        true
    }

    open spec fn sub_req(self, rhs: Vec2<i64>) -> bool {
        fits(self.x - rhs.x) && fits(self.y - rhs.y)
    }

    open spec fn sub_spec(self, rhs: Vec2<i64>) -> Vec2<i64> {
        Vec2 { x: (self.x - rhs.x) as i64, y: (self.y - rhs.y) as i64 }
    }
}

impl core::ops::Mul for Vec2<i64> {
    type Output = Vec2<i64>;

    fn mul(self, rhs: Vec2<i64>) -> (r: Vec2<i64>) {
        Vec2 { x: self.x * rhs.x, y: self.y * rhs.y }
    }
}

impl vstd::std_specs::ops::MulSpecImpl for Vec2<i64> {
    open spec fn obeys_mul_spec() -> bool {
        true
    }

    open spec fn mul_req(self, rhs: Vec2<i64>) -> bool {
        fits(self.x * rhs.x) && fits(self.y * rhs.y)
    }

    open spec fn mul_spec(self, rhs: Vec2<i64>) -> Vec2<i64> {
        Vec2 { x: (self.x * rhs.x) as i64, y: (self.y * rhs.y) as i64 }
    }
}

impl core::ops::Div for Vec2<i64> {
    type Output = Vec2<i64>;

    /// Divides coordinate by coordinate, truncating toward zero.
    fn div(self, rhs: Vec2<i64>) -> (r: Vec2<i64>) {
        Vec2 { x: trunc_div(self.x, rhs.x), y: trunc_div(self.y, rhs.y) }
    }
}

/// `n / d`, truncated toward zero.
fn trunc_div(n: i64, d: i64) -> (r: i64)
    requires
        d != 0,
        !(n == i64::MIN && d == -1),
    ensures
        r == tdiv(n as int, d as int),
{
    if d > 0 {
        n / d
    } else if d == i64::MIN {
        if n == i64::MIN {
            1
        } else {
            assert(iabs(n as int) < iabs(d as int));
            0
        }
    } else {
        proof {
            lemma_quotient_negates(n as int, -d as int);
        }
        -(n / -d)
    }
}

impl vstd::std_specs::ops::DivSpecImpl for Vec2<i64> {
    open spec fn obeys_div_spec() -> bool {
        true
    }

    open spec fn div_req(self, rhs: Vec2<i64>) -> bool {
        rhs.x != 0 && rhs.y != 0 && !(self.x == i64::MIN && rhs.x == -1) && !(self.y == i64::MIN
            && rhs.y == -1)
    }

    open spec fn div_spec(self, rhs: Vec2<i64>) -> Vec2<i64> {
        Vec2 { x: tdiv(self.x as int, rhs.x as int) as i64, y: tdiv(self.y as int, rhs.y as int) as i64 }
    }
}

} // verus!
