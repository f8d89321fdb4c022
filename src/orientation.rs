//! The direction a shape faces.
use vstd::prelude::*;
use crate::trig::{trem, FULL_TURN, HALF_TURN, QUARTER_TURN};

verus! {

/// Four cardinal directions, or an arbitrary angle in millidegrees.
#[derive(Debug, Clone, Copy, PartialEq, Eq, Structural)]
pub enum Orientation {
    Up,
    Down,
    Left,
    Right,
    Custom(i64),
}

/// The largest magnitude of a custom angle whose opposite can be computed.
pub const ANGLE_LIMIT: i64 = 1_000_000_000_000_000;

impl Orientation {
    /// The angle in millidegrees: 0 for `Up`, a half turn for `Down`, a quarter
    /// turn for `Left`, three quarters for `Right`, and the value of `Custom`.
    pub open spec fn angle(self) -> int {
        match self {
            Orientation::Up => 0,
            Orientation::Down => HALF_TURN as int,
            Orientation::Left => QUARTER_TURN as int,
            Orientation::Right => 3 * QUARTER_TURN,
            Orientation::Custom(v) => v as int,
        }
    }

    /// Whether the angle is small enough for the arithmetic on orientations.
    pub open spec fn in_range(self) -> bool {
        -ANGLE_LIMIT <= self.angle() <= ANGLE_LIMIT
    }

    pub open spec fn opposite_spec(self) -> Orientation {
        match self {
            Orientation::Up => Orientation::Down,
            Orientation::Down => Orientation::Up,
            Orientation::Left => Orientation::Right,
            Orientation::Right => Orientation::Left,
            Orientation::Custom(v) => Orientation::Custom(
                trem(v + HALF_TURN, FULL_TURN as int) as i64,
            ),
        }
    }

    /// The facing half a turn away. A custom angle `v` becomes
    /// `(v + half turn) % full turn`, the remainder taking the sign of the sum.
    pub fn opposite(&self) -> (r: Orientation)
        requires
            self.in_range(),
        ensures
            r == self.opposite_spec(),
            r.in_range(),
    {
        match self {
            Orientation::Up => Orientation::Down,
            Orientation::Down => Orientation::Up,
            Orientation::Left => Orientation::Right,
            Orientation::Right => Orientation::Left,
            Orientation::Custom(v) => Orientation::Custom((*v + HALF_TURN) % FULL_TURN),
        }
    }

    /// The angle in millidegrees (see `angle`).
    pub fn to_angle(&self) -> (r: i64)
        ensures
            r == self.angle(),
    {
        match self {
            Orientation::Up => 0,
            Orientation::Down => HALF_TURN,
            Orientation::Left => QUARTER_TURN,
            Orientation::Right => 3 * QUARTER_TURN,
            Orientation::Custom(v) => *v,
        }
    }
}

} // verus!
