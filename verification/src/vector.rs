//! The 2D fixed-point vector used for positions, velocities and forces.

use vstd::prelude::*;

use crate::fixed::div_tz;
use crate::fixed::div_fix;

verus! {

/// An immutable 2D value; both components are fixed-point integers.
#[derive(Clone, Copy, PartialEq, Eq, Structural, Debug)]
pub struct Vector {
    pub x: i64,
    pub y: i64,
}

/// The zero vector.
pub open spec fn zero_vec() -> Vector {
    Vector { x: 0, y: 0 }
}

impl Vector {
    /// The zero vector, as a value.
    pub fn zero() -> (v: Vector)
        ensures
            v == zero_vec(),
    {
        Vector { x: 0, y: 0 }
    }

    /// Componentwise sum.
    pub fn plus(self, rhs: Vector) -> (r: Vector)
        requires
            i64::MIN <= self.x + rhs.x <= i64::MAX,
            i64::MIN <= self.y + rhs.y <= i64::MAX,
        ensures
            r.x == self.x + rhs.x,
            r.y == self.y + rhs.y,
    {
        Vector { x: self.x + rhs.x, y: self.y + rhs.y }
    }

    /// Componentwise difference.
    pub fn minus(self, rhs: Vector) -> (r: Vector)
        requires
            i64::MIN <= self.x - rhs.x <= i64::MAX,
            i64::MIN <= self.y - rhs.y <= i64::MAX,
        ensures
            r.x == self.x - rhs.x,
            r.y == self.y - rhs.y,
    {
        Vector { x: self.x - rhs.x, y: self.y - rhs.y }
    }

    /// Componentwise scaling by the ratio `num / den`, rounded toward zero:
    /// the fixed-point form of multiplying a vector by a scalar.
    pub fn scale_div(self, num: i64, den: i64) -> (r: Vector)
        requires
            den >= 1,
            -i64::MAX <= self.x * num <= i64::MAX,
            -i64::MAX <= self.y * num <= i64::MAX,
        ensures
            r.x == div_tz(self.x * num, den as int),
            r.y == div_tz(self.y * num, den as int),
    {
        Vector { x: div_fix(self.x * num, den), y: div_fix(self.y * num, den) }
    }
}

} // verus!
