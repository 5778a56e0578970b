//! Points, vectors and the orientation predicate over exact integers.
use crate::scalar::{big_clone, big_mul, big_sign, big_sub, big_value};
use num_bigint::BigInt;
use vstd::prelude::*;

verus! {

/// A point with integer coordinates.
pub struct Point {
    pub x: BigInt,
    pub y: BigInt,
}

/// A displacement with integer components.
pub struct Vector {
    pub x: BigInt,
    pub y: BigInt,
}

/// A rational number `num / den`.
pub struct Rational {
    pub num: BigInt,
    pub den: BigInt,
}

/// A point with rational coordinates `(x / den, y / den)`.
pub struct RationalPoint {
    pub x: BigInt,
    pub y: BigInt,
    pub den: BigInt,
}

impl View for Point {
    type V = (int, int);

    open spec fn view(&self) -> (int, int) {
        (big_value(self.x), big_value(self.y))
    }
}

impl View for Vector {
    type V = (int, int);

    open spec fn view(&self) -> (int, int) {
        (big_value(self.x), big_value(self.y))
    }
}

/// The turn made at `b` on the way from `a` to `c`.
#[derive(Debug, Clone, Copy, PartialEq, Eq, Structural)]
pub enum Orientation {
    CounterClockWise,
    ClockWise,
    CoLinear,
}

/// The cross product `p.x * q.y - q.x * p.y`.
pub open spec fn cross(p: (int, int), q: (int, int)) -> int {
    p.0 * q.1 - q.0 * p.1
}

/// Twice the signed area of the triangle `a, b, c`: positive for a left turn.
pub open spec fn turn(a: (int, int), b: (int, int), c: (int, int)) -> int {
    cross((b.0 - a.0, b.1 - a.1), (c.0 - a.0, c.1 - a.1))
}

/// The orientation that the sign of a turn stands for.
pub open spec fn orientation_of(t: int) -> Orientation {
    if t > 0 {
        Orientation::CounterClockWise
    } else if t < 0 {
        Orientation::ClockWise
    } else {
        Orientation::CoLinear
    }
}

impl Point {
    /// A copy of the point.
    pub fn copy(&self) -> (r: Point)
        ensures
            r@ == self@,
    {
        Point { x: big_clone(&self.x), y: big_clone(&self.y) }
    }

    /// The orientation of the turn `self -> q -> r`.
    pub fn orientation(&self, q: &Point, r: &Point) -> (o: Orientation)
        ensures
            o == orientation_of(turn(self@, q@, r@)),
    {
        let t = turn_value(self, q, r);
        let s = big_sign(&t);
        if s > 0 {
            Orientation::CounterClockWise
        } else if s < 0 {
            Orientation::ClockWise
        } else {
            Orientation::CoLinear
        }
    }
}

impl Vector {
    /// A copy of the vector.
    pub fn copy(&self) -> (r: Vector)
        ensures
            r@ == self@,
    {
        Vector { x: big_clone(&self.x), y: big_clone(&self.y) }
    }
}

/// The exact value of `turn(a, b, c)`.
pub(crate) fn turn_value(a: &Point, b: &Point, c: &Point) -> (r: BigInt)
    ensures
        big_value(r) == turn(a@, b@, c@),
{
    let ux = big_sub(&b.x, &a.x);
    let uy = big_sub(&b.y, &a.y);
    let vx = big_sub(&c.x, &a.x);
    let vy = big_sub(&c.y, &a.y);
    let l = big_mul(&ux, &vy);
    let r = big_mul(&vx, &uy);
    big_sub(&l, &r)
}

/// The exact value of `cross(p, q)`.
pub(crate) fn cross_value(p: &Point, q: &Point) -> (r: BigInt)
    ensures
        big_value(r) == cross(p@, q@),
{
    let l = big_mul(&p.x, &q.y);
    let r = big_mul(&q.x, &p.y);
    big_sub(&l, &r)
}

} // verus!
