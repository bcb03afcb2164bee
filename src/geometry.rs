//! Points in three dimensions, with fixed-point coordinates.
use vstd::prelude::*;
use crate::fixed::{UNIT, round_div, div_round, lemma_round_div_within};

verus! {

/// A point (or direction) whose coordinates are in fixed-point units.
#[derive(Clone, Copy, Debug, PartialEq, Eq, Structural)]
pub struct Point {
    pub x: i32,
    pub y: i32,
    pub z: i32,
}

/// An angle, given by its cosine and sine in fixed-point units.
#[derive(Clone, Copy, Debug, PartialEq, Eq, Structural)]
pub struct Angle {
    pub cos: i32,
    pub sin: i32,
}

impl Angle {
    /// Cosine and sine are each at most one whole unit from zero.
    pub open spec fn wf(&self) -> bool {
        &&& -UNIT <= self.cos <= UNIT
        &&& -UNIT <= self.sin <= UNIT
    }
}

/// The coordinate `u · cos - v · sin`, rounded: the first coordinate of the
/// pair `(u, v)` turned by `a`.
pub open spec fn turn(u: int, v: int, a: Angle) -> int {
    round_div(u * a.cos - v * a.sin, UNIT as int)
}

/// Turning a pair whose coordinates lie within `b` of zero gives a coordinate within `2b`.
pub proof fn lemma_turn_bound(u: int, v: int, a: Angle, b: int)
    requires
        a.wf(),
        b >= 0,
        -b <= u <= b,
        -b <= v <= b,
    ensures
        -2 * b <= turn(u, v, a) <= 2 * b,
{
    assert(-(2 * b * UNIT) <= u * a.cos - v * a.sin <= 2 * b * UNIT) by (nonlinear_arith)
        requires
            -b <= u <= b,
            -b <= v <= b,
            -UNIT <= a.cos <= UNIT,
            -UNIT <= a.sin <= UNIT,
    ;
    lemma_round_div_within(u * a.cos - v * a.sin, UNIT as int, 2 * b);
}

/// `u · cos - v · sin`, rounded.
fn turn_exec(u: i64, v: i64, a: &Angle) -> (r: i64)
    requires
        a.wf(),
        -0x1_0000_0000 <= u <= 0x1_0000_0000,
        -0x1_0000_0000 <= v <= 0x1_0000_0000,
    ensures
        r == turn(u as int, v as int, *a),
{
    proof {
        lemma_turn_bound(u as int, v as int, *a, 0x1_0000_0000);
        assert(-0x1_0000_0000_0000 <= u * a.cos <= 0x1_0000_0000_0000 && -0x1_0000_0000_0000 <= v * a.sin <= 0x1_0000_0000_0000) by (nonlinear_arith)
            requires
                -0x1_0000_0000 <= u <= 0x1_0000_0000,
                -0x1_0000_0000 <= v <= 0x1_0000_0000,
                -UNIT <= a.cos <= UNIT,
                -UNIT <= a.sin <= UNIT,
        ;
    }
    let n: i128 = (u as i128) * (a.cos as i128) - (v as i128) * (a.sin as i128);
    div_round(n, UNIT as i128) as i64
}

/// `r · f · g`, rounded, where `f` and `g` are fixed-point factors.
pub open spec fn scale2(r: int, f: int, g: int) -> int {
    round_div(r * f * g, UNIT * UNIT)
}

/// A product of two `i32` values lies within `2^62` of zero.
pub proof fn lemma_i32_product(a: int, b: int)
    requires
        i32::MIN <= a <= i32::MAX,
        i32::MIN <= b <= i32::MAX,
    ensures
        -0x4000_0000_0000_0000 <= a * b <= 0x4000_0000_0000_0000,
{
    assert(-0x4000_0000_0000_0000 <= a * b <= 0x4000_0000_0000_0000) by (nonlinear_arith)
        requires
            -0x8000_0000 <= a <= 0x8000_0000,
            -0x8000_0000 <= b <= 0x8000_0000,
    ;
}

/// The point of `Point::polar_at`.
pub open spec fn polar_spec(r: int, phi: Angle, theta: Angle) -> Point {
    Point {
        x: scale2(r, phi.sin as int, theta.cos as int) as i32,
        y: scale2(r, phi.sin as int, theta.sin as int) as i32,
        z: round_div(r * phi.cos, UNIT as int) as i32,
    }
}

/// The point of `Point::rot_y`.
pub open spec fn rot_y_spec(p: Point, a: Angle) -> Point {
    Point { x: turn(p.x as int, -p.z, a) as i32, y: p.y, z: turn(p.z as int, p.x as int, a) as i32 }
}

/// The point of `Point::rot_z`.
pub open spec fn rot_z_spec(p: Point, a: Angle) -> Point {
    Point { x: turn(p.x as int, p.y as int, a) as i32, y: turn(p.y as int, -p.x, a) as i32, z: p.z }
}

/// Every coordinate of `p` lies within `b` of zero.
pub open spec fn within(p: Point, b: int) -> bool {
    &&& -b <= p.x <= b
    &&& -b <= p.y <= b
    &&& -b <= p.z <= b
}

impl Point {
    /// The point with the given coordinates.
    pub fn at(x: i32, y: i32, z: i32) -> (r: Point)
        ensures
            r == (Point { x, y, z }),
    {
        Point { x, y, z }
    }

    /// Scalar product, in square units.
    pub open spec fn dot_spec(self, other: Point) -> int {
        self.x * other.x + self.y * other.y + self.z * other.z
    }

    /// Scalar product, in square units; exact.
    pub fn dot(&self, other: &Point) -> (r: i128)
        ensures
            r == self.dot_spec(*other),
    {
        proof {
            lemma_i32_product(self.x as int, other.x as int);
            lemma_i32_product(self.y as int, other.y as int);
            lemma_i32_product(self.z as int, other.z as int);
        }
        (self.x as i128) * (other.x as i128) + (self.y as i128) * (other.y as i128) + (self.z as i128)
            * (other.z as i128)
    }

    /// The point at distance `r` from the origin, at polar angle `phi` from the
    /// z axis and azimuth `theta` in the xy plane:
    /// `(r · sin phi · cos theta, r · sin phi · sin theta, r · cos phi)`, rounded.
    pub fn polar_at(r: i32, phi: &Angle, theta: &Angle) -> (p: Point)
        requires
            r > i32::MIN,
            phi.wf(),
            theta.wf(),
        ensures
            p.x == scale2(r as int, phi.sin as int, theta.cos as int),
            p.y == scale2(r as int, phi.sin as int, theta.sin as int),
            p.z == round_div(r * phi.cos, UNIT as int),
            p == polar_spec(r as int, *phi, *theta),
            r >= 0 ==> within(p, r as int),
    {
        let d: i128 = 0x1_0000_0000;
        proof {
            let b = if r >= 0 { r as int } else { -r };
            assert(d == UNIT * UNIT);
            assert(-(b * d) <= r * phi.sin * theta.cos <= b * d) by (nonlinear_arith)
                requires
                    -b <= r <= b,
                    -UNIT <= phi.sin <= UNIT,
                    -UNIT <= theta.cos <= UNIT,
                    d == UNIT * UNIT,
            ;
            assert(-(b * d) <= r * phi.sin * theta.sin <= b * d) by (nonlinear_arith)
                requires
                    -b <= r <= b,
                    -UNIT <= phi.sin <= UNIT,
                    -UNIT <= theta.sin <= UNIT,
                    d == UNIT * UNIT,
            ;
            assert(-(b * UNIT) <= r * phi.cos <= b * UNIT) by (nonlinear_arith)
                requires
                    -b <= r <= b,
                    -UNIT <= phi.cos <= UNIT,
            ;
            assert(-0x8000_0000_0000 <= r * phi.sin <= 0x8000_0000_0000) by (nonlinear_arith)
                requires
                    -b <= r <= b,
                    b <= 0x8000_0000,
                    -UNIT <= phi.sin <= UNIT,
            ;
            lemma_round_div_within(r * phi.sin * theta.cos, d as int, b);
            lemma_round_div_within(r * phi.sin * theta.sin, d as int, b);
            lemma_round_div_within(r * phi.cos, UNIT as int, b);
        }
        let rs = (r as i128) * (phi.sin as i128);
        let x = div_round(rs * (theta.cos as i128), d);
        let y = div_round(rs * (theta.sin as i128), d);
        let z = div_round((r as i128) * (phi.cos as i128), UNIT as i128);
        Point { x: x as i32, y: y as i32, z: z as i32 }
    }

    /// Rotation by `a` about the x axis.
    pub fn rot_x(&self, a: &Angle) -> (p: Point)
        requires
            a.wf(),
            i32::MIN <= turn(self.y as int, self.z as int, *a) <= i32::MAX,
            i32::MIN <= turn(self.z as int, -self.y, *a) <= i32::MAX,
        ensures
            p.x == self.x,
            p.y == turn(self.y as int, self.z as int, *a),
            p.z == turn(self.z as int, -self.y, *a),
    {
        let y = turn_exec(self.y as i64, self.z as i64, a);
        let z = turn_exec(self.z as i64, -(self.y as i64), a);
        Point { x: self.x, y: y as i32, z: z as i32 }
    }

    /// Rotation by `a` about the y axis.
    pub fn rot_y(&self, a: &Angle) -> (p: Point)
        requires
            a.wf(),
            i32::MIN <= turn(self.x as int, -self.z, *a) <= i32::MAX,
            i32::MIN <= turn(self.z as int, self.x as int, *a) <= i32::MAX,
        ensures
            p.x == turn(self.x as int, -self.z, *a),
            p.y == self.y,
            p.z == turn(self.z as int, self.x as int, *a),
            p == rot_y_spec(*self, *a),
    {
        let x = turn_exec(self.x as i64, -(self.z as i64), a);
        let z = turn_exec(self.z as i64, self.x as i64, a);
        Point { x: x as i32, y: self.y, z: z as i32 }
    }

    /// Rotation by `a` about the z axis.
    pub fn rot_z(&self, a: &Angle) -> (p: Point)
        requires
            a.wf(),
            i32::MIN <= turn(self.x as int, self.y as int, *a) <= i32::MAX,
            i32::MIN <= turn(self.y as int, -self.x, *a) <= i32::MAX,
        ensures
            p.x == turn(self.x as int, self.y as int, *a),
            p.y == turn(self.y as int, -self.x, *a),
            p.z == self.z,
            p == rot_z_spec(*self, *a),
    {
        let x = turn_exec(self.x as i64, self.y as i64, a);
        let y = turn_exec(self.y as i64, -(self.x as i64), a);
        Point { x: x as i32, y: y as i32, z: self.z }
    }

    /// Componentwise sum.
    pub fn add(&self, other: &Point) -> (r: Point)
        requires
            i32::MIN <= self.x + other.x <= i32::MAX,
            i32::MIN <= self.y + other.y <= i32::MAX,
            i32::MIN <= self.z + other.z <= i32::MAX,
        ensures
            r.x == self.x + other.x,
            r.y == self.y + other.y,
            r.z == self.z + other.z,
    {
        Point { x: self.x + other.x, y: self.y + other.y, z: self.z + other.z }
    }
}

} // verus!
