//! Spheres, drawn as a cloud of surface samples.
use vstd::prelude::*;
use crate::canvas::{Canvas, Sample};
use crate::fixed::{UNIT, round_div, div_round, lemma_round_div_bound};
use crate::geometry::Point;

verus! {

/// A sphere; radius and centre in fixed-point units.
#[derive(Clone, Copy, Debug, PartialEq, Eq, Structural)]
pub struct Sphere {
    pub radius: i32,
    pub pos: Point,
}

/// A direction of unit length or less: each coordinate at most one whole unit.
pub open spec fn is_direction(d: Point) -> bool {
    &&& -UNIT <= d.x <= UNIT
    &&& -UNIT <= d.y <= UNIT
    &&& -UNIT <= d.z <= UNIT
}

/// `radius` times the fixed-point coordinate `c`, rounded.
pub open spec fn scaled(radius: int, c: int) -> int {
    round_div(radius * c, UNIT as int)
}

impl Sphere {
    /// The radius is not negative and every point of the sphere, rounding
    /// included, has coordinates that fit an `i32`.
    pub open spec fn wf(&self) -> bool {
        &&& 0 <= self.radius < 0x4000_0000
        &&& i32::MIN < self.pos.x - self.radius - 1
        &&& self.pos.x + self.radius + 1 < i32::MAX
        &&& i32::MIN < self.pos.y - self.radius - 1
        &&& self.pos.y + self.radius + 1 < i32::MAX
        &&& i32::MIN < self.pos.z - self.radius - 1
        &&& self.pos.z + self.radius + 1 < i32::MAX
    }

    /// The sample of the surface in direction `d` from the centre: the normal
    /// is `d` scaled by the radius, the point is the centre plus the normal.
    pub open spec fn sample_spec(&self, d: Point) -> Sample {
        let n = Point {
            x: scaled(self.radius as int, d.x as int) as i32,
            y: scaled(self.radius as int, d.y as int) as i32,
            z: scaled(self.radius as int, d.z as int) as i32,
        };
        Sample {
            point: Point {
                x: (self.pos.x + n.x) as i32,
                y: (self.pos.y + n.y) as i32,
                z: (self.pos.z + n.z) as i32,
            },
            normal: n,
        }
    }

    /// The samples for the given directions, in order.
    pub open spec fn samples_spec(&self, dirs: Seq<Point>) -> Seq<Sample> {
        dirs.map_values(|d: Point| self.sample_spec(d))
    }

    /// The sample of the surface in direction `d` from the centre.
    pub fn sample(&self, d: &Point) -> (r: Sample)
        requires
            self.wf(),
            is_direction(*d),
        ensures
            r == self.sample_spec(*d),
            r.normal.x == scaled(self.radius as int, d.x as int),
            r.normal.y == scaled(self.radius as int, d.y as int),
            r.normal.z == scaled(self.radius as int, d.z as int),
            r.point.x == self.pos.x + r.normal.x,
            r.point.y == self.pos.y + r.normal.y,
            r.point.z == self.pos.z + r.normal.z,
    {
        let nx = scale_coord(self.radius, d.x);
        let ny = scale_coord(self.radius, d.y);
        let nz = scale_coord(self.radius, d.z);
        let n = Point { x: nx, y: ny, z: nz };
        Sample { point: Point { x: self.pos.x + nx, y: self.pos.y + ny, z: self.pos.z + nz }, normal: n }
    }

    /// Draws the surface samples in the given directions, in order.
    pub fn light(&self, canvas: &mut Canvas, dirs: &Vec<Point>)
        requires
            self.wf(),
            old(canvas).wf(),
            forall|i: int| 0 <= i < dirs@.len() ==> is_direction(#[trigger] dirs@[i]),
        ensures
            final(canvas).wf(),
            final(canvas).same_setup(old(canvas)),
            final(canvas).pixels@ == old(canvas).setup().apply_samples(old(canvas).pixels@, self.samples_spec(dirs@)),
    {
        let ghost all = self.samples_spec(dirs@);
        let mut i: usize = 0;
        while i < dirs.len()
            invariant
                self.wf(),
                i <= dirs@.len(),
                all == self.samples_spec(dirs@),
                forall|j: int| 0 <= j < dirs@.len() ==> is_direction(#[trigger] dirs@[j]),
                canvas.wf(),
                canvas.same_setup(old(canvas)),
                canvas.pixels@ == old(canvas).setup().apply_samples(old(canvas).pixels@, all.take(i as int)),
            decreases dirs@.len() - i,
        {
            let s = self.sample(&dirs[i]);
            canvas.draw_sample(&s);
            assert(all.take(i + 1).drop_last() =~= all.take(i as int));
            i = i + 1;
        }
        assert(all.take(i as int) =~= all);
    }
}

/// `radius` times the fixed-point coordinate `c`, rounded; within `radius + 1` of zero.
fn scale_coord(radius: i32, c: i32) -> (r: i32)
    requires
        0 <= radius < 0x4000_0000,
        -UNIT <= c <= UNIT,
    ensures
        r == scaled(radius as int, c as int),
        -radius - 1 <= r <= radius + 1,
{
    proof {
        assert(-0x4000_0000 * UNIT <= radius * c <= 0x4000_0000 * UNIT) by (nonlinear_arith)
            requires
                0 <= radius < 0x4000_0000,
                -UNIT <= c <= UNIT,
        ;
        let n = radius * c;
        lemma_round_div_bound(n, UNIT as int);
        assert(-radius * UNIT <= n <= radius * UNIT) by (nonlinear_arith)
            requires
                0 <= radius,
                -UNIT <= c <= UNIT,
                n == radius * c,
        ;
    }
    let q = div_round((radius as i128) * (c as i128), UNIT as i128);
    q as i32
}

} // verus!
