//! The animated scene: a ring of spheres, tilted, then turned about the vertical axis.
use vstd::prelude::*;
use crate::animation::Animation;
use crate::canvas::{Canvas, Pixel, Sample, Setup, blank_pixel, frame_text, DEFAULT_LIGHT, DEFAULT_SCALE};
use crate::fixed::UNIT;
use crate::geometry::{Angle, Point, polar_spec, rot_y_spec, rot_z_spec, within, lemma_turn_bound};
use crate::sphere::{Sphere, is_direction};

verus! {

/// Distance of the spheres' centres from the axis of the ring: 1.5 units.
pub const RING_RADIUS: i32 = 98304;

/// Radius of each sphere of the ring: 0.8 units.
pub const SPHERE_RADIUS: i32 = 52429;

/// The angle zero.
pub open spec fn zero_angle() -> Angle {
    Angle { cos: 65536i32, sin: 0i32 }
}

/// Centre of the sphere placed at `place` on the ring, tilted by `tilt` about
/// the z axis and then turned by `rot` about the y axis.
pub open spec fn ring_center(place: Angle, tilt: Angle, rot: Angle) -> Point {
    rot_y_spec(rot_z_spec(polar_spec(RING_RADIUS as int, place, zero_angle()), tilt), rot)
}

/// The sphere placed at `place` on the turned ring.
pub open spec fn ring_sphere(place: Angle, tilt: Angle, rot: Angle) -> Sphere {
    Sphere { radius: SPHERE_RADIUS, pos: ring_center(place, tilt, rot) }
}

/// The samples of the spheres of the ring, sphere after sphere.
pub open spec fn ring_samples(places: Seq<Angle>, tilt: Angle, rot: Angle, dirs: Seq<Point>) -> Seq<Sample>
    decreases places.len(),
{
    if places.len() == 0 {
        Seq::empty()
    } else {
        ring_samples(places.drop_last(), tilt, rot, dirs) + ring_sphere(places.last(), tilt, rot).samples_spec(
            dirs,
        )
    }
}

/// Drawing two runs of samples one after the other is drawing their concatenation.
pub proof fn lemma_apply_concat(setup: Setup, pixels: Seq<Pixel>, a: Seq<Sample>, b: Seq<Sample>)
    ensures
        setup.apply_samples(pixels, a + b) == setup.apply_samples(setup.apply_samples(pixels, a), b),
    decreases b.len(),
{
    if b.len() == 0 {
        assert(a + b =~= a);
    } else {
        lemma_apply_concat(setup, pixels, a, b.drop_last());
        assert((a + b).drop_last() =~= a + b.drop_last());
    }
}

/// The centre of a sphere of the ring, computed with `Point`'s operations.
fn place_center(place: &Angle, tilt: &Angle, rot: &Angle) -> (p: Point)
    requires
        place.wf(),
        tilt.wf(),
        rot.wf(),
    ensures
        p == ring_center(*place, *tilt, *rot),
        within(p, 4 * RING_RADIUS),
{
    let zero = Angle { cos: 65536, sin: 0 };
    let c = Point::polar_at(RING_RADIUS, place, &zero);
    proof {
        lemma_turn_bound(c.x as int, c.y as int, *tilt, RING_RADIUS as int);
        lemma_turn_bound(c.y as int, -c.x, *tilt, RING_RADIUS as int);
    }
    let t = c.rot_z(tilt);
    proof {
        lemma_turn_bound(t.x as int, -t.z, *rot, 2 * RING_RADIUS);
        lemma_turn_bound(t.z as int, t.x as int, *rot, 2 * RING_RADIUS);
    }
    t.rot_y(rot)
}

/// Draws the ring of spheres placed at `places`, tilted by `tilt` and turned
/// by `rot`, each sphere sampled in the directions `dirs`.
pub fn draw_rotated_donut(canvas: &mut Canvas, places: &Vec<Angle>, tilt: &Angle, rot: &Angle, dirs: &Vec<Point>)
    requires
        old(canvas).wf(),
        tilt.wf(),
        rot.wf(),
        forall|i: int| 0 <= i < places@.len() ==> (#[trigger] places@[i]).wf(),
        forall|i: int| 0 <= i < dirs@.len() ==> is_direction(#[trigger] dirs@[i]),
    ensures
        final(canvas).wf(),
        final(canvas).same_setup(old(canvas)),
        final(canvas).pixels@ == old(canvas).setup().apply_samples(
            old(canvas).pixels@,
            ring_samples(places@, *tilt, *rot, dirs@),
        ),
{
    let mut i: usize = 0;
    while i < places.len()
        invariant
            i <= places@.len(),
            tilt.wf(),
            rot.wf(),
            forall|j: int| 0 <= j < places@.len() ==> (#[trigger] places@[j]).wf(),
            forall|j: int| 0 <= j < dirs@.len() ==> is_direction(#[trigger] dirs@[j]),
            canvas.wf(),
            canvas.same_setup(old(canvas)),
            canvas.pixels@ == old(canvas).setup().apply_samples(
                old(canvas).pixels@,
                ring_samples(places@.take(i as int), *tilt, *rot, dirs@),
            ),
        decreases places@.len() - i,
    {
        let pos = place_center(&places[i], tilt, rot);
        let s = Sphere { radius: SPHERE_RADIUS, pos };
        s.light(canvas, dirs);
        proof {
            let prev = ring_samples(places@.take(i as int), *tilt, *rot, dirs@);
            assert(places@.take(i + 1).drop_last() =~= places@.take(i as int));
            assert(places@.take(i + 1).last() == places@[i as int]);
            assert(s == ring_sphere(places@[i as int], *tilt, *rot));
            assert(ring_samples(places@.take(i + 1), *tilt, *rot, dirs@) == prev + s.samples_spec(dirs@));
            lemma_apply_concat(old(canvas).setup(), old(canvas).pixels@, prev, s.samples_spec(dirs@));
        }
        i = i + 1;
    }
    assert(places@.take(i as int) =~= places@);
}

/// The frame of the ring turned by `rot`, drawn on a fresh canvas of `setup`.
pub open spec fn ring_frame(
    setup: Setup,
    places: Seq<Angle>,
    tilt: Angle,
    rot: Angle,
    dirs: Seq<Point>,
) -> Seq<char> {
    let blank = Seq::new((setup.width * setup.height) as nat, |i: int| blank_pixel());
    frame_text(
        setup.apply_samples(blank, ring_samples(places, tilt, rot, dirs)),
        setup.width as nat,
        setup.height as nat,
    )
}

/// One frame per rotation in `rots`, in order: frame `k` shows the ring
/// turned by `rots[k]` on a fresh canvas of the given size seen from `site`.
pub fn render_animation(
    site: Point,
    width: usize,
    height: usize,
    places: &Vec<Angle>,
    tilt: &Angle,
    rots: &Vec<Angle>,
    dirs: &Vec<Point>,
) -> (r: Animation)
    requires
        width * height <= usize::MAX,
        tilt.wf(),
        forall|i: int| 0 <= i < rots@.len() ==> (#[trigger] rots@[i]).wf(),
        forall|i: int| 0 <= i < places@.len() ==> (#[trigger] places@[i]).wf(),
        forall|i: int| 0 <= i < dirs@.len() ==> is_direction(#[trigger] dirs@[i]),
    ensures
        r.frames@.len() == rots@.len(),
        forall|k: int|
            0 <= k < rots@.len() ==> (#[trigger] r.frames@[k])@ == ring_frame(
                Setup { site, scale: DEFAULT_SCALE, light: DEFAULT_LIGHT, width, height },
                places@,
                *tilt,
                rots@[k],
                dirs@,
            ) && r.frames@[k]@.len() == height * (width + 1),
{
    let ghost setup = Setup { site, scale: DEFAULT_SCALE, light: DEFAULT_LIGHT, width, height };
    let mut anim = Animation::new();
    let mut k: usize = 0;
    while k < rots.len()
        invariant
            k <= rots@.len(),
            width * height <= usize::MAX,
            setup == (Setup { site, scale: DEFAULT_SCALE, light: DEFAULT_LIGHT, width, height }),
            tilt.wf(),
            forall|i: int| 0 <= i < rots@.len() ==> (#[trigger] rots@[i]).wf(),
            forall|i: int| 0 <= i < places@.len() ==> (#[trigger] places@[i]).wf(),
            forall|i: int| 0 <= i < dirs@.len() ==> is_direction(#[trigger] dirs@[i]),
            anim.frames@.len() == k,
            forall|j: int|
                0 <= j < k ==> (#[trigger] anim.frames@[j])@ == ring_frame(setup, places@, *tilt, rots@[j], dirs@)
                    && anim.frames@[j]@.len() == height * (width + 1),
        decreases rots@.len() - k,
    {
        let mut canvas = Canvas::with_site_from(site, width, height);
        draw_rotated_donut(&mut canvas, places, tilt, &rots[k], dirs);
        let frame = canvas.show();
        assert(frame@ == ring_frame(setup, places@, *tilt, rots@[k as int], dirs@));
        anim.push(frame);
        k = k + 1;
    }
    anim
}

} // verus!
