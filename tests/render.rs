use donut::animation::{rotation_step, Animation};
use donut::canvas::{Canvas, Pixel, Sample, DEFAULT_LIGHT, DEFAULT_SCALE, FAR};
use donut::fixed::{div_round, UNIT};
use donut::geometry::{Angle, Point};
use donut::scene::{draw_rotated_donut, render_animation, RING_RADIUS, SPHERE_RADIUS};
use donut::shade::{palette_char, shade_char, shade_index, PALETTE_LEN};
use donut::sphere::Sphere;

const RAMP: &str = " .'`^\",:;Il!i><~+_-?][}{1)(|\\/tfjrxnuvczXYUJCLQ0OZmwqpdbkhao*#MW&8%B@$";

fn unit(v: f64) -> i32 {
    (v * UNIT as f64).round() as i32
}

fn directions(steps: usize) -> Vec<Point> {
    let mut dirs = Vec::new();
    for i in 0..steps {
        for j in 0..steps {
            let phi = std::f64::consts::PI / steps as f64 * i as f64;
            let theta = 2.0 * std::f64::consts::PI / steps as f64 * j as f64;
            dirs.push(Point::polar_at(UNIT as i32, &angle(phi), &angle(theta)));
        }
    }
    dirs
}

fn angle(theta: f64) -> Angle {
    Angle { cos: unit(theta.cos()), sin: unit(theta.sin()) }
}

fn camera() -> Point {
    Point::at(0, 0, unit(-5.0))
}

fn sample(point: Point, normal: Point) -> Sample {
    Sample { point, normal }
}

#[test]
fn palette_is_the_ramp() {
    let ramp: Vec<char> = RAMP.chars().collect();
    assert_eq!(ramp.len(), PALETTE_LEN);
    for i in 0..PALETTE_LEN {
        assert_eq!(palette_char(i), ramp[i]);
    }
}

#[test]
fn shade_exact_values() {
    assert_eq!(shade_char(0), ' ');
    assert_eq!(shade_char(UNIT / 2), 'n');
    assert_eq!(shade_index(UNIT / 2), 35);
    assert_eq!(shade_index(468), 0);
    assert_eq!(shade_index(469), 1);
    assert_eq!(shade_char(UNIT), '$');
}

#[test]
fn shade_is_total() {
    for l in [i64::MIN, -UNIT, -1, 0, 1, UNIT, 100 * UNIT, i64::MAX] {
        assert!(shade_index(l) < PALETTE_LEN);
        assert!(RAMP.contains(shade_char(l)));
    }
    assert_eq!(shade_char(-5 * UNIT), ' ');
    assert_eq!(shade_char(i64::MAX), '$');
}

#[test]
fn shade_is_monotonic() {
    let mut last = 0;
    let mut l = -UNIT;
    while l <= 2 * UNIT {
        let i = shade_index(l);
        assert!(i >= last);
        last = i;
        l += 97;
    }
    assert_eq!(last, PALETTE_LEN - 1);
}

#[test]
fn div_round_halves_away_from_zero() {
    assert_eq!(div_round(7, 2), 4);
    assert_eq!(div_round(-7, 2), -4);
    assert_eq!(div_round(5, 3), 2);
    assert_eq!(div_round(-4, 3), -1);
    assert_eq!(div_round(0, 9), 0);
}

#[test]
fn point_arithmetic() {
    let a = Point::at(1, 2, 3);
    let b = Point::at(-4, 5, 6);
    assert_eq!(a.add(&b), Point::at(-3, 7, 9));
    assert_eq!(a.dot(&b), 24);
}

#[test]
fn fresh_canvas_is_blank() {
    let c = Canvas::with_site_from(camera(), 4, 2);
    assert_eq!(c.scale, DEFAULT_SCALE);
    assert_eq!(c.light, DEFAULT_LIGHT);
    assert_eq!(c.pixels.len(), 8);
    assert!(c.pixels.iter().all(|p| *p == Pixel { light: 0, depth: FAR }));
    let text = c.show();
    assert_eq!(text, "    \n    \n");
    let big = Canvas::with_site_from(camera(), 13, 7);
    let text = big.show();
    assert_eq!(text.chars().count(), 7 * (13 + 1));
    assert!(text.chars().all(|ch| ch == ' ' || ch == '\n'));
}

#[test]
fn empty_canvas_shows_nothing() {
    assert_eq!(Canvas::with_site_from(camera(), 0, 0).show(), "");
    assert_eq!(Canvas::with_site_from(camera(), 0, 3).show(), "\n\n\n");
}

#[test]
fn projection_centres_and_halves_rows() {
    let c = Canvas::with_site_from(camera(), 80, 40);
    assert_eq!(c.project(&Point::at(0, 0, -(UNIT as i32))), Some((40, 20)));
    assert_eq!(c.project(&Point::at(UNIT as i32, 0, 0)), Some((70, 20)));
    assert_eq!(c.project(&Point::at(0, UNIT as i32, 0)), Some((40, 35)));
    assert_eq!(c.project(&Point::at(-(UNIT as i32), -(UNIT as i32), 0)), Some((10, 5)));
}

#[test]
fn projection_discards_degenerate_and_outside_points() {
    let c = Canvas::with_site_from(camera(), 80, 40);
    assert_eq!(c.project(&Point::at(0, 0, unit(-5.0))), None);
    assert_eq!(c.project(&Point::at(unit(10.0), 0, 0)), None);
    assert_eq!(c.project(&Point::at(0, unit(-10.0), 0)), None);
}

#[test]
fn light_follows_the_normal() {
    let c = Canvas::with_site_from(camera(), 8, 8);
    assert_eq!(c.light_at(&Point::at(0, 0, -(UNIT as i32))), 2 * UNIT);
    assert_eq!(c.light_at(&Point::at(UNIT as i32, 0, 0)), -2 * UNIT);
    assert_eq!(c.light_at(&Point::at(0, 0, 0)), 0);
    assert_eq!(c.light_at(&Point::at(-1, -1, 0)), 4);
}

#[test]
fn nearest_sample_wins_in_either_order() {
    let near = sample(Point::at(0, 0, -(UNIT as i32)), Point::at(0, 0, -(UNIT as i32)));
    let far = sample(Point::at(0, 0, UNIT as i32), Point::at(UNIT as i32, 0, 0));
    let mut a = Canvas::with_site_from(camera(), 9, 5);
    a.draw_sample(&near);
    a.draw_sample(&far);
    let mut b = Canvas::with_site_from(camera(), 9, 5);
    b.draw_sample(&far);
    b.draw_sample(&near);
    assert_eq!(a.pixels, b.pixels);
    let k = 2 * 9 + 4;
    assert_eq!(a.pixels[k], Pixel { light: 2 * UNIT, depth: -UNIT });
    assert_eq!(a.show(), b.show());
}

#[test]
fn equal_depth_keeps_the_first() {
    let first = sample(Point::at(0, 0, 0), Point::at(0, 0, -(UNIT as i32)));
    let second = sample(Point::at(0, 0, 0), Point::at(UNIT as i32, 0, 0));
    let mut c = Canvas::with_site_from(camera(), 9, 5);
    c.draw(&vec![first, second]);
    assert_eq!(c.pixels[2 * 9 + 4], Pixel { light: 2 * UNIT, depth: 0 });
}

#[test]
fn sphere_samples_scale_by_radius() {
    let s = Sphere { radius: unit(0.8), pos: Point::at(unit(1.0), 0, 0) };
    let smp = s.sample(&Point::at(0, 0, UNIT as i32));
    assert_eq!(smp.normal, Point::at(0, 0, 52429));
    assert_eq!(smp.point, Point::at(UNIT as i32, 0, 52429));
    let smp = s.sample(&Point::at(-(UNIT as i32) / 2, 0, 0));
    assert_eq!(smp.normal, Point::at(-26215, 0, 0));
}

fn render_unit_sphere(width: usize, height: usize) -> String {
    let mut c = Canvas::with_site_from(camera(), width, height);
    let s = Sphere { radius: UNIT as i32, pos: Point::at(0, 0, 0) };
    s.light(&mut c, &directions(300));
    c.show()
}

#[test]
fn same_sphere_same_frame() {
    assert_eq!(render_unit_sphere(60, 30), render_unit_sphere(60, 30));
}

#[test]
fn unit_sphere_end_to_end() {
    let text = render_unit_sphere(100, 50);
    let rows: Vec<Vec<char>> = text.lines().map(|l| l.chars().collect()).collect();
    assert_eq!(rows.len(), 50);
    assert!(rows.iter().all(|r| r.len() == 100));
    // The sphere fills the centre and leaves the corners empty.
    assert_ne!(rows[25][50], ' ');
    assert_eq!(rows[0][0], ' ');
    assert_eq!(rows[49][99], ' ');
    assert_eq!(rows[25][0], ' ');
    // Light comes from the upper left, towards the camera: the upper left of
    // the disc is brighter than its lower right.
    let ramp: Vec<char> = RAMP.chars().collect();
    let pos = |ch: char| ramp.iter().position(|r| *r == ch).unwrap();
    assert!(pos(rows[18][38]) > pos(rows[32][62]));
    // The disc spans about 150 / 4 columns each side of the centre.
    assert_ne!(rows[25][50 - 25], ' ');
    assert_eq!(rows[25][50 - 40], ' ');
}

#[test]
fn animation_cycles() {
    let mut anim = Animation::new();
    let n: usize = 120;
    for k in 0..n {
        anim.push(format!("frame {}", rotation_step(k, n)));
    }
    assert_eq!(anim.len(), 120);
    assert_eq!(rotation_step(120, 120), rotation_step(0, 120));
    assert_eq!(rotation_step(121, 120), 1);
    assert_eq!(anim.frame_at(0), "frame 0");
    assert_eq!(anim.frame_at(120), "frame 0");
    assert_eq!(anim.frame_at(245), "frame 5");
    assert_eq!(anim.next_tick(118), 119);
    assert_eq!(anim.next_tick(119), 0);
}

#[test]
fn rotations_quarter_turn() {
    let u = UNIT as i32;
    let quarter = Angle { cos: 0, sin: u };
    assert_eq!(Point::at(u, 0, 0).rot_z(&quarter), Point::at(0, u, 0));
    assert_eq!(Point::at(0, u, 0).rot_x(&quarter), Point::at(0, 0, u));
    assert_eq!(Point::at(0, 0, u).rot_y(&quarter), Point::at(u, 0, 0));
    let none = Angle { cos: u, sin: 0 };
    assert_eq!(Point::at(3, -7, 11).rot_y(&none), Point::at(3, -7, 11));
}

#[test]
fn rotation_rounds() {
    let half = Angle { cos: UNIT as i32 / 2, sin: 0 };
    assert_eq!(Point::at(3, 0, 0).rot_z(&half), Point::at(2, 0, 0));
    assert_eq!(Point::at(-3, 0, 0).rot_z(&half), Point::at(-2, 0, 0));
}

#[test]
fn polar_coordinates() {
    let u = UNIT as i32;
    let right = Angle { cos: 0, sin: u };
    let zero = Angle { cos: u, sin: 0 };
    assert_eq!(Point::polar_at(u, &right, &zero), Point::at(u, 0, 0));
    assert_eq!(Point::polar_at(u, &right, &right), Point::at(0, u, 0));
    assert_eq!(Point::polar_at(2 * u, &zero, &right), Point::at(0, 0, 2 * u));
    assert_eq!(Point::polar_at(RING_RADIUS, &right, &zero), Point::at(98304, 0, 0));
}

fn ring_places() -> Vec<Angle> {
    (0..8).map(|m| angle(2.0 * std::f64::consts::PI / 8.0 * m as f64)).collect()
}

#[test]
fn ring_draws_every_sphere() {
    let dirs = directions(40);
    let mut c = Canvas::with_site_from(camera(), 80, 40);
    draw_rotated_donut(&mut c, &ring_places(), &angle(1.0), &angle(0.0), &dirs);
    let mut d = Canvas::with_site_from(camera(), 80, 40);
    for p in ring_places() {
        let zero = Angle { cos: UNIT as i32, sin: 0 };
        let pos = Point::polar_at(RING_RADIUS, &p, &zero).rot_z(&angle(1.0)).rot_y(&angle(0.0));
        Sphere { radius: SPHERE_RADIUS, pos }.light(&mut d, &dirs);
    }
    assert_eq!(c.pixels, d.pixels);
    assert!(c.show().chars().any(|ch| ch != ' ' && ch != '\n'));
}

#[test]
fn animation_of_full_turn() {
    let n: usize = 6;
    let rots: Vec<Angle> =
        (0..=n).map(|k| angle(2.0 * std::f64::consts::PI / n as f64 * rotation_step(k, n) as f64)).collect();
    let dirs = directions(30);
    let anim = render_animation(camera(), 40, 20, &ring_places(), &angle(1.0), &rots, &dirs);
    assert_eq!(anim.len(), n + 1);
    assert_eq!(anim.frames[0], anim.frames[n]);
    assert_ne!(anim.frames[0], anim.frames[1]);
    for f in &anim.frames {
        assert_eq!(f.chars().count(), 20 * 41);
    }
    let mut c = Canvas::with_site_from(camera(), 40, 20);
    draw_rotated_donut(&mut c, &ring_places(), &angle(1.0), &rots[2], &dirs);
    assert_eq!(anim.frames[2], c.show());
}
