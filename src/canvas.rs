//! The canvas: a grid of pixels holding depth and light, filled by projecting
//! surface samples through a perspective camera and serialised to text.
use vstd::prelude::*;
use crate::fixed::{UNIT, DIV_BOUND, round_div, div_round, lemma_round_div_bound};
use crate::geometry::{Point, lemma_i32_product};
use crate::shade::{shade_char, shade_level, palette_at};

verus! {

/// Depth of a pixel that nothing has been drawn on: farther than any surface point.
pub const FAR: i64 = 0x7fff_ffff_ffff_ffff;

/// Focal scale of a canvas made by `Canvas::with_site_from`, in pixels per unit.
pub const DEFAULT_SCALE: i32 = 150;

/// Light intensity of a canvas made by `Canvas::with_site_from`: two whole units.
pub const DEFAULT_LIGHT: i32 = 131072;

/// One cell of the canvas: the light and depth of the nearest surface point seen there.
#[derive(Clone, Copy, Debug, PartialEq, Eq, Structural)]
pub struct Pixel {
    pub light: i64,
    pub depth: i64,
}

/// The pixel of a fresh canvas: no light, infinitely far.
pub open spec fn blank_pixel() -> Pixel {
    Pixel { light: 0, depth: FAR }
}

/// The character that shows a pixel.
pub open spec fn pixel_char(p: Pixel) -> char {
    palette_at(shade_level(p.light as int) as usize)
}

impl Pixel {
    /// The character that shows this pixel.
    pub fn to_char(&self) -> (r: char)
        ensures
            r == pixel_char(*self),
    {
        shade_char(self.light)
    }
}

/// A point on a surface, in world coordinates, with its outward normal.
#[derive(Clone, Copy, Debug, PartialEq, Eq, Structural)]
pub struct Sample {
    pub point: Point,
    pub normal: Point,
}

/// Direction of the light, from the light source towards the origin: (-1, -1, -1).
pub open spec fn light_dir() -> Point {
    Point { x: -65536i32, y: -65536i32, z: -65536i32 }
}

/// Characters of row `row` of a grid `width` pixels wide.
pub open spec fn row_text(pixels: Seq<Pixel>, width: nat, row: nat) -> Seq<char> {
    Seq::new(width, |c: int| pixel_char(pixels[row * width + c]))
}

/// The first `rows` rows of a grid `width` pixels wide, each followed by a line break.
pub open spec fn frame_text(pixels: Seq<Pixel>, width: nat, rows: nat) -> Seq<char>
    decreases rows,
{
    if rows == 0 {
        Seq::empty()
    } else {
        frame_text(pixels, width, (rows - 1) as nat) + row_text(pixels, width, (rows - 1) as nat)
            + seq!['\n']
    }
}

/// A frame of `rows` rows holds `width + 1` characters per row.
pub proof fn lemma_frame_len(pixels: Seq<Pixel>, width: nat, rows: nat)
    ensures
        frame_text(pixels, width, rows).len() == rows * (width + 1),
    decreases rows,
{
    if rows > 0 {
        let prev = (rows - 1) as nat;
        lemma_frame_len(pixels, width, prev);
        assert(prev * (width + 1) + width + 1 == rows * (width + 1)) by (nonlinear_arith)
            requires
                prev + 1 == rows,
        ;
        assert(row_text(pixels, width, prev).len() == width);
        assert(frame_text(pixels, width, rows) == frame_text(pixels, width, prev) + row_text(
            pixels,
            width,
            prev,
        ) + seq!['\n']);
    } else {
        assert(rows * (width + 1) == 0) by (nonlinear_arith)
            requires
                rows == 0,
        ;
    }
}

/// What decides how samples are drawn: camera, focal scale, light and size.
#[derive(Clone, Copy, Debug, PartialEq, Eq, Structural)]
pub struct Setup {
    pub site: Point,
    pub scale: i32,
    pub light: i32,
    pub width: usize,
    pub height: usize,
}

impl Setup {
    /// The pixel (column, row) that a world point lands on, or `None` where it
    /// lies in the camera's depth plane or falls outside the grid.
    /// The horizontal offset is `x / dz * scale`, the vertical one half of
    /// `y / dz * scale`, each rounded, and both are counted from the centre.
    pub open spec fn project_spec(&self, p: Point) -> Option<(int, int)> {
        let dz = p.z - self.site.z;
        if dz == 0 {
            None
        } else {
            let nx = if dz > 0 { p.x * self.scale } else { -(p.x * self.scale) };
            let ny = if dz > 0 { p.y * self.scale } else { -(p.y * self.scale) };
            let d = if dz > 0 { dz } else { -dz };
            let col = round_div(nx, d) + self.width / 2;
            let row = round_div(ny, 2 * d) + self.height / 2;
            if 0 <= col < self.width && 0 <= row < self.height {
                Some((col, row))
            } else {
                None
            }
        }
    }

    /// Light of a surface point with the given normal: the scalar product of
    /// the normal with the light direction, times the intensity.
    pub open spec fn light_of(&self, normal: Point) -> int {
        round_div(normal.dot_spec(light_dir()) * self.light, UNIT * UNIT)
    }

    /// The grid after one sample: where it lands on a pixel and is nearer than
    /// what that pixel holds, the pixel takes its light and depth.
    pub open spec fn apply_sample(&self, pixels: Seq<Pixel>, s: Sample) -> Seq<Pixel> {
        match self.project_spec(s.point) {
            None => pixels,
            Some((c, r)) => {
                let k = r * self.width + c;
                if s.point.z < pixels[k].depth {
                    pixels.update(k, Pixel { light: self.light_of(s.normal) as i64, depth: s.point.z as i64 })
                } else {
                    pixels
                }
            },
        }
    }

    /// The grid after the samples, in order.
    pub open spec fn apply_samples(&self, pixels: Seq<Pixel>, samples: Seq<Sample>) -> Seq<Pixel>
        decreases samples.len(),
    {
        if samples.len() == 0 {
            pixels
        } else {
            self.apply_sample(self.apply_samples(pixels, samples.drop_last()), samples.last())
        }
    }

}

/// A grid of pixels seen from a camera at `site`.
pub struct Canvas {
    /// Camera position.
    pub site: Point,
    /// Focal scale, in pixels per unit.
    pub scale: i32,
    /// Light intensity, in fixed-point units.
    pub light: i32,
    pub width: usize,
    pub height: usize,
    /// Row-major: the pixel of column `c` and row `r` is at `r * width + c`.
    pub pixels: Vec<Pixel>,
}

/// Relies on std's `String::push`: appends one character at the end.
#[verifier::external_body]
fn push_char(s: &mut String, c: char)
    ensures
        final(s)@ == old(s)@.push(c),
{
    s.push(c)
}

/// The pixel of column `c` and row `r` lies within a grid of `width` by `height`.
pub proof fn lemma_cell_index(r: int, c: int, width: int, height: int)
    requires
        0 <= r < height,
        0 <= c < width,
    ensures
        0 <= r * width + c < width * height,
        r * width + c <= width * height - 1,
        r * width <= width * height,
{
    assert(0 <= r * width + c < width * height) by (nonlinear_arith)
        requires
            0 <= r < height,
            0 <= c < width,
    ;
    assert(r * width <= width * height) by (nonlinear_arith)
        requires
            0 <= r < height,
            0 <= width,
    ;
}

impl Canvas {
    /// Camera, focal scale, light and size of the canvas.
    pub open spec fn setup(&self) -> Setup {
        Setup {
            site: self.site,
            scale: self.scale,
            light: self.light,
            width: self.width,
            height: self.height,
        }
    }

    /// `other` has the same camera, light and size as `self`.
    pub open spec fn same_setup(&self, other: &Canvas) -> bool {
        &&& self.site == other.site
        &&& self.scale == other.scale
        &&& self.light == other.light
        &&& self.width == other.width
        &&& self.height == other.height
    }

    /// The grid holds one pixel for each column and row.
    pub open spec fn wf(&self) -> bool {
        self.pixels@.len() == self.width * self.height
    }

    /// A canvas of `width` by `height` blank pixels.
    pub fn new(site: Point, scale: i32, light: i32, width: usize, height: usize) -> (r: Canvas)
        requires
            width * height <= usize::MAX,
        ensures
            r.wf(),
            r.site == site,
            r.scale == scale,
            r.light == light,
            r.width == width,
            r.height == height,
            r.pixels@ == Seq::new((width * height) as nat, |i: int| blank_pixel()),
    {
        let n: usize = width * height;
        let mut pixels: Vec<Pixel> = Vec::with_capacity(n);
        let mut i: usize = 0;
        while i < n
            invariant
                i <= n,
                pixels@ == Seq::new(i as nat, |j: int| blank_pixel()),
            decreases n - i,
        {
            pixels.push(Pixel { light: 0, depth: FAR });
            i = i + 1;
        }
        Canvas { site, scale, light, width, height, pixels }
    }

    /// A blank canvas with focal scale 150 and light intensity 2, seen from `at`.
    pub fn with_site_from(at: Point, width: usize, height: usize) -> (r: Canvas)
        requires
            width * height <= usize::MAX,
        ensures
            r.wf(),
            r.site == at,
            r.scale == DEFAULT_SCALE,
            r.light == DEFAULT_LIGHT,
            r.width == width,
            r.height == height,
            r.pixels@ == Seq::new((width * height) as nat, |i: int| blank_pixel()),
    {
        Canvas::new(at, DEFAULT_SCALE, DEFAULT_LIGHT, width, height)
    }

    /// The pixel (column, row) that a world point lands on; `None` where the
    /// point lies in the camera's depth plane or outside the grid.
    pub fn project(&self, p: &Point) -> (r: Option<(usize, usize)>)
        ensures
            r is None <==> self.setup().project_spec(*p) is None,
            r matches Some((c, w)) ==> self.setup().project_spec(*p) == Some((c as int, w as int)),
    {
        let dz: i64 = p.z as i64 - self.site.z as i64;
        if dz == 0 {
            return None;
        }
        proof {
            lemma_i32_product(p.x as int, self.scale as int);
            lemma_i32_product(p.y as int, self.scale as int);
        }
        let s = self.scale as i128;
        let nx: i128 = if dz > 0 { (p.x as i128) * s } else { -((p.x as i128) * s) };
        let ny: i128 = if dz > 0 { (p.y as i128) * s } else { -((p.y as i128) * s) };
        let d: i128 = if dz > 0 { dz as i128 } else { -(dz as i128) };
        let ox = div_round(nx, d);
        let oy = div_round(ny, 2 * d);
        proof {
            lemma_round_div_bound(nx as int, d as int);
            lemma_round_div_bound(ny as int, 2 * d as int);
        }
        let col: i128 = ox + (self.width / 2) as i128;
        let row: i128 = oy + (self.height / 2) as i128;
        if 0 <= col && col < self.width as i128 && 0 <= row && row < self.height as i128 {
            Some((col as usize, row as usize))
        } else {
            None
        }
    }

    /// Light of a surface point with the given normal, in fixed-point units.
    pub fn light_at(&self, normal: &Point) -> (r: i64)
        ensures
            r == self.setup().light_of(*normal),
    {
        let dir = Point::at(-65536, -65536, -65536);
        let dot = normal.dot(&dir);
        proof {
            let sum = normal.x + normal.y + normal.z;
            assert(dot == -65536 * sum);
            assert(-0x6_0000_0000_0000_0000_0000 <= dot * self.light <= 0x6_0000_0000_0000_0000_0000)
                by (nonlinear_arith)
                requires
                    dot == -65536 * sum,
                    -0x1_8000_0000 <= sum <= 0x1_8000_0000,
                    -0x8000_0000 <= self.light <= 0x8000_0000,
            ;
        }
        let n: i128 = dot * (self.light as i128);
        let d: i128 = 0x1_0000_0000;
        assert(d == UNIT * UNIT);
        proof {
            lemma_round_div_bound(n as int, d as int);
        }
        let l = div_round(n, d);
        l as i64
    }

    /// Draws one sample: where it lands on a pixel nearer than what that pixel
    /// holds, the pixel takes its light and depth; otherwise nothing changes.
    pub fn draw_sample(&mut self, s: &Sample)
        requires
            old(self).wf(),
        ensures
            final(self).wf(),
            final(self).same_setup(old(self)),
            final(self).pixels@ == old(self).setup().apply_sample(old(self).pixels@, *s),
    {
        match self.project(&s.point) {
            None => {},
            Some((c, r)) => {
                // The grid's length, a `usize`, bounds the index computed below.
                let _cells = self.pixels.len();
                proof {
                    lemma_cell_index(r as int, c as int, self.width as int, self.height as int);
                }
                let k = r * self.width + c;
                if (s.point.z as i64) < self.pixels[k].depth {
                    let l = self.light_at(&s.normal);
                    self.pixels.set(k, Pixel { light: l, depth: s.point.z as i64 });
                }
            },
        }
    }

    /// Draws the samples in order.
    pub fn draw(&mut self, samples: &Vec<Sample>)
        requires
            old(self).wf(),
        ensures
            final(self).wf(),
            final(self).same_setup(old(self)),
            final(self).pixels@ == old(self).setup().apply_samples(old(self).pixels@, samples@),
    {
        let mut i: usize = 0;
        while i < samples.len()
            invariant
                i <= samples@.len(),
                self.wf(),
                self.same_setup(old(self)),
                self.pixels@ == old(self).setup().apply_samples(old(self).pixels@, samples@.take(i as int)),
            decreases samples@.len() - i,
        {
            self.draw_sample(&samples[i]);
            assert(samples@.take(i + 1).drop_last() =~= samples@.take(i as int));
            i = i + 1;
        }
        assert(samples@.take(i as int) =~= samples@);
    }

    /// The frame: each row of pixels as characters, each row followed by a line break.
    pub fn show(&self) -> (r: String)
        requires
            self.wf(),
        ensures
            r@ == frame_text(self.pixels@, self.width as nat, self.height as nat),
            r@.len() == self.height * (self.width + 1),
    {
        let ghost px = self.pixels@;
        let ghost w = self.width as nat;
        // The grid's length, a `usize`, bounds the indices computed below.
        let n = self.pixels.len();
        let mut buffer = String::new();
        let mut row: usize = 0;
        while row < self.height
            invariant
                self.wf(),
                n == px.len(),
                px == self.pixels@,
                w == self.width,
                row <= self.height,
                buffer@ == frame_text(px, w, row as nat),
            decreases self.height - row,
        {
            let mut col: usize = 0;
            while col < self.width
                invariant
                    self.wf(),
                    n == px.len(),
                    px == self.pixels@,
                    w == self.width,
                    row < self.height,
                    col <= self.width,
                    buffer@ == frame_text(px, w, row as nat) + row_text(px, w, row as nat).take(col as int),
                decreases self.width - col,
            {
                proof {
                    lemma_cell_index(row as int, col as int, self.width as int, self.height as int);
                }
                let k = row * self.width + col;
                let ch = self.pixels[k].to_char();
                push_char(&mut buffer, ch);
                assert(row_text(px, w, row as nat).take(col + 1) =~= row_text(px, w, row as nat).take(
                    col as int,
                ).push(ch));
                col = col + 1;
            }
            push_char(&mut buffer, '\n');
            assert(row_text(px, w, row as nat).take(col as int) =~= row_text(px, w, row as nat));
            row = row + 1;
        }
        proof {
            lemma_frame_len(px, w, self.height as nat);
        }
        buffer
    }
}

} // verus!

verus! {

/// Of two samples that land on the same pixel, the nearer one decides the
/// pixel, whichever is drawn first (provided the pixel held nothing nearer).
pub proof fn lemma_nearest_wins(
    setup: Setup,
    pixels: Seq<Pixel>,
    near: Sample,
    far: Sample,
    col: int,
    row: int,
)
    requires
        pixels.len() == setup.width * setup.height,
        setup.project_spec(near.point) == Some((col, row)),
        setup.project_spec(far.point) == Some((col, row)),
        near.point.z < far.point.z,
        near.point.z < pixels[row * setup.width + col].depth,
    ensures
        setup.apply_sample(setup.apply_sample(pixels, near), far) == setup.apply_sample(
            setup.apply_sample(pixels, far),
            near,
        ),
        setup.apply_sample(setup.apply_sample(pixels, near), far) == pixels.update(
            row * setup.width + col,
            Pixel { light: setup.light_of(near.normal) as i64, depth: near.point.z as i64 },
        ),
{
    lemma_cell_index(row, col, setup.width as int, setup.height as int);
    let k = row * setup.width + col;
    let won = Pixel { light: setup.light_of(near.normal) as i64, depth: near.point.z as i64 };
    let a = setup.apply_sample(pixels, near);
    assert(a == pixels.update(k, won));
    assert(setup.apply_sample(a, far) == a);
    let b = setup.apply_sample(pixels, far);
    if far.point.z < pixels[k].depth {
        assert(b[k].depth == far.point.z);
        assert(setup.apply_sample(b, near) =~= pixels.update(k, won));
    } else {
        assert(setup.apply_sample(b, near) == pixels.update(k, won));
    }
}

/// The grid after a sequence of samples depends only on the camera, light,
/// size and starting grid of the canvas.
pub proof fn lemma_samples_deterministic(a: &Canvas, b: &Canvas, pixels: Seq<Pixel>, samples: Seq<Sample>)
    requires
        a.same_setup(b),
    ensures
        a.setup().apply_samples(pixels, samples) == b.setup().apply_samples(pixels, samples),
{
}

/// Drawing the same samples into two fresh canvases of the same setup gives
/// the same frame.
pub proof fn lemma_render_deterministic(a: &Canvas, b: &Canvas, samples: Seq<Sample>)
    requires
        a.same_setup(b),
        a.pixels@ == b.pixels@,
    ensures
        frame_text(a.setup().apply_samples(a.pixels@, samples), a.width as nat, a.height as nat) == frame_text(
            b.setup().apply_samples(b.pixels@, samples),
            b.width as nat,
            b.height as nat,
        ),
{
    lemma_samples_deterministic(a, b, a.pixels@, samples);
}

/// The text of a grid in which nothing was drawn: background characters, a
/// line break closing each row, `height * (width + 1)` characters in all.
pub open spec fn blank_text(width: nat, height: nat) -> Seq<char> {
    Seq::new(height * (width + 1), |i: int| if i % ((width + 1) as int) == width as int { '\n' } else { ' ' })
}

/// A grid whose first `width * height` pixels are blank shows as `blank_text`.
pub proof fn lemma_blank_frame(pixels: Seq<Pixel>, width: nat, height: nat)
    requires
        pixels.len() >= width * height,
        forall|i: int| 0 <= i < width * height ==> #[trigger] pixels[i] == blank_pixel(),
    ensures
        frame_text(pixels, width, height) == blank_text(width, height),
        frame_text(pixels, width, height).len() == height * (width + 1),
    decreases height,
{
    lemma_frame_len(pixels, width, height);
    if height == 0 {
        assert(frame_text(pixels, width, height) =~= blank_text(width, height));
    } else {
        let prev = (height - 1) as nat;
        assert(prev * width <= width * height) by (nonlinear_arith)
            requires
                prev + 1 == height,
        ;
        lemma_blank_frame(pixels, width, prev);
        assert(shade_level(0) == 0);
        let row = row_text(pixels, width, prev);
        assert forall|c: int| 0 <= c < width implies row[c] == ' ' by {
            lemma_cell_index(prev as int, c, width as int, height as int);
        }
        let text = frame_text(pixels, width, height);
        let base = prev * (width + 1);
        assert(base + width + 1 == height * (width + 1)) by (nonlinear_arith)
            requires
                prev + 1 == height,
                base == prev * (width + 1),
        ;
        assert forall|i: int| 0 <= i < height * (width + 1) implies text[i] == blank_text(
            width,
            height,
        )[i] by {
            if i < base {
                assert(text[i] == blank_text(width, prev)[i]);
            } else {
                let j = i - base;
                vstd::arithmetic::div_mod::lemma_fundamental_div_mod_converse(
                    i,
                    (width + 1) as int,
                    prev as int,
                    j,
                );
            }
        }
        assert(text =~= blank_text(width, height));
    }
}

/// A canvas that nothing was drawn on shows as `blank_text`.
pub proof fn lemma_fresh_canvas_is_blank(canvas: &Canvas)
    requires
        canvas.wf(),
        canvas.pixels@ == Seq::new((canvas.width * canvas.height) as nat, |i: int| blank_pixel()),
    ensures
        frame_text(canvas.pixels@, canvas.width as nat, canvas.height as nat) == blank_text(
            canvas.width as nat,
            canvas.height as nat,
        ),
{
    lemma_blank_frame(canvas.pixels@, canvas.width as nat, canvas.height as nat);
}

} // verus!
