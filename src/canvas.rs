//! A software canvas: a grid of RGBA pixels and integer drawing primitives.
use vstd::prelude::*;
use crate::color::Color;
use crate::math::trunc_div;
use crate::math::vector::Vector2D;
use crate::sprite::Sprite;

verus! {

/// `new` is `old` with some pixels set to `c`; a fully transparent `c`
/// changes nothing.
pub open spec fn painted(old: Seq<Color>, new: Seq<Color>, c: Color) -> bool {
    &&& new.len() == old.len()
    &&& forall|i: int| 0 <= i < old.len() ==> #[trigger] new[i] == old[i] || (c.3 != 0 && new[i] == c)
}

proof fn lemma_painted_trans(a: Seq<Color>, b: Seq<Color>, c: Seq<Color>, col: Color)
    requires
        painted(a, b, col),
        painted(b, c, col),
    ensures
        painted(a, c, col),
{
    assert forall|i: int| 0 <= i < a.len() implies #[trigger] c[i] == a[i] || (col.3 != 0 && c[i] == col) by {
        assert(b[i] == a[i] || (col.3 != 0 && b[i] == col));
        assert(c[i] == b[i] || (col.3 != 0 && c[i] == col));
    }
}

/// Where `plot(x, y)` writes on a `w` by `h` canvas: rows count up from the
/// bottom, so row `y` is stored at `(h - y) * w + x`.
pub open spec fn plot_index(w: u32, h: u32, x: int, y: int) -> int {
    (h as int - y) * w as int + x
}

/// Whether `plot(x, y)` lands on the canvas.
pub open spec fn plot_hits(w: u32, h: u32, x: int, y: int) -> bool {
    0 <= x < w && 0 <= y < h && plot_index(w, h, x, y) < w as int * h as int
}

/// `a / b` rounded toward zero, for a positive `b`.
fn div_wide(a: i128, b: i128) -> (r: i128)
    requires
        b > 0,
        -0x1_0000_0000_0000_0000_0000 <= a <= 0x1_0000_0000_0000_0000_0000,
    ensures
        r as int == trunc_div(a as int, b as int),
        -0x1_0000_0000_0000_0000_0000 <= r <= 0x1_0000_0000_0000_0000_0000,
{
    let ua: u128 = if a < 0 { (-a) as u128 } else { a as u128 };
    let q: u128 = ua / (b as u128);
    proof {
        vstd::arithmetic::div_mod::lemma_div_is_ordered_by_denominator(ua as int, 1, b as int);
        vstd::arithmetic::div_mod::lemma_div_basics(ua as int);
    }
    if a < 0 { -(q as i128) } else { q as i128 }
}

/// `new` is `old` drawn on with `color`: same size, same well-formedness,
/// and only pixels set to `color` changed.
pub open spec fn drawn(old: Canvas, new: Canvas, color: Color) -> bool {
    &&& new.wf()
    &&& new.width_spec() == old.width_spec()
    &&& new.height_spec() == old.height_spec()
    &&& painted(old.pixels_spec(), new.pixels_spec(), color)
}

proof fn lemma_drawn_trans(a: Canvas, b: Canvas, c: Canvas, color: Color)
    requires
        drawn(a, b, color),
        drawn(b, c, color),
    ensures
        drawn(a, c, color),
{
    lemma_painted_trans(a.pixels_spec(), b.pixels_spec(), c.pixels_spec(), color);
}

proof fn lemma_drawn_refl(a: Canvas, color: Color)
    requires
        a.wf(),
    ensures
        drawn(a, a, color),
{
}

/// Column shown by storage index `k` of a canvas `w` pixels wide.
pub open spec fn index_column(w: u32, k: int) -> int {
    k % (w as int)
}

/// Row shown by storage index `k` of a `w` by `h` canvas (rows count up
/// from the bottom).
pub open spec fn index_row(w: u32, h: u32, k: int) -> int {
    h as int - k / (w as int)
}

/// Every pixel that differs between `old` and `new` shows a point in the
/// box `(x_min, x_max, y_min, y_max)`.
pub open spec fn changed_within(old: Canvas, new: Canvas, bx: (int, int, int, int)) -> bool {
    forall|k: int| 0 <= k < old.pixels_spec().len() && #[trigger] new.pixels_spec()[k] != old.pixels_spec()[k]
        ==> bx.0 <= index_column(old.width_spec(), k) <= bx.1 && bx.2 <= index_row(old.width_spec(), old.height_spec(), k) <= bx.3
}

proof fn lemma_changed_within_trans(a: Canvas, b: Canvas, c: Canvas, bx: (int, int, int, int), inner: (int, int, int, int))
    requires
        b.width_spec() == a.width_spec(),
        b.height_spec() == a.height_spec(),
        b.pixels_spec().len() == a.pixels_spec().len(),
        changed_within(a, b, bx),
        changed_within(b, c, inner),
        bx.0 <= inner.0 && inner.1 <= bx.1 && bx.2 <= inner.2 && inner.3 <= bx.3,
    ensures
        changed_within(a, c, bx),
{
    assert forall|k: int| 0 <= k < a.pixels_spec().len() && #[trigger] c.pixels_spec()[k] != a.pixels_spec()[k] implies
        bx.0 <= index_column(a.width_spec(), k) <= bx.1 && bx.2 <= index_row(a.width_spec(), a.height_spec(), k) <= bx.3 by {
        if b.pixels_spec()[k] == a.pixels_spec()[k] {
            assert(c.pixels_spec()[k] != b.pixels_spec()[k]);
        }
    }
}

proof fn lemma_shallow_step(d: int, ady: int, dx: int, i: int, j: int)
    requires
        d == 2 * ady * i - 2 * dx * j + 2 * ady - dx,
        d >= 0,
        0 <= i <= dx - 1,
        0 < ady <= dx,
        0 <= j,
    ensures
        j + 1 <= ady,
{
    assert(2 * ady * i <= 2 * ady * (dx - 1)) by (nonlinear_arith)
        requires 0 <= i <= dx - 1, 0 < ady;
    assert(2 * ady * (dx - 1) == 2 * ady * dx - 2 * ady) by (nonlinear_arith);
    assert(2 * dx * j <= 2 * ady * dx - dx);
    assert(j + 1 <= ady) by (nonlinear_arith)
        requires 2 * dx * j <= 2 * ady * dx - dx, dx > 0;
}

proof fn lemma_steep_step(d: int, ady: int, dx: int, i: int, j: int)
    requires
        d == 2 * dx * j - 2 * ady * i + 2 * dx - ady,
        d < 2 * dx,
        0 <= i <= dx - 1,
        0 < dx < ady,
        0 <= j,
    ensures
        j + 1 <= ady,
{
    assert(2 * ady * i <= 2 * ady * (dx - 1)) by (nonlinear_arith)
        requires 0 <= i <= dx - 1, 0 < ady;
    assert(2 * ady * (dx - 1) == 2 * ady * dx - 2 * ady) by (nonlinear_arith);
    assert(2 * dx * j < 2 * ady * dx - ady);
    assert(j + 1 <= ady) by (nonlinear_arith)
        requires 2 * dx * j < 2 * ady * dx - ady, dx > 0, ady > 0;
}

pub open spec fn min2(a: int, b: int) -> int { if a < b { a } else { b } }

pub open spec fn max2(a: int, b: int) -> int { if a < b { b } else { a } }

/// The bounding box of a segment.
pub open spec fn segment_box(x0: int, y0: int, x1: int, y1: int) -> (int, int, int, int) {
    (min2(x0, x1), max2(x0, x1), min2(y0, y1), max2(y0, y1))
}

/// The bounding box of a triangle.
pub open spec fn triangle_box(v1: Vector2D<i32>, v2: Vector2D<i32>, v3: Vector2D<i32>) -> (int, int, int, int) {
    (
        min2(min2(v1.x as int, v2.x as int), v3.x as int),
        max2(max2(v1.x as int, v2.x as int), v3.x as int),
        min2(min2(v1.y as int, v2.y as int), v3.y as int),
        max2(max2(v1.y as int, v2.y as int), v3.y as int),
    )
}

/// A box that holds every point the drawing helpers touch.
pub open spec fn whole_plane() -> (int, int, int, int) {
    (-0x100_0000_0000, 0x100_0000_0000, -0x100_0000_0000, 0x100_0000_0000)
}

/// A `width` by `height` grid of pixels.
pub struct Canvas {
    width: u32,
    height: u32,
    pixels: Vec<Color>,
}

impl Canvas {
    pub closed spec fn width_spec(&self) -> u32 { self.width }

    pub closed spec fn height_spec(&self) -> u32 { self.height }

    /// The pixels, in storage order.
    pub closed spec fn pixels_spec(&self) -> Seq<Color> { self.pixels@ }

    pub closed spec fn wf(&self) -> bool {
        &&& self.pixels@.len() == self.width as int * self.height as int
        &&& self.width as int * self.height as int <= u32::MAX
    }

    /// A canvas of opaque black pixels.
    pub fn new(width: u32, height: u32) -> (c: Self)
        requires
            width as int * height as int <= u32::MAX,
        ensures
            c.wf(),
            c.width_spec() == width,
            c.height_spec() == height,
            c.pixels_spec().len() == width as int * height as int,
            forall|i: int| 0 <= i < c.pixels_spec().len() ==> c.pixels_spec()[i] == Color(0, 0, 0, 255),
    {
        let n: u64 = width as u64 * height as u64;
        let mut pixels: Vec<Color> = Vec::new();
        let mut i: u64 = 0;
        while i < n
            invariant
                i <= n,
                n == width as int * height as int,
                pixels@.len() == i,
                forall|k: int| 0 <= k < i ==> pixels@[k] == Color(0, 0, 0, 255),
            decreases n - i,
        {
            pixels.push(Color::black());
            i = i + 1;
        }
        Canvas { width, height, pixels }
    }

    /// Sets every pixel to `color`.
    pub fn fill(&mut self, color: Color)
        requires
            old(self).wf(),
        ensures
            final(self).wf(),
            final(self).width_spec() == old(self).width_spec(),
            final(self).height_spec() == old(self).height_spec(),
            final(self).pixels_spec().len() == old(self).pixels_spec().len(),
            forall|i: int| 0 <= i < final(self).pixels_spec().len() ==> final(self).pixels_spec()[i] == color,
    {
        let mut i: usize = 0;
        while i < self.pixels.len()
            invariant
                self.wf(),
                self.width == old(self).width,
                self.height == old(self).height,
                i <= self.pixels@.len(),
                forall|k: int| 0 <= k < i ==> self.pixels@[k] == color,
            decreases self.pixels.len() - i,
        {
            self.pixels.set(i, color);
            i = i + 1;
        }
    }

    /// Canvas width.
    pub fn width(&self) -> (w: u32)
        ensures
            w == self.width_spec(),
    {
        self.width
    }

    /// Canvas height.
    pub fn height(&self) -> (h: u32)
        ensures
            h == self.height_spec(),
    {
        self.height
    }

    /// The pixels, in storage order.
    pub fn pixels(&self) -> (p: &Vec<Color>)
        ensures
            p@ == self.pixels_spec(),
    {
        &self.pixels
    }

    /// Sets the pixel at (x, y) to `color`, unless the color is fully
    /// transparent or the point falls off the canvas.
    pub fn plot(&mut self, x: i32, y: i32, color: Color)
        requires
            old(self).wf(),
        ensures
            final(self).wf(),
            final(self).width_spec() == old(self).width_spec(),
            final(self).height_spec() == old(self).height_spec(),
            color.3 != 0 && plot_hits(old(self).width_spec(), old(self).height_spec(), x as int, y as int)
                ==> final(self).pixels_spec() == old(self).pixels_spec().update(
                plot_index(old(self).width_spec(), old(self).height_spec(), x as int, y as int), color),
            !(color.3 != 0 && plot_hits(old(self).width_spec(), old(self).height_spec(), x as int, y as int))
                ==> final(self).pixels_spec() == old(self).pixels_spec(),
            painted(old(self).pixels_spec(), final(self).pixels_spec(), color),
            changed_within(*old(self), *final(self), (x as int, x as int, y as int, y as int)),
    {
        if color.alpha() == 0 {
            return;
        }
        if x >= 0 && (x as u32) < self.width && y >= 0 && (y as u32) < self.height {
            let w = self.width as u64;
            let h = self.height as u64;
            proof {
                assert(0 <= (h as int - y as int) * w as int <= w as int * h as int) by (nonlinear_arith)
                    requires 0 <= y, y < h;
            }
            let idx: u64 = (h - y as u64) * w + x as u64;
            proof {
                vstd::arithmetic::div_mod::lemma_fundamental_div_mod_converse(idx as int, w as int, h as int - y as int, x as int);
            }
            if idx < w * h {
                self.pixels.set(idx as usize, color);
            }
        }
    }

    /// `plot` for wide coordinates: a point outside the `i32` range is off
    /// the canvas.
    fn plot_wide(&mut self, x: i128, y: i128, color: Color)
        requires
            old(self).wf(),
        ensures
            drawn(*old(self), *final(self), color),
            changed_within(*old(self), *final(self), (x as int, x as int, y as int, y as int)),
    {
        if i32::MIN as i128 <= x && x <= i32::MAX as i128 && i32::MIN as i128 <= y && y <= i32::MAX as i128 {
            self.plot(x as i32, y as i32, color);
        }
    }

    fn draw_point(&mut self, x: i128, y: i128, color: Color, Ghost(start): Ghost<Canvas>, Ghost(bx): Ghost<
        (int, int, int, int),
    >)
        requires
            drawn(start, *old(self), color),
            changed_within(start, *old(self), bx),
            bx.0 <= x <= bx.1,
            bx.2 <= y <= bx.3,
        ensures
            drawn(start, *final(self), color),
            changed_within(start, *final(self), bx),
    {
        let ghost before = *self;
        self.plot_wide(x, y, color);
        proof {
            lemma_drawn_trans(start, before, *self, color);
            lemma_changed_within_trans(start, before, *self, bx, (x as int, x as int, y as int, y as int));
        }
    }

    /// Bresenham's line from (x0, y0) to (x1, y1), stepping along the
    /// longer axis; every point it plots lies in the segment's bounding box.
    fn draw_line(&mut self, x0: i64, y0: i64, x1: i64, y1: i64, color: Color, Ghost(start): Ghost<Canvas>, Ghost(bx): Ghost<
        (int, int, int, int),
    >)
        requires
            drawn(start, *old(self), color),
            changed_within(start, *old(self), bx),
            -0x2_0000_0000 <= x0 <= 0x2_0000_0000,
            -0x2_0000_0000 <= y0 <= 0x2_0000_0000,
            -0x2_0000_0000 <= x1 <= 0x2_0000_0000,
            -0x2_0000_0000 <= y1 <= 0x2_0000_0000,
            bx.0 <= x0 <= bx.1 && bx.0 <= x1 <= bx.1,
            bx.2 <= y0 <= bx.3 && bx.2 <= y1 <= bx.3,
        ensures
            drawn(start, *final(self), color),
            changed_within(start, *final(self), bx),
    {
        let dx: i64 = if x1 >= x0 { x1 - x0 } else { x0 - x1 };
        let dy: i64 = if x1 >= x0 { y1 - y0 } else { y0 - y1 };
        let mut x: i64 = if x1 >= x0 { x0 } else { x1 };
        let mut y: i64 = if x1 >= x0 { y0 } else { y1 };
        let x_start = x;
        let y_start = y;
        if dx == 0 {
            let lo = if y0 < y1 { y0 } else { y1 };
            let hi = if y0 < y1 { y1 } else { y0 };
            let mut i = lo;
            while i < hi
                invariant
                    lo <= i <= hi,
                    bx.2 <= lo && hi <= bx.3,
                    bx.0 <= x <= bx.1,
                    drawn(start, *self, color),
                    changed_within(start, *self, bx),
                decreases hi - i,
            {
                self.draw_point(x as i128, i as i128, color, Ghost(start), Ghost(bx));
                i = i + 1;
            }
            return;
        }
        if dy == 0 {
            let lo = if x0 < x1 { x0 } else { x1 };
            let hi = if x0 < x1 { x1 } else { x0 };
            let mut i = lo;
            while i < hi
                invariant
                    lo <= i <= hi,
                    bx.0 <= lo && hi <= bx.1,
                    bx.2 <= y <= bx.3,
                    drawn(start, *self, color),
                    changed_within(start, *self, bx),
                decreases hi - i,
            {
                self.draw_point(i as i128, y as i128, color, Ghost(start), Ghost(bx));
                i = i + 1;
            }
            return;
        }
        let ady: i64 = if dy >= 0 { dy } else { -dy };
        let step: i64 = if dy >= 0 { 1 } else { -1 };
        let x_end: i64 = if x0 > x1 { x0 } else { x1 };
        let ghost y_end: int = y_start + dy;
        self.draw_point(x as i128, y as i128, color, Ghost(start), Ghost(bx));
        let ghost mut j: int = 0;
        if ady <= dx {
            let mut decision: i64 = 2 * ady - dx;
            while x < x_end
                invariant
                    x_start <= x <= x_end,
                    x_end - x_start == dx,
                    0 < dx <= 0x4_0000_0000,
                    0 < ady <= dx,
                    step == 1 || step == -1,
                    0 <= j <= ady,
                    decision == 2 * ady * (x - x_start) - 2 * dx * j + 2 * ady - dx,
                    -2 * dx <= decision <= 2 * dx,
                    step == 1 ==> y == y_start + j && y_end == y_start + ady,
                    step == -1 ==> y == y_start - j && y_end == y_start - ady,
                    bx.0 <= x_start && x_end <= bx.1,
                    bx.2 <= y_start <= bx.3 && bx.2 <= y_end <= bx.3,
                    -0x2_0000_0000 <= y_start <= 0x2_0000_0000,
                    drawn(start, *self, color),
                    changed_within(start, *self, bx),
                decreases x_end - x,
            {
                let ghost i: int = x - x_start;
                x = x + 1;
                if decision < 0 {
                    proof {
                        assert(2 * ady * (i + 1) == 2 * ady * i + 2 * ady) by (nonlinear_arith);
                    }
                    decision = decision + 2 * ady;
                } else {
                    proof {
                        lemma_shallow_step(decision as int, ady as int, dx as int, i, j);
                        assert(2 * ady * (i + 1) == 2 * ady * i + 2 * ady) by (nonlinear_arith);
                        assert(2 * dx * (j + 1) == 2 * dx * j + 2 * dx) by (nonlinear_arith);
                        j = j + 1;
                    }
                    y = y + step;
                    decision = decision + 2 * (ady - dx);
                }
                self.draw_point(x as i128, y as i128, color, Ghost(start), Ghost(bx));
            }
        } else {
            let mut decision: i64 = 2 * dx - ady;
            while x < x_end
                invariant
                    x_start <= x <= x_end,
                    x_end - x_start == dx,
                    0 < dx < ady <= 0x4_0000_0000,
                    step == 1 || step == -1,
                    0 <= j <= ady,
                    decision == 2 * dx * j - 2 * ady * (x - x_start) + 2 * dx - ady,
                    -2 * ady <= decision < 2 * dx,
                    step == 1 ==> y == y_start + j && y_end == y_start + ady,
                    step == -1 ==> y == y_start - j && y_end == y_start - ady,
                    bx.0 <= x_start && x_end <= bx.1,
                    bx.2 <= y_start <= bx.3 && bx.2 <= y_end <= bx.3,
                    -0x2_0000_0000 <= y_start <= 0x2_0000_0000,
                    drawn(start, *self, color),
                    changed_within(start, *self, bx),
                decreases ady - j,
            {
                let ghost i: int = x - x_start;
                proof {
                    lemma_steep_step(decision as int, ady as int, dx as int, i, j);
                    assert(2 * dx * (j + 1) == 2 * dx * j + 2 * dx) by (nonlinear_arith);
                    assert(2 * ady * (i + 1) == 2 * ady * i + 2 * ady) by (nonlinear_arith);
                    j = j + 1;
                }
                y = y + step;
                if decision < 0 {
                    decision = decision + 2 * dx;
                } else {
                    x = x + 1;
                    decision = decision + 2 * (dx - ady);
                }
                self.draw_point(x as i128, y as i128, color, Ghost(start), Ghost(bx));
            }
        }
    }

    /// A line from (x0, y0) to (x1, y1); it changes no pixel outside the
    /// segment's bounding box.
    pub fn line(&mut self, x0: i32, y0: i32, x1: i32, y1: i32, color: Color)
        requires
            old(self).wf(),
        ensures
            drawn(*old(self), *final(self), color),
            changed_within(*old(self), *final(self), segment_box(x0 as int, y0 as int, x1 as int, y1 as int)),
    {
        proof { lemma_drawn_refl(*self, color); }
        let ghost bx = segment_box(x0 as int, y0 as int, x1 as int, y1 as int);
        self.draw_line(x0 as i64, y0 as i64, x1 as i64, y1 as i64, color, Ghost(*self), Ghost(bx));
    }

    /// Bresenham's line between two points; it changes no pixel outside the
    /// segment's bounding box.
    pub fn line_between(&mut self, origin: Vector2D<i32>, dest: Vector2D<i32>, color: Color)
        requires
            old(self).wf(),
        ensures
            drawn(*old(self), *final(self), color),
            changed_within(*old(self), *final(self), segment_box(origin.x as int, origin.y as int, dest.x as int, dest.y as int)),
    {
        proof { lemma_drawn_refl(*self, color); }
        let ghost bx = segment_box(origin.x as int, origin.y as int, dest.x as int, dest.y as int);
        self.draw_line(origin.x as i64, origin.y as i64, dest.x as i64, dest.y as i64, color, Ghost(*self), Ghost(bx));
    }

    /// Bresenham's circle outline around `origin`.
    pub fn circle(&mut self, origin: Vector2D<i32>, radius: i32, color: Color)
        requires
            old(self).wf(),
        ensures
            drawn(*old(self), *final(self), color),
    {
        let ghost start = *self;
        let ghost bx = whole_plane();
        proof { lemma_drawn_refl(*self, color); }
        if radius < 0 {
            return;
        }
        let ox = origin.x as i128;
        let oy = origin.y as i128;
        let mut x: i128 = 0;
        let mut y: i128 = radius as i128;
        let mut decision: i128 = 3 - 2 * y;
        while y >= x
            invariant
                0 <= x,
                y <= radius,
                x <= radius as int + 1,
                y >= -2,
                -0x4_0000_0000 - x * 0x10_0000_0000 <= decision <= 0x4_0000_0000 + x * 0x10_0000_0000,
                ox == origin.x && oy == origin.y,
                drawn(start, *self, color),
                changed_within(start, *self, bx),
                bx == whole_plane(),
            decreases y - x + 2,
        {
            self.draw_point(ox + x, oy + y, color, Ghost(start), Ghost(bx));
            self.draw_point(ox - x, oy + y, color, Ghost(start), Ghost(bx));
            self.draw_point(ox + x, oy - y, color, Ghost(start), Ghost(bx));
            self.draw_point(ox - x, oy - y, color, Ghost(start), Ghost(bx));
            self.draw_point(ox + y, oy + x, color, Ghost(start), Ghost(bx));
            self.draw_point(ox - y, oy + x, color, Ghost(start), Ghost(bx));
            self.draw_point(ox + y, oy - x, color, Ghost(start), Ghost(bx));
            self.draw_point(ox - y, oy - x, color, Ghost(start), Ghost(bx));
            x = x + 1;
            if decision > 0 {
                y = y - 1;
                decision = decision + 4 * (x - y) + 10;
            } else {
                decision = decision + 4 * x + 6;
            }
        }
    }

    /// The outline of the rectangle with top left corner `origin`.
    pub fn rectangle(&mut self, origin: Vector2D<i32>, width: i32, height: i32, color: Color)
        requires
            old(self).wf(),
        ensures
            drawn(*old(self), *final(self), color),
    {
        let ghost start = *self;
        let ghost bx = whole_plane();
        proof { lemma_drawn_refl(*self, color); }
        let x0 = origin.x as i64;
        let y0 = origin.y as i64;
        let x1 = x0 + width as i64;
        let y1 = y0 + height as i64;
        self.draw_line(x0, y0, x1, y0, color, Ghost(start), Ghost(bx));
        self.draw_line(x0, y0, x0, y1, color, Ghost(start), Ghost(bx));
        self.draw_line(x0, y1, x1, y1, color, Ghost(start), Ghost(bx));
        self.draw_line(x1, y0, x1, y1, color, Ghost(start), Ghost(bx));
    }

    /// The filled rectangle with top left corner `origin`: one horizontal
    /// line for each row from 0 to `height`.
    pub fn fill_rectangle(&mut self, origin: &Vector2D<i32>, width: i32, height: i32, color: Color)
        requires
            old(self).wf(),
        ensures
            drawn(*old(self), *final(self), color),
    {
        let ghost start = *self;
        let ghost bx = whole_plane();
        proof { lemma_drawn_refl(*self, color); }
        if height < 0 {
            return;
        }
        let x0 = origin.x as i64;
        let y0 = origin.y as i64;
        let mut i: i64 = 0;
        while i <= height as i64
            invariant
                0 <= i,
                i <= height as int + 1,
                x0 == origin.x && y0 == origin.y,
                drawn(start, *self, color),
                changed_within(start, *self, bx),
                bx == whole_plane(),
            decreases height as int + 1 - i,
        {
            self.draw_line(x0, y0 + i, x0 + width as i64, y0 + i, color, Ghost(start), Ghost(bx));
            i = i + 1;
        }
    }

    /// The outline of a triangle.
    pub fn triangle(&mut self, v1: Vector2D<i32>, v2: Vector2D<i32>, v3: Vector2D<i32>, color: Color)
        requires
            old(self).wf(),
        ensures
            drawn(*old(self), *final(self), color),
    {
        let ghost start = *self;
        let ghost bx = whole_plane();
        proof { lemma_drawn_refl(*self, color); }
        self.draw_line(v1.x as i64, v1.y as i64, v2.x as i64, v2.y as i64, color, Ghost(start), Ghost(bx));
        self.draw_line(v2.x as i64, v2.y as i64, v3.x as i64, v3.y as i64, color, Ghost(start), Ghost(bx));
        self.draw_line(v3.x as i64, v3.y as i64, v1.x as i64, v1.y as i64, color, Ghost(start), Ghost(bx));
    }

    /// The closed polygon through the given points, when there are at least three.
    pub fn connect_points(&mut self, vertices: &Vec<Vector2D<i32>>, color: Color)
        requires
            old(self).wf(),
        ensures
            drawn(*old(self), *final(self), color),
            vertices@.len() < 3 ==> *final(self) == *old(self),
    {
        let ghost start = *self;
        let ghost bx = whole_plane();
        proof { lemma_drawn_refl(*self, color); }
        let len = vertices.len();
        if len >= 3 {
            let first = vertices[0];
            let last = vertices[len - 1];
            let mut i: usize = 1;
            while i < len
                invariant
                    1 <= i <= len,
                    len == vertices@.len(),
                    drawn(start, *self, color),
                    changed_within(start, *self, bx),
                bx == whole_plane(),
                decreases len - i,
            {
                let a = vertices[i - 1];
                let b = vertices[i];
                self.draw_line(a.x as i64, a.y as i64, b.x as i64, b.y as i64, color, Ghost(start), Ghost(bx));
                i = i + 1;
            }
            self.draw_line(last.x as i64, last.y as i64, first.x as i64, first.y as i64, color, Ghost(start), Ghost(bx));
        }
    }

    /// A filled circle around `origin`, drawn as vertical and horizontal spans.
    pub fn fill_circle(&mut self, origin: Vector2D<i32>, radius: i32, color: Color)
        requires
            old(self).wf(),
        ensures
            drawn(*old(self), *final(self), color),
    {
        let ghost start = *self;
        let ghost bx = whole_plane();
        proof { lemma_drawn_refl(*self, color); }
        if radius < 0 {
            return;
        }
        let ox = origin.x as i64;
        let oy = origin.y as i64;
        let mut x: i64 = 0;
        let mut y: i64 = radius as i64;
        let mut decision: i128 = 3 - 2 * (y as i128);
        while y >= x
            invariant
                0 <= x,
                y <= radius,
                x <= radius as int + 1,
                y >= -2,
                -0x4_0000_0000 - x * 0x10_0000_0000 <= decision <= 0x4_0000_0000 + x * 0x10_0000_0000,
                ox == origin.x && oy == origin.y,
                drawn(start, *self, color),
                changed_within(start, *self, bx),
                bx == whole_plane(),
            decreases y - x + 2,
        {
            self.draw_line(ox + x, oy - y, ox + x, oy + y, color, Ghost(start), Ghost(bx));
            self.draw_line(ox - x, oy - y, ox - x, oy + y, color, Ghost(start), Ghost(bx));
            self.draw_line(ox - y, oy - x, ox + y, oy - x, color, Ghost(start), Ghost(bx));
            self.draw_line(ox - y, oy + x, ox + y, oy + x, color, Ghost(start), Ghost(bx));
            x = x + 1;
            if decision > 0 {
                y = y - 1;
                decision = decision + 4 * ((x - y) as i128) + 10;
            } else {
                decision = decision + 4 * (x as i128) + 6;
            }
        }
    }

    /// Stamps a sprite with its top left corner at `origin`, row by row;
    /// fully transparent pixels are skipped.
    pub fn sprite(&mut self, origin: Vector2D<i32>, tile: &Sprite)
        requires
            old(self).wf(),
            tile.width > 0,
        ensures
            final(self).wf(),
            final(self).width_spec() == old(self).width_spec(),
            final(self).height_spec() == old(self).height_spec(),
            final(self).pixels_spec().len() == old(self).pixels_spec().len(),
            forall|i: int| 0 <= i < old(self).pixels_spec().len() ==> #[trigger] final(self).pixels_spec()[i]
                == old(self).pixels_spec()[i] || tile.pixels@.contains(final(self).pixels_spec()[i]),
    {
        let mut i: usize = 0;
        let w = tile.width;
        while i < tile.pixels.len()
            invariant
                i <= tile.pixels@.len(),
                w == tile.width,
                w > 0,
                self.wf(),
                self.width == old(self).width,
                self.height == old(self).height,
                self.pixels@.len() == old(self).pixels@.len(),
                forall|k: int| 0 <= k < old(self).pixels@.len() ==> #[trigger] self.pixels@[k] == old(self).pixels@[k]
                    || tile.pixels@.contains(self.pixels@[k]),
            decreases tile.pixels.len() - i,
        {
            let pixel = tile.pixels[i];
            let x = origin.x as i128 + (i % w) as i128;
            let y = origin.y as i128 + (i / w) as i128;
            let ghost before = self.pixels@;
            self.plot_wide(x, y, pixel);
            proof {
                assert(tile.pixels@[i as int] == pixel);
                assert forall|k: int| 0 <= k < old(self).pixels@.len() implies #[trigger] self.pixels@[k] == old(self).pixels@[k]
                    || tile.pixels@.contains(self.pixels@[k]) by {
                    assert(self.pixels@[k] == before[k] || self.pixels@[k] == pixel);
                }
            }
            i = i + 1;
        }
    }

    /// Plots row `y` from `min(a, b)` up to (not including) `max(a, b)`,
    /// keeping only the columns within `[lo, hi]`.
    fn span(&mut self, a: i128, b: i128, y: i128, lo: i64, hi: i64, color: Color, Ghost(start): Ghost<Canvas>, Ghost(bx): Ghost<
        (int, int, int, int),
    >)
        requires
            drawn(start, *old(self), color),
            changed_within(start, *old(self), bx),
            bx.0 <= lo && hi <= bx.1,
            bx.2 <= y <= bx.3,
            -0x2_0000_0000_0000_0000_0000 <= a <= 0x2_0000_0000_0000_0000_0000,
            -0x2_0000_0000_0000_0000_0000 <= b <= 0x2_0000_0000_0000_0000_0000,
        ensures
            drawn(start, *final(self), color),
            changed_within(start, *final(self), bx),
    {
        let from = if a < b { a } else { b };
        let to = if a < b { b } else { a };
        let first = if from > lo as i128 { from } else { lo as i128 };
        let end = if to < hi as i128 + 1 { to } else { hi as i128 + 1 };
        let mut i = first;
        while i < end
            invariant
                first <= i,
                i <= end || end < first,
                end <= 0x2_0000_0000_0000_0000_0000,
                lo <= first,
                end <= hi as int + 1,
                bx.0 <= lo && hi <= bx.1,
                bx.2 <= y <= bx.3,
                drawn(start, *self, color),
                changed_within(start, *self, bx),
            decreases end - i,
        {
            self.draw_point(i, y, color, Ghost(start), Ghost(bx));
            i = i + 1;
        }
    }

    /// A filled triangle, by scanlines between its sorted vertices; it
    /// changes no pixel outside the triangle's bounding box.
    pub fn fill_triangle(&mut self, v1: Vector2D<i32>, v2: Vector2D<i32>, v3: Vector2D<i32>, color: Color)
        requires
            old(self).wf(),
        ensures
            drawn(*old(self), *final(self), color),
            changed_within(*old(self), *final(self), triangle_box(v1, v2, v3)),
    {
        let ghost start = *self;
        let ghost bx = triangle_box(v1, v2, v3);
        proof { lemma_drawn_refl(*self, color); }
        let mut x0 = v1.x as i64;
        let mut y0 = v1.y as i64;
        let mut x1 = v2.x as i64;
        let mut y1 = v2.y as i64;
        let mut x2 = v3.x as i64;
        let mut y2 = v3.y as i64;
        // sort by y: y0 <= y1 <= y2
        if y0 > y1 {
            let t = y0; y0 = y1; y1 = t;
            let t = x0; x0 = x1; x1 = t;
        }
        if y1 > y2 {
            let t = y2; y2 = y1; y1 = t;
            let t = x2; x2 = x1; x1 = t;
        }
        if y0 > y1 {
            let t = y0; y0 = y1; y1 = t;
            let t = x0; x0 = x1; x1 = t;
        }
        let smallest_x = if x0 < x1 { if x0 < x2 { x0 } else { x2 } } else { if x1 < x2 { x1 } else { x2 } };
        let biggest_x = if x0 > x1 { if x0 > x2 { x0 } else { x2 } } else { if x1 > x2 { x1 } else { x2 } };
        assert(bx.0 == smallest_x && bx.1 == biggest_x && bx.2 == y0 && bx.3 == y2);
        if y0 == y2 {
            let mut a = x0;
            let mut b = x0;
            if x1 < a {
                a = x1;
            } else if x1 > b {
                b = x1;
            }
            if x2 < a {
                a = x2;
            } else if x2 > b {
                b = x2;
            }
            self.span(a as i128, b as i128, y0 as i128, smallest_x, biggest_x, color, Ghost(start), Ghost(bx));
            return;
        }
        let dx01 = x1 - x0;
        let dy01 = y1 - y0;
        let dx02 = x2 - x0;
        let dy02 = y2 - y0;
        let dx12 = x2 - x1;
        let dy12 = y2 - y1;
        let mut sa: i128 = 0;
        let mut sb: i128 = 0;
        let last: i64 = if y1 == y2 { y1 } else { y1 - 1 };
        let mut y: i64 = y0;
        while y <= last
            invariant
                y0 <= y <= last + 1,
                last <= y2,
                bx.0 == smallest_x && bx.1 == biggest_x && bx.2 == y0 && bx.3 == y2,
                y0 <= y1 <= y2,
                -0x8000_0000 <= y0 && y2 <= 0x8000_0000,
                dy01 == y1 - y0 && dy02 == y2 - y0,
                y2 - y0 <= 0x1_0000_0000,
                -0x1_0000_0000 <= dx01 <= 0x1_0000_0000,
                -0x1_0000_0000 <= dx02 <= 0x1_0000_0000,
                -0x8000_0000 <= x0 <= 0x8000_0000,
                -(y - y0) * 0x1_0000_0000 <= sa <= (y - y0) * 0x1_0000_0000,
                -(y - y0) * 0x1_0000_0000 <= sb <= (y - y0) * 0x1_0000_0000,
                drawn(start, *self, color),
                changed_within(start, *self, bx),
            decreases last + 1 - y,
        {
            if dy01 != 0 && dy02 != 0 {
                let a = x0 as i128 + div_wide(sa, dy01 as i128);
                let b = x0 as i128 + div_wide(sb, dy02 as i128);
                self.span(a, b, y as i128, smallest_x, biggest_x, color, Ghost(start), Ghost(bx));
            }
            sa = sa + dx01 as i128;
            sb = sb + dx02 as i128;
            y = y + 1;
        }
        // the first pass ended at row `last`; the second one starts below it
        let y_mid = last + 1;
        proof {
            assert(-0x2_0000_0000 <= y_mid - y1 <= 0x2_0000_0000);
            assert(-0x4_0000_0000_0000_0000 <= dx12 as int * (y_mid - y1) <= 0x4_0000_0000_0000_0000) by (nonlinear_arith)
                requires -0x2_0000_0000 <= dx12 <= 0x2_0000_0000, -0x2_0000_0000 <= y_mid - y1 <= 0x2_0000_0000;
            assert(-0x4_0000_0000_0000_0000 <= dx02 as int * (y_mid - y0) <= 0x4_0000_0000_0000_0000) by (nonlinear_arith)
                requires -0x2_0000_0000 <= dx02 <= 0x2_0000_0000, -0x2_0000_0000 <= y_mid - y0 <= 0x2_0000_0000;
        }
        let mut sa: i128 = dx12 as i128 * (y_mid - y1) as i128;
        let mut sb: i128 = dx02 as i128 * (y_mid - y0) as i128;
        let mut i: i64 = y_mid;
        while i <= y2
            invariant
                y_mid <= i <= y2 + 1,
                y0 <= y_mid,
                bx.0 == smallest_x && bx.1 == biggest_x && bx.2 == y0 && bx.3 == y2,
                y0 <= y1 <= y2,
                -0x8000_0000 <= y0 && y2 <= 0x8000_0000,
                dy12 == y2 - y1 && dy02 == y2 - y0,
                y2 - y_mid <= 0x2_0000_0000,
                -0x1_0000_0000 <= dx12 <= 0x1_0000_0000,
                -0x1_0000_0000 <= dx02 <= 0x1_0000_0000,
                -0x8000_0000 <= x0 <= 0x8000_0000,
                -0x8000_0000 <= x1 <= 0x8000_0000,
                -0x4_0000_0000_0000_0000 - (i - y_mid) * 0x1_0000_0000 <= sa <= 0x4_0000_0000_0000_0000 + (i - y_mid) * 0x1_0000_0000,
                -0x4_0000_0000_0000_0000 - (i - y_mid) * 0x1_0000_0000 <= sb <= 0x4_0000_0000_0000_0000 + (i - y_mid) * 0x1_0000_0000,
                drawn(start, *self, color),
                changed_within(start, *self, bx),
            decreases y2 + 1 - i,
        {
            if dy12 != 0 && dy02 != 0 {
                let a = x1 as i128 + div_wide(sa, dy12 as i128);
                let b = x0 as i128 + div_wide(sb, dy02 as i128);
                self.span(a, b, i as i128, smallest_x, biggest_x, color, Ghost(start), Ghost(bx));
            }
            sa = sa + dx12 as i128;
            sb = sb + dx02 as i128;
            i = i + 1;
        }
    }
}

} // verus!
