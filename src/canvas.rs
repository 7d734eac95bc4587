//! Pixel buffers, padding and cropping.
use vstd::prelude::*;

verus! {

/// One 8-bit RGBA pixel.
#[derive(Clone, Copy, Debug, PartialEq, Eq, Structural)]
pub struct Rgba {
    pub r: u8,
    pub g: u8,
    pub b: u8,
    pub a: u8,
}

/// The fully transparent black pixel that fills the padding band.
pub open spec fn transparent() -> Rgba {
    Rgba { r: 0, g: 0, b: 0, a: 0 }
}

/// A grid of RGBA pixels held row by row, top row first.
#[derive(Clone, Debug)]
pub struct PixelBuffer {
    pub width: u32,
    pub height: u32,
    pub rows: Vec<Vec<Rgba>>,
}

/// The grid of pixels as rows of pixels.
pub type Grid = Seq<Seq<Rgba>>;

/// `g` has `h` rows of `w` pixels each.
pub open spec fn grid_shaped(g: Grid, w: int, h: int) -> bool {
    &&& g.len() == h
    &&& forall|y: int| 0 <= y < h ==> #[trigger] g[y].len() == w
}

/// The pixel of the padded grid at `(x, y)`: transparent in the band of
/// width `s` around the edge, the source pixel `(x - s, y - s)` inside it.
pub open spec fn padded_pixel(g: Grid, w: int, h: int, s: int, x: int, y: int) -> Rgba {
    if s <= x < s + w && s <= y < s + h {
        g[y - s][x - s]
    } else {
        transparent()
    }
}

/// The grid `g` of size `w` by `h` with a transparent band of width `s` on every side.
pub open spec fn pad_grid(g: Grid, w: int, h: int, s: int) -> Grid {
    Seq::new((h + 2 * s) as nat, |y: int| Seq::new((w + 2 * s) as nat, |x: int| padded_pixel(g, w, h, s, x, y)))
}

/// The `w` by `h` window of `g` whose top-left pixel is `(x0, y0)`.
pub open spec fn crop_grid(g: Grid, x0: int, y0: int, w: int, h: int) -> Grid {
    Seq::new(h as nat, |y: int| Seq::new(w as nat, |x: int| g[y0 + y][x0 + x]))
}

/// Where the four channel bytes of pixel `(x, y)` start in a row-major RGBA
/// byte sequence of rows `w` pixels wide.
pub open spec fn pixel_offset(w: int, x: int, y: int) -> int {
    (y * w + x) * 4
}

/// The four bytes of pixel `(x, y)` in `bytes` are the channels of `p`, in order R, G, B, A.
pub open spec fn holds_pixel(bytes: Seq<u8>, w: int, x: int, y: int, p: Rgba) -> bool {
    let k = pixel_offset(w, x, y);
    &&& bytes[k] == p.r
    &&& bytes[k + 1] == p.g
    &&& bytes[k + 2] == p.b
    &&& bytes[k + 3] == p.a
}

/// `bytes` is the row-major RGBA encoding of the `w` by `h` grid `g`.
pub open spec fn rgba_bytes_of(bytes: Seq<u8>, g: Grid, w: int, h: int) -> bool {
    &&& bytes.len() == w * h * 4
    &&& forall|x: int, y: int| 0 <= x < w && 0 <= y < h ==> #[trigger] holds_pixel(bytes, w, x, y, g[y][x])
}

/// Pixels that come earlier in row-major order have their bytes earlier.
proof fn lemma_offset_order(w: int, xx: int, yy: int, x: int, y: int)
    requires
        0 <= xx < w,
        0 <= x <= w,
        0 <= yy,
        yy < y || (yy == y && xx < x),
    ensures
        pixel_offset(w, xx, yy) + 4 <= pixel_offset(w, x, y),
{
    if yy < y {
        assert(yy * w + w <= y * w) by (nonlinear_arith)
            requires yy < y, 0 <= w;
    }
}

/// The bytes of every pixel of a `w` by `h` grid lie inside its `w * h * 4` bytes.
proof fn lemma_offset_bound(w: int, h: int, x: int, y: int)
    requires
        0 <= x < w,
        0 <= y < h,
    ensures
        0 <= pixel_offset(w, x, y),
        pixel_offset(w, x, y) + 4 <= w * h * 4,
{
    assert(0 <= y * w) by (nonlinear_arith)
        requires 0 <= y, 0 <= w;
    assert(y * w + w <= h * w) by (nonlinear_arith)
        requires y < h, 0 <= w;
    assert(h * w == w * h) by (nonlinear_arith);
}

/// A byte sequence is the RGBA encoding of at most one grid.
pub proof fn lemma_rgba_bytes_determine_grid(bytes: Seq<u8>, g1: Grid, g2: Grid, w: int, h: int)
    requires
        grid_shaped(g1, w, h),
        grid_shaped(g2, w, h),
        rgba_bytes_of(bytes, g1, w, h),
        rgba_bytes_of(bytes, g2, w, h),
    ensures
        g1 == g2,
{
    assert forall|y: int| 0 <= y < h implies g1[y] == g2[y] by {
        assert forall|x: int| 0 <= x < w implies g1[y][x] == g2[y][x] by {
            assert(holds_pixel(bytes, w, x, y, g1[y][x]));
            assert(holds_pixel(bytes, w, x, y, g2[y][x]));
        }
        assert(g1[y] =~= g2[y]);
    }
    assert(g1 =~= g2);
}

/// Two byte sequences that encode the same grid are equal.
pub proof fn lemma_grid_determines_rgba_bytes(b1: Seq<u8>, b2: Seq<u8>, g: Grid, w: int, h: int)
    requires
        0 <= w,
        0 <= h,
        rgba_bytes_of(b1, g, w, h),
        rgba_bytes_of(b2, g, w, h),
    ensures
        b1 == b2,
{
    assert forall|k: int| 0 <= k < b1.len() implies b1[k] == b2[k] by {
        let p = k / 4;
        let x = p % w;
        let y = p / w;
        assert(w > 0 && h > 0) by {
            if w == 0 || h == 0 {
                assert(w * h * 4 == 0) by (nonlinear_arith)
                    requires w == 0 || h == 0;
            }
        }
        assert(k == p * 4 + k % 4);
        assert(p == y * w + x) by (nonlinear_arith)
            requires w > 0, x == p % w, y == p / w;
        assert(0 <= x < w);
        assert(0 <= y < h) by (nonlinear_arith)
            requires w > 0, h > 0, y == p / w, p == k / 4, 0 <= k < w * h * 4;
        assert(holds_pixel(b1, w, x, y, g[y][x]));
        assert(holds_pixel(b2, w, x, y, g[y][x]));
    }
    assert(b1 =~= b2);
}

impl PixelBuffer {
    /// The pixels as a sequence of rows.
    pub open spec fn grid(&self) -> Grid {
        self.rows@.map_values(|row: Vec<Rgba>| row@)
    }

    /// The rows agree with the declared width and height.
    pub open spec fn wf(&self) -> bool {
        grid_shaped(self.grid(), self.width as int, self.height as int)
    }

    /// The pixel at column `x` of row `y`.
    pub open spec fn pixel(&self, x: int, y: int) -> Rgba {
        self.grid()[y][x]
    }

    /// A buffer of the given size filled with one pixel.
    pub fn filled(width: u32, height: u32, p: Rgba) -> (r: PixelBuffer)
        ensures
            r.wf(),
            r.width == width,
            r.height == height,
            forall|x: int, y: int| 0 <= x < width && 0 <= y < height ==> #[trigger] r.grid()[y][x] == p,
    {
        let mut rows: Vec<Vec<Rgba>> = Vec::new();
        let mut y: u32 = 0;
        while y < height
            invariant
                y <= height,
                rows@.len() == y,
                forall|yy: int| 0 <= yy < y ==> #[trigger] rows@[yy]@.len() == width,
                forall|xx: int, yy: int| 0 <= xx < width && 0 <= yy < y ==> #[trigger] rows@[yy]@[xx] == p,
            decreases height - y,
        {
            let mut row: Vec<Rgba> = Vec::new();
            let mut x: u32 = 0;
            while x < width
                invariant
                    x <= width,
                    row@.len() == x,
                    forall|xx: int| 0 <= xx < x ==> #[trigger] row@[xx] == p,
                decreases width - x,
            {
                row.push(p);
                x = x + 1;
            }
            rows.push(row);
            y = y + 1;
        }
        let r = PixelBuffer { width, height, rows };
        assert(r.grid().len() == height);
        r
    }

    /// The pixel at column `x` of row `y`.
    pub fn get_pixel(&self, x: u32, y: u32) -> (p: Rgba)
        requires
            self.wf(),
            x < self.width,
            y < self.height,
        ensures
            p == self.pixel(x as int, y as int),
    {
        assert(self.grid()[y as int].len() == self.width);
        self.rows[y as usize][x as usize]
    }

    /// This buffer with a transparent band of `shake` pixels added on every side.
    pub fn pad(&self, shake: u32) -> (r: PixelBuffer)
        requires
            self.wf(),
            self.width + 2 * shake <= u32::MAX,
            self.height + 2 * shake <= u32::MAX,
        ensures
            r.wf(),
            r.width == self.width + 2 * shake,
            r.height == self.height + 2 * shake,
            r.grid() == pad_grid(self.grid(), self.width as int, self.height as int, shake as int),
    {
        let pw: u32 = self.width + 2 * shake;
        let ph: u32 = self.height + 2 * shake;
        let ghost g = self.grid();
        let ghost target = pad_grid(g, self.width as int, self.height as int, shake as int);
        let mut rows: Vec<Vec<Rgba>> = Vec::new();
        let mut y: u32 = 0;
        while y < ph
            invariant
                y <= ph,
                pw == self.width + 2 * shake,
                ph == self.height + 2 * shake,
                self.wf(),
                g == self.grid(),
                target == pad_grid(g, self.width as int, self.height as int, shake as int),
                rows@.len() == y,
                forall|yy: int| 0 <= yy < y ==> #[trigger] rows@[yy]@ == target[yy],
            decreases ph - y,
        {
            let mut row: Vec<Rgba> = Vec::new();
            let mut x: u32 = 0;
            while x < pw
                invariant
                    x <= pw,
                    y < ph,
                    pw == self.width + 2 * shake,
                    ph == self.height + 2 * shake,
                    self.wf(),
                    g == self.grid(),
                    target == pad_grid(g, self.width as int, self.height as int, shake as int),
                    row@.len() == x,
                    forall|xx: int| 0 <= xx < x ==> #[trigger] row@[xx] == target[y as int][xx],
                decreases pw - x,
            {
                let p = if shake <= x && x < shake + self.width && shake <= y && y < shake + self.height {
                    self.get_pixel(x - shake, y - shake)
                } else {
                    Rgba { r: 0, g: 0, b: 0, a: 0 }
                };
                row.push(p);
                x = x + 1;
            }
            assert(row@ =~= target[y as int]);
            rows.push(row);
            y = y + 1;
        }
        let r = PixelBuffer { width: pw, height: ph, rows };
        assert(r.grid() =~~= target);
        r
    }

    /// The `w` by `h` window of this buffer whose top-left pixel is `(x0, y0)`.
    pub fn crop(&self, x0: u32, y0: u32, w: u32, h: u32) -> (r: PixelBuffer)
        requires
            self.wf(),
            x0 + w <= self.width,
            y0 + h <= self.height,
        ensures
            r.wf(),
            r.width == w,
            r.height == h,
            r.grid() == crop_grid(self.grid(), x0 as int, y0 as int, w as int, h as int),
    {
        let ghost target = crop_grid(self.grid(), x0 as int, y0 as int, w as int, h as int);
        let mut rows: Vec<Vec<Rgba>> = Vec::new();
        let mut y: u32 = 0;
        while y < h
            invariant
                y <= h,
                x0 + w <= self.width,
                y0 + h <= self.height,
                self.wf(),
                target == crop_grid(self.grid(), x0 as int, y0 as int, w as int, h as int),
                rows@.len() == y,
                forall|yy: int| 0 <= yy < y ==> #[trigger] rows@[yy]@ == target[yy],
            decreases h - y,
        {
            let mut row: Vec<Rgba> = Vec::new();
            let mut x: u32 = 0;
            while x < w
                invariant
                    x <= w,
                    y < h,
                    x0 + w <= self.width,
                    y0 + h <= self.height,
                    self.wf(),
                    target == crop_grid(self.grid(), x0 as int, y0 as int, w as int, h as int),
                    row@.len() == x,
                    forall|xx: int| 0 <= xx < x ==> #[trigger] row@[xx] == target[y as int][xx],
                decreases w - x,
            {
                row.push(self.get_pixel(x0 + x, y0 + y));
                x = x + 1;
            }
            assert(row@ =~= target[y as int]);
            rows.push(row);
            y = y + 1;
        }
        let r = PixelBuffer { width: w, height: h, rows };
        assert(r.grid() =~~= target);
        r
    }

    /// The buffer whose row-major RGBA encoding is `bytes`, or `None` when
    /// `bytes` does not hold exactly `width * height` pixels.
    pub fn from_rgba_bytes(width: u32, height: u32, bytes: &Vec<u8>) -> (r: Option<PixelBuffer>)
        ensures
            r is None <==> bytes@.len() != width * height * 4,
            r matches Some(b) ==> {
                &&& b.wf()
                &&& b.width == width
                &&& b.height == height
                &&& rgba_bytes_of(bytes@, b.grid(), width as int, height as int)
            },
    {
        assert((width as int) * (height as int) * 4 <= 0x4_0000_0000_0000_0000) by (nonlinear_arith)
            requires width <= u32::MAX, height <= u32::MAX;
        if (width as u128) * (height as u128) * 4 != bytes.len() as u128 {
            return None;
        }
        let n: usize = bytes.len();
        let ghost w = width as int;
        let ghost h = height as int;
        let mut rows: Vec<Vec<Rgba>> = Vec::new();
        let mut k: usize = 0;
        let mut y: u32 = 0;
        while y < height
            invariant
                y <= height,
                bytes@.len() == w * h * 4,
                bytes@.len() == n,
                w == width,
                h == height,
                k == pixel_offset(w, 0, y as int),
                rows@.len() == y,
                forall|yy: int| 0 <= yy < y ==> #[trigger] rows@[yy]@.len() == w,
                forall|xx: int, yy: int|
                    0 <= xx < w && 0 <= yy < y ==> holds_pixel(bytes@, w, xx, yy, #[trigger] rows@[yy]@[xx]),
            decreases height - y,
        {
            let mut row: Vec<Rgba> = Vec::new();
            let mut x: u32 = 0;
            while x < width
                invariant
                    x <= width,
                    y < height,
                    bytes@.len() == w * h * 4,
                    bytes@.len() == n,
                    w == width,
                    h == height,
                    k == pixel_offset(w, x as int, y as int),
                    row@.len() == x,
                    forall|xx: int| 0 <= xx < x ==> holds_pixel(bytes@, w, xx, y as int, #[trigger] row@[xx]),
                decreases width - x,
            {
                proof {
                    lemma_offset_bound(w, h, x as int, y as int);
                }
                assert(k + 4 <= bytes@.len());
                let p = Rgba { r: bytes[k], g: bytes[k + 1], b: bytes[k + 2], a: bytes[k + 3] };
                row.push(p);
                k = k + 4;
                x = x + 1;
            }
            assert(pixel_offset(w, w, y as int) == pixel_offset(w, 0, y + 1)) by (nonlinear_arith);
            rows.push(row);
            y = y + 1;
        }
        let b = PixelBuffer { width, height, rows };
        assert(b.grid().len() == h);
        Some(b)
    }

    /// The row-major RGBA encoding of this buffer, four bytes per pixel.
    pub fn to_rgba_bytes(&self) -> (r: Vec<u8>)
        requires
            self.wf(),
            self.width * self.height * 4 <= usize::MAX,
        ensures
            rgba_bytes_of(r@, self.grid(), self.width as int, self.height as int),
    {
        let ghost w = self.width as int;
        let ghost h = self.height as int;
        let ghost g = self.grid();
        let mut out: Vec<u8> = Vec::new();
        let mut y: u32 = 0;
        while y < self.height
            invariant
                y <= h,
                self.wf(),
                w == self.width,
                h == self.height,
                g == self.grid(),
                w * h * 4 <= usize::MAX,
                out@.len() == pixel_offset(w, 0, y as int),
                forall|xx: int, yy: int|
                    0 <= xx < w && 0 <= yy < y ==> #[trigger] holds_pixel(out@, w, xx, yy, g[yy][xx]),
            decreases h - y,
        {
            let mut x: u32 = 0;
            while x < self.width
                invariant
                    x <= w,
                    y < h,
                    self.wf(),
                    w == self.width,
                    h == self.height,
                    g == self.grid(),
                    w * h * 4 <= usize::MAX,
                    out@.len() == pixel_offset(w, x as int, y as int),
                    forall|xx: int, yy: int|
                        0 <= xx < w && 0 <= yy < y + 1 && (yy < y || xx < x)
                            ==> #[trigger] holds_pixel(out@, w, xx, yy, g[yy][xx]),
                decreases w - x,
            {
                proof {
                    lemma_offset_bound(w, h, x as int, y as int);
                }
                let p = self.get_pixel(x, y);
                let ghost before = out@;
                out.push(p.r);
                out.push(p.g);
                out.push(p.b);
                out.push(p.a);
                proof {
                    assert forall|xx: int, yy: int|
                        0 <= xx < w && 0 <= yy < y + 1 && (yy < y || xx < x + 1)
                            implies #[trigger] holds_pixel(out@, w, xx, yy, g[yy][xx]) by {
                        if yy < y || xx < x {
                            lemma_offset_order(w, xx, yy, x as int, y as int);
                            assert(holds_pixel(before, w, xx, yy, g[yy][xx]));
                        }
                    }
                }
                x = x + 1;
            }
            assert(pixel_offset(w, w, y as int) == pixel_offset(w, 0, y + 1)) by (nonlinear_arith);
            y = y + 1;
        }
        assert(pixel_offset(w, 0, h) == w * h * 4) by (nonlinear_arith);
        out
    }

    /// Replaces the pixel at column `x` of row `y`.
    pub fn set_pixel(&mut self, x: u32, y: u32, p: Rgba)
        requires
            old(self).wf(),
            x < old(self).width,
            y < old(self).height,
        ensures
            final(self).wf(),
            final(self).width == old(self).width,
            final(self).height == old(self).height,
            final(self).grid() == old(self).grid().update(y as int, old(self).grid()[y as int].update(x as int, p)),
    {
        let ghost g = self.grid();
        assert(g[y as int].len() == self.width);
        let mut row: Vec<Rgba> = Vec::new();
        std::mem::swap(&mut row, &mut self.rows[y as usize]);
        row.set(x as usize, p);
        std::mem::swap(&mut row, &mut self.rows[y as usize]);
        assert(self.grid() =~~= g.update(y as int, g[y as int].update(x as int, p)));
    }
}

} // verus!
