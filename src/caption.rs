//! Burning an outlined caption into a canvas from glyph coverage masks.
use vstd::prelude::*;
use crate::canvas::{Grid, PixelBuffer, Rgba};

verus! {

/// The coverage level that stands for a fully covered pixel; a level `c`
/// stands for the opacity `c / FULL_COVERAGE`.
pub const FULL_COVERAGE: u16 = 65535;

/// One covered pixel of a glyph, relative to the glyph's bounding box.
#[derive(Clone, Copy, Debug, PartialEq, Eq, Structural)]
pub struct CoverageSample {
    pub x: u32,
    pub y: u32,
    pub level: u16,
}

/// A positioned glyph: the top-left corner and width of its pixel bounding
/// box, relative to the start of the text line on its baseline, and the
/// pixels it covers.
#[derive(Clone, Debug)]
pub struct GlyphMask {
    pub min_x: i32,
    pub min_y: i32,
    pub width: u32,
    pub samples: Vec<CoverageSample>,
}

/// The largest `r <= k` with `r * r <= n` (or 0).
pub open spec fn root_below(n: int, k: nat) -> nat
    decreases k,
{
    if k == 0 || k * k <= n {
        k
    } else {
        root_below(n, (k - 1) as nat)
    }
}

/// The quantity under the square root of the blend, rounded down:
/// `bg * (1 - v) + fg * v * 255` for the opacity `v = level / FULL_COVERAGE`.
pub open spec fn blend_radicand(bg: u8, fg: u8, level: u16) -> int {
    (bg * (FULL_COVERAGE - level) + fg * 255 * level) / (FULL_COVERAGE as int)
}

/// One channel of the blend: the integer square root of the radicand.
pub open spec fn blend_channel_spec(bg: u8, fg: u8, level: u16) -> u8 {
    root_below(blend_radicand(bg, fg, level), 255) as u8
}

/// The blended pixel: each color channel blended, fully opaque.
pub open spec fn blend_pixel_spec(bg: Rgba, fg: u8, level: u16) -> Rgba {
    Rgba {
        r: blend_channel_spec(bg.r, fg, level),
        g: blend_channel_spec(bg.g, fg, level),
        b: blend_channel_spec(bg.b, fg, level),
        a: 255,
    }
}

/// `root_below(n, k)` is the integer square root of `n` when `n < (k + 1)^2`.
proof fn lemma_root_below(n: int, k: nat)
    requires
        0 <= n < (k + 1) * (k + 1),
    ensures
        root_below(n, k) <= k,
        root_below(n, k) * root_below(n, k) <= n < (root_below(n, k) + 1) * (root_below(n, k) + 1),
    decreases k,
{
    if k == 0 || k * k <= n {
    } else {
        lemma_root_below(n, (k - 1) as nat);
    }
}

/// The blend radicand never exceeds `255 * 255`.
proof fn lemma_radicand_bound(bg: u8, fg: u8, level: u16)
    ensures
        0 <= blend_radicand(bg, fg, level) <= 65025,
{
    let num = bg * (FULL_COVERAGE - level) + fg * 255 * level;
    assert(0 <= num <= 65025 * 65535) by (nonlinear_arith)
        requires
            num == bg * (65535 - level) + fg * 255 * level,
            0 <= bg <= 255,
            0 <= fg <= 255,
            0 <= level <= 65535;
}

/// A blended channel is the floor of the square root of the blend radicand.
pub proof fn lemma_blend_is_floor_sqrt(bg: u8, fg: u8, level: u16)
    ensures
        ({
            let r = blend_channel_spec(bg, fg, level) as int;
            let q = blend_radicand(bg, fg, level);
            r * r <= q < (r + 1) * (r + 1)
        }),
{
    lemma_radicand_bound(bg, fg, level);
    assert((255nat + 1) * (255nat + 1) == 65536) by (nonlinear_arith);
    lemma_root_below(blend_radicand(bg, fg, level), 255);
}

/// Blends one channel of background `bg` toward foreground `fg` at coverage `level`.
pub fn blend_channel(bg: u8, fg: u8, level: u16) -> (r: u8)
    ensures
        r == blend_channel_spec(bg, fg, level),
{
    let ghost q = blend_radicand(bg, fg, level);
    assert((bg as u64) * ((FULL_COVERAGE - level) as u64) + (fg as u64) * 255 * (level as u64) <= 255 * 65535 * 256)
        by (nonlinear_arith)
        requires bg <= 255, fg <= 255, level <= 65535;
    let radicand: u64 = ((bg as u64) * ((FULL_COVERAGE - level) as u64) + (fg as u64) * 255 * (level as u64))
        / (FULL_COVERAGE as u64);
    assert(radicand == q);
    let mut root: u64 = 255;
    let mut too_big: bool = 255 * 255 > radicand;
    while root > 0 && too_big
        invariant
            root <= 255,
            radicand == q,
            too_big == (root * root > q),
            root_below(q, root as nat) == root_below(q, 255),
        decreases root,
    {
        root = root - 1;
        assert(root * root <= 65025) by (nonlinear_arith)
            requires root <= 255;
        too_big = root * root > radicand;
    }
    root as u8
}

/// Blends the background pixel toward the gray level `fg` at coverage `level`.
pub fn blend_pixel(bg: Rgba, fg: u8, level: u16) -> (r: Rgba)
    ensures
        r == blend_pixel_spec(bg, fg, level),
{
    Rgba {
        r: blend_channel(bg.r, fg, level),
        g: blend_channel(bg.g, fg, level),
        b: blend_channel(bg.b, fg, level),
        a: 255,
    }
}

/// `g` with the pixel `(x, y)` blended toward `fg` at coverage `level`;
/// unchanged where `(x, y)` lies outside `g` or the coverage is zero.
pub open spec fn stamp(g: Grid, x: int, y: int, fg: u8, level: u16) -> Grid {
    if 0 <= y < g.len() && 0 <= x < g[y].len() && level > 0 {
        g.update(y, g[y].update(x, blend_pixel_spec(g[y][x], fg, level)))
    } else {
        g
    }
}

/// `g` with the samples of one glyph stamped in order, the glyph's box
/// starting at `(bx, by)`.
pub open spec fn draw_samples(g: Grid, samples: Seq<CoverageSample>, bx: int, by: int, fg: u8) -> Grid
    decreases samples.len(),
{
    if samples.len() == 0 {
        g
    } else {
        let s = samples.last();
        stamp(draw_samples(g, samples.drop_last(), bx, by, fg), bx + s.x, by + s.y, fg, s.level)
    }
}

/// `g` with every glyph of a run drawn in order, the run's origin moved to `(ox, oy)`.
pub open spec fn draw_run(g: Grid, glyphs: Seq<GlyphMask>, ox: int, oy: int, fg: u8) -> Grid
    decreases glyphs.len(),
{
    if glyphs.len() == 0 {
        g
    } else {
        let m = glyphs.last();
        draw_samples(draw_run(g, glyphs.drop_last(), ox, oy, fg), m.samples@, ox + m.min_x, oy + m.min_y, fg)
    }
}

/// The sum of the bounding-box widths of the glyphs of a run.
pub open spec fn run_width(glyphs: Seq<GlyphMask>) -> int
    decreases glyphs.len(),
{
    if glyphs.len() == 0 {
        0
    } else {
        run_width(glyphs.drop_last()) + glyphs.last().width
    }
}

/// The horizontal origin that centers a run `total` pixels wide on an image
/// `w` pixels wide that starts at column `shake`; the half difference is
/// truncated toward zero.
pub open spec fn caption_x(w: int, total: int, shake: int) -> int {
    shake + if total <= w {
        (w - total) / 2
    } else {
        -((total - w) / 2)
    }
}

/// The caption's baseline: two thirds down an image `h` pixels
/// high that starts at row `shake`, rounded down.
pub open spec fn caption_y(h: int, shake: int) -> int {
    shake + (2 * h) / 3
}

/// The caption drawn at origin `(x0, y0)`: four black passes shifted one
/// pixel left, right, up and down, then one white pass in place.
pub open spec fn outlined_run(g: Grid, glyphs: Seq<GlyphMask>, x0: int, y0: int) -> Grid {
    let left = draw_run(g, glyphs, x0 - 1, y0, 0);
    let right = draw_run(left, glyphs, x0 + 1, y0, 0);
    let up = draw_run(right, glyphs, x0, y0 - 1, 0);
    let down = draw_run(up, glyphs, x0, y0 + 1, 0);
    draw_run(down, glyphs, x0, y0, 255)
}

/// The padded canvas `g` of an image `w` by `h` padded by `shake`, with the
/// caption centered on the image and its baseline two thirds down.
pub open spec fn captioned(g: Grid, glyphs: Seq<GlyphMask>, w: int, h: int, shake: int) -> Grid {
    outlined_run(g, glyphs, caption_x(w, run_width(glyphs), shake), caption_y(h, shake))
}

/// Bounds on the width of a run.
proof fn lemma_run_width_bounds(glyphs: Seq<GlyphMask>)
    ensures
        0 <= run_width(glyphs) <= glyphs.len() * 0x1_0000_0000,
    decreases glyphs.len(),
{
    if glyphs.len() > 0 {
        lemma_run_width_bounds(glyphs.drop_last());
    }
}

/// An empty run leaves the canvas as it was.
pub proof fn lemma_empty_run_draws_nothing(g: Grid, glyphs: Seq<GlyphMask>, w: int, h: int, shake: int)
    requires
        glyphs.len() == 0,
    ensures
        captioned(g, glyphs, w, h, shake) == g,
{
}

/// The largest magnitude of an origin that the drawing functions accept.
pub open spec fn origin_limit() -> int {
    0x10_0000_0000_0000_0000_0000_0000
}

/// Draws the samples of one glyph whose box starts at `(bx, by)`.
fn draw_mask(canvas: &mut PixelBuffer, mask: &GlyphMask, bx: i128, by: i128, fg: u8)
    requires
        old(canvas).wf(),
        -2 * origin_limit() <= bx <= 2 * origin_limit(),
        -2 * origin_limit() <= by <= 2 * origin_limit(),
    ensures
        final(canvas).wf(),
        final(canvas).width == old(canvas).width,
        final(canvas).height == old(canvas).height,
        final(canvas).grid() == draw_samples(old(canvas).grid(), mask.samples@, bx as int, by as int, fg),
{
    let ghost g0 = canvas.grid();
    let ghost samples = mask.samples@;
    let ghost w = canvas.width;
    let ghost h = canvas.height;
    let mut i: usize = 0;
    assert(samples.subrange(0, 0) =~= Seq::<CoverageSample>::empty());
    while i < mask.samples.len()
        invariant
            i <= samples.len(),
            samples == mask.samples@,
            canvas.wf(),
            canvas.width == w,
            canvas.height == h,
            -2 * origin_limit() <= bx <= 2 * origin_limit(),
            -2 * origin_limit() <= by <= 2 * origin_limit(),
            canvas.grid() == draw_samples(g0, samples.subrange(0, i as int), bx as int, by as int, fg),
        decreases samples.len() - i,
    {
        let s = mask.samples[i];
        let x: i128 = bx + s.x as i128;
        let y: i128 = by + s.y as i128;
        let ghost before = canvas.grid();
        assert(samples.subrange(0, i + 1).drop_last() =~= samples.subrange(0, i as int));
        if 0 <= x && x < canvas.width as i128 && 0 <= y && y < canvas.height as i128 && s.level > 0 {
            let bg = canvas.get_pixel(x as u32, y as u32);
            canvas.set_pixel(x as u32, y as u32, blend_pixel(bg, fg, s.level));
        }
        i = i + 1;
    }
    assert(samples.subrange(0, samples.len() as int) =~= samples);
}

/// Draws every glyph of a run in `fg`, the run's origin moved to `(ox, oy)`;
/// pixels that fall outside the canvas are skipped.
pub fn draw_glyphs(canvas: &mut PixelBuffer, glyphs: &Vec<GlyphMask>, ox: i128, oy: i128, fg: u8)
    requires
        old(canvas).wf(),
        -origin_limit() <= ox <= origin_limit(),
        -origin_limit() <= oy <= origin_limit(),
    ensures
        final(canvas).wf(),
        final(canvas).width == old(canvas).width,
        final(canvas).height == old(canvas).height,
        final(canvas).grid() == draw_run(old(canvas).grid(), glyphs@, ox as int, oy as int, fg),
{
    let ghost g0 = canvas.grid();
    let ghost w = canvas.width;
    let ghost h = canvas.height;
    let mut i: usize = 0;
    assert(glyphs@.subrange(0, 0) =~= Seq::<GlyphMask>::empty());
    while i < glyphs.len()
        invariant
            i <= glyphs@.len(),
            canvas.wf(),
            canvas.width == w,
            canvas.height == h,
            -origin_limit() <= ox <= origin_limit(),
            -origin_limit() <= oy <= origin_limit(),
            canvas.grid() == draw_run(g0, glyphs@.subrange(0, i as int), ox as int, oy as int, fg),
        decreases glyphs@.len() - i,
    {
        let m = &glyphs[i];
        assert(glyphs@.subrange(0, i + 1).drop_last() =~= glyphs@.subrange(0, i as int));
        draw_mask(canvas, m, ox + m.min_x as i128, oy + m.min_y as i128, fg);
        i = i + 1;
    }
    assert(glyphs@.subrange(0, glyphs@.len() as int) =~= glyphs@);
}

/// The sum of the bounding-box widths of a run.
pub fn text_width(glyphs: &Vec<GlyphMask>) -> (r: u128)
    ensures
        r == run_width(glyphs@),
{
    let mut total: u128 = 0;
    let mut i: usize = 0;
    assert(glyphs@.subrange(0, 0) =~= Seq::<GlyphMask>::empty());
    while i < glyphs.len()
        invariant
            i <= glyphs@.len(),
            total == run_width(glyphs@.subrange(0, i as int)),
        decreases glyphs@.len() - i,
    {
        assert(glyphs@.subrange(0, i + 1).drop_last() =~= glyphs@.subrange(0, i as int));
        proof {
            lemma_run_width_bounds(glyphs@.subrange(0, i as int));
            assert(i * 0x1_0000_0000 <= 0x1_0000_0000_0000_0000_0000_0000) by (nonlinear_arith)
                requires i <= usize::MAX;
        }
        total = total + glyphs[i].width as u128;
        i = i + 1;
    }
    assert(glyphs@.subrange(0, glyphs@.len() as int) =~= glyphs@);
    total
}

/// Burns the caption into a canvas that holds an image `image_width` by
/// `image_height` padded by `shake`: the run is centered on the image, its
/// baseline two thirds down (glyph boxes are relative to the baseline),
/// drawn in white over a one-pixel black outline.
pub fn overlay_text(canvas: &mut PixelBuffer, glyphs: &Vec<GlyphMask>, image_width: u32, image_height: u32, shake: u32)
    requires
        old(canvas).wf(),
    ensures
        final(canvas).wf(),
        final(canvas).width == old(canvas).width,
        final(canvas).height == old(canvas).height,
        final(canvas).grid() == captioned(
            old(canvas).grid(),
            glyphs@,
            image_width as int,
            image_height as int,
            shake as int,
        ),
{
    let total = text_width(glyphs);
    let n: usize = glyphs.len();
    proof {
        lemma_run_width_bounds(glyphs@);
        assert(n * 0x1_0000_0000 <= 0x1_0000_0000_0000_0000_0000_0000) by (nonlinear_arith)
            requires n <= usize::MAX;
    }
    let w = image_width as u128;
    let half: i128 = if total <= w {
        ((w - total) / 2) as i128
    } else {
        -(((total - w) / 2) as i128)
    };
    let x0: i128 = shake as i128 + half;
    let y0: i128 = shake as i128 + (2 * image_height as i128) / 3;
    draw_glyphs(canvas, glyphs, x0 - 1, y0, 0);
    draw_glyphs(canvas, glyphs, x0 + 1, y0, 0);
    draw_glyphs(canvas, glyphs, x0, y0 - 1, 0);
    draw_glyphs(canvas, glyphs, x0, y0 + 1, 0);
    draw_glyphs(canvas, glyphs, x0, y0, 255);
}

/// The default cap on the glyph size, in pixels.
pub const MAX_FONT_SIZE: u32 = 48;

/// The glyph size, in thirds of a pixel, for an image `w` pixels wide: the
/// smaller of the cap `max_size` and `w / 1.5`.
pub open spec fn glyph_size_thirds_spec(max_size: int, w: int) -> int {
    if 3 * max_size <= 2 * w {
        3 * max_size
    } else {
        2 * w
    }
}

/// The glyph size, in thirds of a pixel, for an image `image_width` pixels
/// wide: the smaller of `max_size` and `image_width / 1.5`.
pub fn glyph_size_thirds(max_size: u32, image_width: u32) -> (r: u64)
    ensures
        r == glyph_size_thirds_spec(max_size as int, image_width as int),
{
    let cap: u64 = 3 * max_size as u64;
    let fit: u64 = 2 * image_width as u64;
    if cap <= fit {
        cap
    } else {
        fit
    }
}

} // verus!
