//! Jittered crops of the captioned canvas, and the animation they make.
use vstd::prelude::*;
use rand::Rng;
use crate::canvas::{Grid, PixelBuffer, crop_grid, grid_shaped, lemma_grid_determines_rgba_bytes, lemma_rgba_bytes_determine_grid, pad_grid, rgba_bytes_of};
use crate::caption::{GlyphMask, captioned, overlay_text};

verus! {

/// The delay between frames, in hundredths of a second.
pub const FRAME_DELAY: u16 = 2;

/// An ordered run of equally sized frames, shown `delay` hundredths of a
/// second each, looping forever when `repeat_forever` holds.
#[derive(Clone, Debug)]
pub struct Animation {
    pub width: u32,
    pub height: u32,
    pub frames: Vec<PixelBuffer>,
    pub delay: u16,
    pub repeat_forever: bool,
}

impl Animation {
    /// Every frame is a well-formed buffer of the animation's size.
    pub open spec fn wf(&self) -> bool {
        forall|i: int| 0 <= i < self.frames@.len() ==> {
            &&& (#[trigger] self.frames@[i]).wf()
            &&& self.frames@[i].width == self.width
            &&& self.frames@[i].height == self.height
        }
    }
}

/// A drawn offset is allowed for the shake radius `s`: in `[-s, s)`, or 0
/// when there is no shake.
pub open spec fn jitter_ok(s: int, d: int) -> bool {
    if s == 0 {
        d == 0
    } else {
        -s <= d < s
    }
}

/// The padded, captioned canvas of an image `g` of size `w` by `h`.
pub open spec fn base_canvas(g: Grid, glyphs: Seq<GlyphMask>, w: int, h: int, s: int) -> Grid {
    captioned(pad_grid(g, w, h, s), glyphs, w, h, s)
}

/// The frame cut from `base` at offset `(dx, dy)` from the centered window.
pub open spec fn frame_at(base: Grid, w: int, h: int, s: int, dx: int, dy: int) -> Grid {
    crop_grid(base, s + dx, s + dy, w, h)
}

/// `f` is the frame cut from `base` at some offset allowed for the shake radius `s`.
pub open spec fn jittered_frame(f: Grid, base: Grid, w: int, h: int, s: int) -> bool {
    exists|dx: int, dy: int| jitter_ok(s, dx) && jitter_ok(s, dy) && f == #[trigger] frame_at(base, w, h, s, dx, dy)
}

/// Every offset drawn from `[-s, s)` places the `w` by `h` window inside the
/// canvas padded by `s`.
pub proof fn lemma_jitter_window_in_bounds(w: int, h: int, s: int, dx: int, dy: int)
    requires
        0 <= w,
        0 <= h,
        0 <= s,
        -s <= dx < s,
        -s <= dy < s,
    ensures
        0 <= s + dx,
        s + dx + w <= w + 2 * s,
        0 <= s + dy,
        s + dy + h <= h + 2 * s,
{
}

/// Padding keeps the image: the window at the padding's inner corner is the
/// source, pixel for pixel, and the band around it is transparent.
pub proof fn lemma_padding_interior(g: Grid, w: int, h: int, s: int)
    requires
        grid_shaped(g, w, h),
        0 <= w,
        0 <= s,
    ensures
        crop_grid(pad_grid(g, w, h, s), s, s, w, h) == g,
        grid_shaped(pad_grid(g, w, h, s), w + 2 * s, h + 2 * s),
        forall|x: int, y: int|
            0 <= x < w + 2 * s && 0 <= y < h + 2 * s && !(s <= x < s + w && s <= y < s + h)
                ==> pad_grid(g, w, h, s)[y][x] == crate::canvas::transparent(),
{
    let c = crop_grid(pad_grid(g, w, h, s), s, s, w, h);
    assert forall|y: int| 0 <= y < h implies c[y] == g[y] by {
        assert(c[y] =~= g[y]);
    }
    assert(c =~= g);
}

/// Without a caption every frame is a crop of the padded image alone.
pub proof fn lemma_empty_caption_frames(g: Grid, glyphs: Seq<GlyphMask>, w: int, h: int, s: int, dx: int, dy: int)
    requires
        glyphs.len() == 0,
    ensures
        frame_at(base_canvas(g, glyphs, w, h, s), w, h, s, dx, dy) == crop_grid(pad_grid(g, w, h, s), s + dx, s + dy, w, h),
{
}

/// An unshaken, uncaptioned frame is the decoded image itself, so its RGBA
/// bytes are exactly the bytes the image was decoded to, and those bytes
/// read back give the image again.
pub proof fn lemma_round_trip(bytes: Seq<u8>, g: Grid, w: int, h: int, frame_bytes: Seq<u8>)
    requires
        grid_shaped(g, w, h),
        0 <= w,
        rgba_bytes_of(bytes, g, w, h),
        rgba_bytes_of(frame_bytes, frame_at(base_canvas(g, Seq::empty(), w, h, 0), w, h, 0, 0, 0), w, h),
    ensures
        frame_at(base_canvas(g, Seq::empty(), w, h, 0), w, h, 0, 0, 0) == g,
        frame_bytes == bytes,
        forall|g2: Grid| grid_shaped(g2, w, h) && rgba_bytes_of(frame_bytes, g2, w, h) ==> g2 == g,
{
    lemma_padding_interior(g, w, h, 0);
    lemma_empty_caption_frames(g, Seq::empty(), w, h, 0, 0, 0);
    lemma_grid_determines_rgba_bytes(frame_bytes, bytes, g, w, h);
    assert forall|g2: Grid| grid_shaped(g2, w, h) && rgba_bytes_of(frame_bytes, g2, w, h) implies g2 == g by {
        lemma_rgba_bytes_determine_grid(frame_bytes, g2, g, w, h);
    }
}

/// Relies on rand's `thread_rng` and `Rng::gen_range`, which returns a value
/// in `[low, high)` and panics when `low >= high`.
#[verifier::external_body]
fn random_in(low: i32, high: i32) -> (r: i32)
    requires
        low < high,
    ensures
        low <= r < high,
{
    rand::thread_rng().gen_range(low, high)
}

/// Draws `count` offset pairs for the shake radius `shake`, each coordinate
/// uniformly from `[-shake, shake)`, or 0 when `shake` is 0.
pub fn draw_offsets(count: u8, shake: u8) -> (r: Vec<(i32, i32)>)
    ensures
        r@.len() == count,
        forall|i: int| 0 <= i < count ==> jitter_ok(shake as int, (#[trigger] r@[i]).0 as int) && jitter_ok(shake as int, r@[i].1 as int),
{
    let mut r: Vec<(i32, i32)> = Vec::new();
    let mut i: u8 = 0;
    while i < count
        invariant
            i <= count,
            r@.len() == i,
            forall|j: int| 0 <= j < i ==> jitter_ok(shake as int, (#[trigger] r@[j]).0 as int) && jitter_ok(shake as int, r@[j].1 as int),
        decreases count - i,
    {
        let pair = if shake == 0 {
            (0i32, 0i32)
        } else {
            let s = shake as i32;
            (random_in(-s, s), random_in(-s, s))
        };
        r.push(pair);
        i = i + 1;
    }
    r
}

/// The padded canvas of `image` with the caption burnt in.
pub fn compose_canvas(image: &PixelBuffer, glyphs: &Vec<GlyphMask>, shake: u8) -> (r: PixelBuffer)
    requires
        image.wf(),
        image.width + 2 * shake <= u32::MAX,
        image.height + 2 * shake <= u32::MAX,
    ensures
        r.wf(),
        r.width == image.width + 2 * shake,
        r.height == image.height + 2 * shake,
        r.grid() == base_canvas(image.grid(), glyphs@, image.width as int, image.height as int, shake as int),
{
    let mut canvas = image.pad(shake as u32);
    overlay_text(&mut canvas, glyphs, image.width, image.height, shake as u32);
    canvas
}

/// The animation whose frames are the crops of the captioned canvas at the
/// given offsets, in order.
pub fn assemble_frames(image: &PixelBuffer, glyphs: &Vec<GlyphMask>, shake: u8, offsets: &Vec<(i32, i32)>) -> (r: Animation)
    requires
        image.wf(),
        image.width + 2 * shake <= u32::MAX,
        image.height + 2 * shake <= u32::MAX,
        forall|i: int| 0 <= i < offsets@.len() ==> -shake <= (#[trigger] offsets@[i]).0 <= shake && -shake <= offsets@[i].1 <= shake,
    ensures
        r.wf(),
        r.width == image.width,
        r.height == image.height,
        r.delay == FRAME_DELAY,
        r.repeat_forever,
        r.frames@.len() == offsets@.len(),
        forall|i: int| 0 <= i < offsets@.len() ==> (#[trigger] r.frames@[i]).grid() == frame_at(
            base_canvas(image.grid(), glyphs@, image.width as int, image.height as int, shake as int),
            image.width as int,
            image.height as int,
            shake as int,
            offsets@[i].0 as int,
            offsets@[i].1 as int,
        ),
{
    let canvas = compose_canvas(image, glyphs, shake);
    let ghost base = canvas.grid();
    let mut frames: Vec<PixelBuffer> = Vec::new();
    let mut i: usize = 0;
    while i < offsets.len()
        invariant
            i <= offsets@.len(),
            canvas.wf(),
            canvas.width == image.width + 2 * shake,
            canvas.height == image.height + 2 * shake,
            base == canvas.grid(),
            forall|j: int| 0 <= j < offsets@.len() ==> -shake <= (#[trigger] offsets@[j]).0 <= shake && -shake <= offsets@[j].1 <= shake,
            frames@.len() == i,
            forall|j: int| 0 <= j < i ==> {
                &&& (#[trigger] frames@[j]).wf()
                &&& frames@[j].width == image.width
                &&& frames@[j].height == image.height
                &&& frames@[j].grid() == frame_at(
                    base,
                    image.width as int,
                    image.height as int,
                    shake as int,
                    offsets@[j].0 as int,
                    offsets@[j].1 as int,
                )
            },
        decreases offsets@.len() - i,
    {
        let (dx, dy) = offsets[i];
        let x0 = (shake as i32 + dx) as u32;
        let y0 = (shake as i32 + dy) as u32;
        frames.push(canvas.crop(x0, y0, image.width, image.height));
        i = i + 1;
    }
    Animation { width: image.width, height: image.height, frames, delay: FRAME_DELAY, repeat_forever: true }
}

/// The shaking animation of `image` with its caption: `num_frames` crops of
/// the captioned canvas, each at an offset drawn from `[-shake, shake)` on
/// both axes (none when `shake` is 0).
pub fn intensify(image: &PixelBuffer, glyphs: &Vec<GlyphMask>, num_frames: u8, shake: u8) -> (r: Animation)
    requires
        image.wf(),
        image.width + 2 * shake <= u32::MAX,
        image.height + 2 * shake <= u32::MAX,
    ensures
        r.wf(),
        r.width == image.width,
        r.height == image.height,
        r.delay == FRAME_DELAY,
        r.repeat_forever,
        r.frames@.len() == num_frames,
        forall|i: int| 0 <= i < num_frames ==> jittered_frame(
            (#[trigger] r.frames@[i]).grid(),
            base_canvas(image.grid(), glyphs@, image.width as int, image.height as int, shake as int),
            image.width as int,
            image.height as int,
            shake as int,
        ),
{
    let offsets = draw_offsets(num_frames, shake);
    let r = assemble_frames(image, glyphs, shake, &offsets);
    let ghost base = base_canvas(image.grid(), glyphs@, image.width as int, image.height as int, shake as int);
    assert forall|i: int| 0 <= i < num_frames implies jittered_frame(
        (#[trigger] r.frames@[i]).grid(),
        base,
        image.width as int,
        image.height as int,
        shake as int,
    ) by {
        let dx = offsets@[i].0 as int;
        let dy = offsets@[i].1 as int;
        assert(jitter_ok(shake as int, dx) && jitter_ok(shake as int, dy));
        assert(r.frames@[i].grid() == frame_at(base, image.width as int, image.height as int, shake as int, dx, dy));
    }
    r
}

} // verus!
