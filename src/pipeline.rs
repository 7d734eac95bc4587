//! The whole transformation: base64 image text and a caption in, base64
//! animated GIF text out.
use vstd::prelude::*;
use crate::canvas::{Grid, PixelBuffer, grid_shaped, lemma_grid_determines_rgba_bytes, rgba_bytes_of};
use crate::caption::{GlyphMask, MAX_FONT_SIZE, glyph_size_thirds, glyph_size_thirds_spec};
use crate::codec::{
    base64_decode, base64_decoded, base64_encode, base64_text, decoded_rgba, gif_file, gif_finish, gif_frames,
    gif_loop_forever, gif_loops, gif_screen, gif_start, gif_write_frame, load_rgba,
};
use crate::frames::{
    Animation, FRAME_DELAY, base_canvas, frame_at, intensify, jitter_ok, jittered_frame, lemma_empty_caption_frames,
    lemma_padding_interior,
};

verus! {

/// The stage at which the pipeline failed.
#[derive(Clone, Copy, Debug, PartialEq, Eq, Structural)]
pub enum GenerateError {
    /// The image text is not valid base64.
    TextDecode,
    /// The image bytes are not a recognized, intact image.
    ImageDecode,
    /// The animation cannot be written, for instance for a zero or oversized dimension.
    Encode,
}

impl GenerateError {
    /// A human-readable description of the failure.
    pub fn message(&self) -> (r: String)
        ensures
            *self == GenerateError::TextDecode ==> r@ == "Failed to decode b64 image."@,
            *self == GenerateError::ImageDecode ==> r@ == "Failed to decode image in memory."@,
            *self == GenerateError::Encode ==> r@ == "Failed to encode animation."@,
    {
        match self {
            GenerateError::TextDecode => "Failed to decode b64 image.".to_owned(),
            GenerateError::ImageDecode => "Failed to decode image in memory.".to_owned(),
            GenerateError::Encode => "Failed to encode animation.".to_owned(),
        }
    }
}

/// `bytes` hold a recognized, intact image.
pub open spec fn decodes_to_image(bytes: Seq<u8>) -> bool {
    decoded_rgba(bytes) is Some
}

/// `glyphs` is the run laid out for `text` at `size_thirds`: none for an
/// empty caption, else a result of `rasterize` on the text and size.
pub open spec fn laid_out<F: Fn(String, u64) -> Vec<GlyphMask>>(
    rasterize: F,
    text: String,
    size_thirds: u64,
    glyphs: Vec<GlyphMask>,
) -> bool {
    if text@.len() == 0 {
        glyphs@.len() == 0
    } else {
        rasterize.ensures((text, size_thirds), glyphs)
    }
}

/// An animation of this size can be written as a GIF: both dimensions are
/// positive and fit the format, and a frame's RGBA bytes fit in memory.
pub open spec fn gif_size_ok(w: int, h: int) -> bool {
    &&& 0 < w <= u16::MAX
    &&& 0 < h <= u16::MAX
    &&& w * h * 4 <= usize::MAX
}

/// The grids of an animation's frames, in order.
pub open spec fn animation_grids(anim: Animation) -> Seq<Grid> {
    Seq::new(anim.frames@.len(), |i: int| anim.frames@[i].grid())
}

/// `frames` are the GIF frames of `grids`: each shown `delay`, built from
/// the RGBA bytes of the `w` by `h` grid at the same place.
pub open spec fn gif_frames_of(frames: Seq<(u16, Seq<u8>)>, grids: Seq<Grid>, w: int, h: int, delay: int) -> bool {
    &&& frames.len() == grids.len()
    &&& forall|i: int| 0 <= i < frames.len() ==> {
        &&& (#[trigger] frames[i]).0 == delay
        &&& rgba_bytes_of(frames[i].1, grids[i], w, h)
    }
}

/// `gif` is a looping GIF of `n` frames of size `w` by `h`, each shown
/// `FRAME_DELAY`, each the crop at some allowed offset of the image `g`
/// padded by `s` with `glyphs` burnt in as its caption.
pub open spec fn shaking_gif(gif: Seq<u8>, g: Grid, glyphs: Seq<GlyphMask>, w: int, h: int, s: int, n: int) -> bool {
    exists|grids: Seq<Grid>, frames: Seq<(u16, Seq<u8>)>| {
        &&& grids.len() == n
        &&& forall|i: int| 0 <= i < n ==> jittered_frame(#[trigger] grids[i], base_canvas(g, glyphs, w, h, s), w, h, s)
        &&& #[trigger] gif_frames_of(frames, grids, w, h, FRAME_DELAY as int)
        &&& gif == gif_file(w as u16, h as u16, true, frames)
    }
}

/// `out` is the base64 text of a `shaking_gif` of the image decoded from
/// `bytes`, its caption `text` laid out by `rasterize` at the default cap.
pub open spec fn shaking_gif_text<F: Fn(String, u64) -> Vec<GlyphMask>>(
    out: Seq<char>,
    bytes: Seq<u8>,
    rasterize: F,
    text: String,
    s: int,
    n: int,
) -> bool {
    &&& decoded_rgba(bytes) matches Some((w, h, data))
    &&& exists|g: Grid, gif: Seq<u8>, glyphs: Vec<GlyphMask>| {
        &&& grid_shaped(g, w as int, h as int)
        &&& rgba_bytes_of(data, g, w as int, h as int)
        &&& out == base64_text(gif)
        &&& laid_out(rasterize, text, glyph_size_thirds_spec(MAX_FONT_SIZE as int, w as int) as u64, glyphs)
        &&& #[trigger] shaking_gif(gif, g, glyphs@, w as int, h as int, s, n)
    }
}

/// A one-frame GIF of an image with no shake and no caption holds the
/// image itself: its only frame is built from exactly the image's RGBA bytes.
pub proof fn lemma_unshaken_gif_holds_the_image(gif: Seq<u8>, g: Grid, bytes: Seq<u8>, w: int, h: int)
    requires
        grid_shaped(g, w, h),
        0 <= w,
        rgba_bytes_of(bytes, g, w, h),
        shaking_gif(gif, g, Seq::empty(), w, h, 0, 1),
    ensures
        gif == gif_file(w as u16, h as u16, true, seq![(FRAME_DELAY, bytes)]),
{
    let (grids, frames) = choose|grids: Seq<Grid>, frames: Seq<(u16, Seq<u8>)>| {
        &&& grids.len() == 1
        &&& forall|i: int| 0 <= i < 1 ==> jittered_frame(#[trigger] grids[i], base_canvas(g, Seq::empty(), w, h, 0), w, h, 0)
        &&& #[trigger] gif_frames_of(frames, grids, w, h, FRAME_DELAY as int)
        &&& gif == gif_file(w as u16, h as u16, true, frames)
    };
    let base = base_canvas(g, Seq::empty(), w, h, 0);
    assert(jittered_frame(grids[0], base, w, h, 0));
    let (dx, dy) = choose|dx: int, dy: int| jitter_ok(0, dx) && jitter_ok(0, dy) && grids[0] == #[trigger] frame_at(base, w, h, 0, dx, dy);
    lemma_padding_interior(g, w, h, 0);
    lemma_empty_caption_frames(g, Seq::empty(), w, h, 0, 0, 0);
    assert(grids[0] == g);
    assert(frames[0].0 == FRAME_DELAY);
    assert(rgba_bytes_of(frames[0].1, g, w, h));
    lemma_grid_determines_rgba_bytes(frames[0].1, bytes, g, w, h);
    assert(frames =~= seq![(FRAME_DELAY, bytes)]);
}

/// Decodes image bytes, of any format the decoder recognizes, into a pixel buffer.
pub fn decode_image(bytes: &Vec<u8>) -> (r: Result<PixelBuffer, GenerateError>)
    ensures
        r is Err <==> !decodes_to_image(bytes@),
        r matches Err(e) ==> e == GenerateError::ImageDecode,
        r matches Ok(b) ==> {
            &&& b.wf()
            &&& decoded_rgba(bytes@) == Some((b.width, b.height, decoded_rgba(bytes@).unwrap().2))
            &&& rgba_bytes_of(decoded_rgba(bytes@).unwrap().2, b.grid(), b.width as int, b.height as int)
        },
{
    match load_rgba(bytes) {
        Err(_) => Err(GenerateError::ImageDecode),
        Ok((w, h, data)) => match PixelBuffer::from_rgba_bytes(w, h, &data) {
            None => Err(GenerateError::ImageDecode),
            Some(b) => Ok(b),
        },
    }
}

/// Writes an animation as a GIF, each frame shown for the animation's delay,
/// marked as looping forever when the animation says so. Fails with `Encode`
/// exactly when the size cannot be written.
pub fn encode_animation(anim: &Animation) -> (r: Result<Vec<u8>, GenerateError>)
    requires
        anim.wf(),
    ensures
        r is Ok <==> gif_size_ok(anim.width as int, anim.height as int),
        r matches Err(e) ==> e == GenerateError::Encode,
        r matches Ok(b) ==> exists|frames: Seq<(u16, Seq<u8>)>| {
            &&& #[trigger] gif_frames_of(frames, animation_grids(*anim), anim.width as int, anim.height as int, anim.delay as int)
            &&& b@ == gif_file(anim.width as u16, anim.height as u16, anim.repeat_forever, frames)
        },
{
    if anim.width == 0 || anim.width > 65535 || anim.height == 0 || anim.height > 65535 {
        return Err(GenerateError::Encode);
    }
    assert((anim.width as int) * (anim.height as int) * 4 <= 65535 * 65535 * 4) by (nonlinear_arith)
        requires anim.width <= 65535, anim.height <= 65535;
    if (anim.width as u64) * (anim.height as u64) * 4 > usize::MAX as u64 {
        return Err(GenerateError::Encode);
    }
    let w = anim.width as u16;
    let h = anim.height as u16;
    let ghost grids = animation_grids(*anim);
    let mut stream = match gif_start(w, h) {
        Ok(s) => s,
        Err(_) => return Err(GenerateError::Encode),
    };
    if anim.repeat_forever {
        if gif_loop_forever(&mut stream).is_err() {
            return Err(GenerateError::Encode);
        }
    }
    let mut i: usize = 0;
    while i < anim.frames.len()
        invariant
            anim.wf(),
            0 < anim.width <= 65535,
            0 < anim.height <= 65535,
            w == anim.width,
            h == anim.height,
            anim.width * anim.height * 4 <= usize::MAX,
            grids == animation_grids(*anim),
            i <= anim.frames@.len(),
            gif_screen(stream) == (w, h),
            gif_loops(stream) == anim.repeat_forever,
            gif_frames_of(gif_frames(stream), grids.take(i as int), w as int, h as int, anim.delay as int),
        decreases anim.frames@.len() - i,
    {
        let frame = &anim.frames[i];
        assert(frame.wf() && frame.width == anim.width && frame.height == anim.height);
        let pixels = frame.to_rgba_bytes();
        let ghost before = gif_frames(stream);
        if gif_write_frame(&mut stream, w, h, pixels, anim.delay).is_err() {
            return Err(GenerateError::Encode);
        }
        proof {
            let after = gif_frames(stream);
            assert(grids.take(i + 1) =~= grids.take(i as int).push(frame.grid()));
            assert forall|j: int| 0 <= j < after.len() implies {
                &&& (#[trigger] after[j]).0 == anim.delay as int
                &&& rgba_bytes_of(after[j].1, grids.take(i + 1)[j], w as int, h as int)
            } by {
                if j < i {
                    assert(after[j] == before[j]);
                }
            }
        }
        i = i + 1;
    }
    assert(grids.take(anim.frames@.len() as int) =~= grids);
    match gif_finish(stream) {
        Ok(bytes) => Ok(bytes),
        Err(_) => Err(GenerateError::Encode),
    }
}

/// The looping GIF of `image` shaking by up to `shake_intensity` pixels over
/// `num_frames` frames, with the caption laid out by `rasterize` at the
/// smaller of `max_font_size` and two thirds of the image width, in thirds
/// of a pixel. `rasterize` lays the text out on one line from a pen at
/// `(0, 0)` on the baseline, one mask per glyph in text order, each box
/// relative to the baseline. Fails with `Encode` exactly when the image's
/// size cannot be written.
pub fn generate_image<F: Fn(String, u64) -> Vec<GlyphMask>>(
    image: &PixelBuffer,
    text: &String,
    max_font_size: u32,
    num_frames: u8,
    shake_intensity: u8,
    rasterize: &F,
) -> (r: Result<Vec<u8>, GenerateError>)
    requires
        image.wf(),
        forall|t: String, size: u64| #[trigger] rasterize.requires((t, size)),
    ensures
        r is Ok <==> gif_size_ok(image.width as int, image.height as int),
        r matches Err(e) ==> e == GenerateError::Encode,
        text@.len() == 0 && r is Ok ==> shaking_gif(
            r->Ok_0@,
            image.grid(),
            Seq::empty(),
            image.width as int,
            image.height as int,
            shake_intensity as int,
            num_frames as int,
        ),
        r matches Ok(b) ==> exists|glyphs: Vec<GlyphMask>| {
            &&& #[trigger] laid_out(
                *rasterize,
                *text,
                glyph_size_thirds_spec(max_font_size as int, image.width as int) as u64,
                glyphs,
            )
            &&& shaking_gif(
                b@,
                image.grid(),
                glyphs@,
                image.width as int,
                image.height as int,
                shake_intensity as int,
                num_frames as int,
            )
        },
{
    if image.width == 0 || image.width > 65535 || image.height == 0 || image.height > 65535 {
        return Err(GenerateError::Encode);
    }
    let size = glyph_size_thirds(max_font_size, image.width);
    let empty = String::new();
    let glyphs = if *text == empty {
        Vec::new()
    } else {
        proof {
            if text@.len() == 0 {
                assert(text@ =~= empty@);
            }
        }
        rasterize(text.clone(), size)
    };
    let anim = intensify(image, &glyphs, num_frames, shake_intensity);
    let r = encode_animation(&anim);
    proof {
        if r is Ok {
            let b = r->Ok_0;
            let frames = choose|frames: Seq<(u16, Seq<u8>)>| {
                &&& #[trigger] gif_frames_of(frames, animation_grids(anim), anim.width as int, anim.height as int, anim.delay as int)
                &&& b@ == gif_file(anim.width as u16, anim.height as u16, anim.repeat_forever, frames)
            };
            let grids = animation_grids(anim);
            let base = base_canvas(image.grid(), glyphs@, image.width as int, image.height as int, shake_intensity as int);
            assert forall|i: int| 0 <= i < num_frames implies jittered_frame(
                #[trigger] grids[i],
                base,
                image.width as int,
                image.height as int,
                shake_intensity as int,
            ) by {
                assert(grids[i] == anim.frames@[i].grid());
            }
            assert(gif_frames_of(frames, grids, image.width as int, image.height as int, FRAME_DELAY as int));
            assert(shaking_gif(
                b@,
                image.grid(),
                glyphs@,
                image.width as int,
                image.height as int,
                shake_intensity as int,
                num_frames as int,
            ));
            assert(laid_out(
                *rasterize,
                *text,
                glyph_size_thirds_spec(max_font_size as int, image.width as int) as u64,
                glyphs,
            ));
            if text@.len() == 0 {
                assert(glyphs@ =~= Seq::<GlyphMask>::empty());
            }
        }
    }
    r
}

/// Turns a base64 image and a caption into base64 text of a looping GIF of
/// `num_frames` frames shaking by up to `shake_intensity` pixels, the caption
/// laid out by `rasterize` (as `generate_image` describes) at the default
/// size cap.
pub fn generate<F: Fn(String, u64) -> Vec<GlyphMask>>(
    b64_image: &String,
    text: &String,
    num_frames: u8,
    shake_intensity: u8,
    rasterize: &F,
) -> (r: Result<String, GenerateError>)
    requires
        forall|t: String, size: u64| #[trigger] rasterize.requires((t, size)),
    ensures
        base64_decoded(b64_image@) is None <==> r == Err::<String, GenerateError>(GenerateError::TextDecode),
        base64_decoded(b64_image@) matches Some(bytes) ==> (!decodes_to_image(bytes) <==> r
            == Err::<String, GenerateError>(GenerateError::ImageDecode)),
        base64_decoded(b64_image@) matches Some(bytes) ==> (decodes_to_image(bytes) ==> (r is Ok <==> gif_size_ok(
            decoded_rgba(bytes).unwrap().0 as int,
            decoded_rgba(bytes).unwrap().1 as int,
        ))),
        base64_decoded(b64_image@) matches Some(bytes) ==> (decodes_to_image(bytes) && r is Err ==> r
            == Err::<String, GenerateError>(GenerateError::Encode)),
        r matches Ok(s) ==> base64_decoded(b64_image@) matches Some(bytes) && shaking_gif_text(
            s@,
            bytes,
            *rasterize,
            *text,
            shake_intensity as int,
            num_frames as int,
        ),
{
    let image_data = match base64_decode(b64_image) {
        Ok(data) => data,
        Err(_) => return Err(GenerateError::TextDecode),
    };
    let image = match decode_image(&image_data) {
        Ok(image) => image,
        Err(e) => return Err(e),
    };
    match generate_image(&image, text, MAX_FONT_SIZE, num_frames, shake_intensity, rasterize) {
        Ok(gif) => {
            let s = base64_encode(&gif);
            assert(s@ == base64_text(gif@));
            proof {
                let glyphs = choose|glyphs: Vec<GlyphMask>| {
                    &&& #[trigger] laid_out(
                        *rasterize,
                        *text,
                        glyph_size_thirds_spec(MAX_FONT_SIZE as int, image.width as int) as u64,
                        glyphs,
                    )
                    &&& shaking_gif(
                        gif@,
                        image.grid(),
                        glyphs@,
                        image.width as int,
                        image.height as int,
                        shake_intensity as int,
                        num_frames as int,
                    )
                };
                let data = decoded_rgba(image_data@).unwrap().2;
                let w = decoded_rgba(image_data@).unwrap().0;
                let h = decoded_rgba(image_data@).unwrap().1;
                assert(w == image.width && h == image.height);
                assert(grid_shaped(image.grid(), w as int, h as int));
                assert(rgba_bytes_of(data, image.grid(), w as int, h as int));
                assert(s@ == base64_text(gif@));
                assert(laid_out(*rasterize, *text, glyph_size_thirds_spec(MAX_FONT_SIZE as int, w as int) as u64, glyphs));
                assert(shaking_gif(gif@, image.grid(), glyphs@, w as int, h as int, shake_intensity as int, num_frames as int));
                assert(shaking_gif_text(s@, image_data@, *rasterize, *text, shake_intensity as int, num_frames as int));
            }
            Ok(s)
        },
        Err(e) => Err(e),
    }
}

} // verus!
