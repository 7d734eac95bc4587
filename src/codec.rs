//! The outside codecs the pipeline relies on: base64 text, still-image
//! decoding and animated GIF encoding.
use vstd::prelude::*;

verus! {

#[verifier::external_type_specification]
#[verifier::external_body]
pub struct ExBase64DecodeError(base64::DecodeError);

#[verifier::external_type_specification]
#[verifier::external_body]
pub struct ExImageError(image::ImageError);

/// A GIF being written into memory by a `gif::Encoder`. The encoder's type
/// is generic over `std::io::Write`, a bound Verus cannot declare, so it is
/// held out of sight here.
#[verifier::external_body]
pub struct GifStream {
    encoder: gif::Encoder<Vec<u8>>,
}

#[verifier::external_type_specification]
#[verifier::external_body]
pub struct ExGifEncodingError(gif::EncodingError);

#[verifier::external_type_specification]
#[verifier::external_body]
pub struct ExIoError(std::io::Error);

/// The bytes that a base64 text encodes (standard alphabet, padded), or
/// `None` when the text is not valid base64.
pub uninterp spec fn base64_decoded(text: Seq<char>) -> Option<Seq<u8>>;

/// The standard, padded base64 text of a byte sequence.
pub uninterp spec fn base64_text(bytes: Seq<u8>) -> Seq<char>;

/// The width, height and row-major RGBA bytes of the still image encoded in
/// `bytes`, its format detected from the bytes, or `None` when the bytes are
/// not a recognized, intact image.
pub uninterp spec fn decoded_rgba(bytes: Seq<u8>) -> Option<(u32, u32, Seq<u8>)>;

/// Relies on `base64::decode`: the bytes that `text` encodes in the standard
/// alphabet, or an error when `text` is not valid base64.
#[verifier::external_body]
pub(crate) fn base64_decode(text: &String) -> (r: Result<Vec<u8>, base64::DecodeError>)
    ensures
        match r {
            Ok(b) => base64_decoded(text@) == Some(b@),
            Err(_) => base64_decoded(text@) is None,
        },
{
    base64::decode(text)
}

/// Relies on `base64::encode`: the standard, padded base64 text of `bytes`.
#[verifier::external_body]
pub(crate) fn base64_encode(bytes: &Vec<u8>) -> (r: String)
    ensures
        r@ == base64_text(bytes@),
{
    base64::encode(bytes)
}

/// Relies on `image::load_from_memory`, which detects the format and decodes
/// the image, converted by `DynamicImage::to_rgba8` to RGBA bytes: a fresh
/// buffer of exactly four bytes per pixel. It also relies on the image
/// crate's decoders reporting malformed or truncated input as an error
/// rather than panicking, which no contract can state.
#[verifier::external_body]
pub(crate) fn load_rgba(bytes: &Vec<u8>) -> (r: Result<(u32, u32, Vec<u8>), image::ImageError>)
    ensures
        match r {
            Ok((w, h, data)) => decoded_rgba(bytes@) == Some((w, h, data@)) && data@.len() == w * h * 4,
            Err(_) => decoded_rgba(bytes@) is None,
        },
{
    let rgba = image::load_from_memory(bytes.as_slice())?.to_rgba8();
    Ok((rgba.width(), rgba.height(), rgba.into_raw()))
}

/// The screen width and height of a GIF being written.
pub uninterp spec fn gif_screen(stream: GifStream) -> (u16, u16);

/// Whether the GIF being written has been marked as looping forever.
pub uninterp spec fn gif_loops(stream: GifStream) -> bool;

/// The frames written so far, in order: each frame's delay and the RGBA
/// bytes it was built from.
pub uninterp spec fn gif_frames(stream: GifStream) -> Seq<(u16, Seq<u8>)>;

/// The bytes of the GIF file with the given screen size, marked as looping
/// forever (before any frame) when `loops` holds, holding the given frames,
/// each built from RGBA bytes by `gif::Frame::from_rgba`.
pub uninterp spec fn gif_file(width: u16, height: u16, loops: bool, frames: Seq<(u16, Seq<u8>)>) -> Seq<u8>;

/// Relies on `gif::Encoder::new`: starts a GIF of the given screen size,
/// written into a byte vector, with an empty global colour table. With an
/// empty palette and a vector to write to, it cannot fail.
#[verifier::external_body]
pub(crate) fn gif_start(width: u16, height: u16) -> (r: Result<GifStream, gif::EncodingError>)
    ensures
        r is Ok,
        gif_screen(r->Ok_0) == (width, height),
        !gif_loops(r->Ok_0),
        gif_frames(r->Ok_0) == Seq::<(u16, Seq<u8>)>::empty(),
{
    Ok(GifStream { encoder: gif::Encoder::new(Vec::new(), width, height, &[])? })
}

/// Relies on `gif::Encoder::set_repeat`: writes the extension that marks the
/// animation as looping forever; writing to a vector cannot fail.
#[verifier::external_body]
pub(crate) fn gif_loop_forever(stream: &mut GifStream) -> (r: Result<(), gif::EncodingError>)
    requires
        !gif_loops(*old(stream)),
        gif_frames(*old(stream)).len() == 0,
    ensures
        r is Ok,
        gif_screen(*final(stream)) == gif_screen(*old(stream)),
        gif_loops(*final(stream)),
        gif_frames(*final(stream)) == gif_frames(*old(stream)),
{
    stream.encoder.set_repeat(gif::Repeat::Infinite)
}

/// Relies on `gif::Frame::from_rgba`, which turns RGBA bytes into a frame
/// with its own palette of at most 256 colours (rewriting each nonzero alpha
/// to 255) and panics unless there are exactly `width * height * 4` bytes,
/// and on `gif::Encoder::write_frame`, which appends that frame shown `delay`
/// hundredths of a second; with a palette present and a vector to write to,
/// it cannot fail.
#[verifier::external_body]
pub(crate) fn gif_write_frame(stream: &mut GifStream, width: u16, height: u16, pixels: Vec<u8>, delay: u16) -> (r: Result<(), gif::EncodingError>)
    requires
        pixels@.len() == width * height * 4,
        gif_screen(*old(stream)) == (width, height),
    ensures
        r is Ok,
        gif_screen(*final(stream)) == gif_screen(*old(stream)),
        gif_loops(*final(stream)) == gif_loops(*old(stream)),
        gif_frames(*final(stream)) == gif_frames(*old(stream)).push((delay, pixels@)),
{
    let mut pixels = pixels;
    let mut frame = gif::Frame::from_rgba(width, height, pixels.as_mut_slice());
    frame.delay = delay;
    stream.encoder.write_frame(&frame)
}

/// Relies on `gif::Encoder::into_inner`: writes the trailer and hands back
/// the bytes; writing to a vector cannot fail.
#[verifier::external_body]
pub(crate) fn gif_finish(stream: GifStream) -> (r: Result<Vec<u8>, std::io::Error>)
    ensures
        r is Ok,
        r->Ok_0@ == gif_file(gif_screen(stream).0, gif_screen(stream).1, gif_loops(stream), gif_frames(stream)),
{
    stream.encoder.into_inner()
}

} // verus!
