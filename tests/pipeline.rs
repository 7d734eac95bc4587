use std::cell::Cell;
use std::io::Cursor;

use intensify::canvas::{PixelBuffer, Rgba};
use intensify::caption::{CoverageSample, GlyphMask, FULL_COVERAGE};
use intensify::frames::{Animation, FRAME_DELAY};
use intensify::pipeline::{decode_image, encode_animation, generate, generate_image, GenerateError};

struct Blocks {
    size_seen: Cell<u64>,
}

impl Blocks {
    /// Square blocks, one per character, sitting on the baseline.
    fn layout(&self, text: String, size_thirds: u64) -> Vec<GlyphMask> {
        self.size_seen.set(size_thirds);
        let side = (size_thirds / 3) as u32;
        text.chars()
            .enumerate()
            .map(|(i, _)| {
                let mut samples = Vec::new();
                for y in 0..side {
                    for x in 0..side {
                        samples.push(CoverageSample { x, y, level: FULL_COVERAGE });
                    }
                }
                GlyphMask { min_x: (i as i32) * (side as i32 + 1), min_y: -(side as i32), width: side, samples }
            })
            .collect()
    }
}

fn blocks() -> Blocks {
    Blocks { size_seen: Cell::new(u64::MAX) }
}

fn png(w: u32, h: u32, rgba: [u8; 4]) -> Vec<u8> {
    let img = image::RgbaImage::from_pixel(w, h, image::Rgba(rgba));
    let mut out = Cursor::new(Vec::new());
    image::DynamicImage::ImageRgba8(img).write_to(&mut out, image::ImageOutputFormat::Png).unwrap();
    out.into_inner()
}

fn gif_frames(bytes: &[u8]) -> Vec<(u16, u16, u16, Vec<u8>)> {
    let mut options = gif::DecodeOptions::new();
    options.set_color_output(gif::ColorOutput::RGBA);
    let mut decoder = options.read_info(Cursor::new(bytes)).unwrap();
    let mut frames = Vec::new();
    while let Some(f) = decoder.read_next_frame().unwrap() {
        frames.push((f.width, f.height, f.delay, f.buffer.to_vec()));
    }
    frames
}

#[test]
fn malformed_base64_is_a_text_decode_error() {
    let r = generate(&"not base64!".to_string(), &"x".to_string(), 1, 0, &|t: String, s: u64| blocks().layout(t, s));
    assert_eq!(r, Err(GenerateError::TextDecode));
}

#[test]
fn truncated_image_is_an_image_decode_error() {
    let bytes = png(4, 4, [255, 0, 0, 255]);
    let truncated = base64::encode(&bytes[..20]);
    let r = generate(&truncated, &"x".to_string(), 1, 0, &|t: String, s: u64| blocks().layout(t, s));
    assert_eq!(r, Err(GenerateError::ImageDecode));
    let r = generate(&base64::encode(b"hello"), &"x".to_string(), 1, 0, &|t: String, s: u64| blocks().layout(t, s));
    assert_eq!(r, Err(GenerateError::ImageDecode));
}

#[test]
fn decode_image_reads_pixels() {
    let img = decode_image(&png(3, 2, [1, 2, 3, 255])).unwrap();
    assert_eq!((img.width, img.height), (3, 2));
    assert_eq!(img.get_pixel(2, 1), Rgba { r: 1, g: 2, b: 3, a: 255 });
    assert_eq!(decode_image(&vec![0u8; 8]).err(), Some(GenerateError::ImageDecode));
}

#[test]
fn red_square_round_trips_through_the_gif() {
    let input = base64::encode(&png(4, 4, [255, 0, 0, 255]));
    let out = generate(&input, &String::new(), 1, 0, &|t: String, s: u64| blocks().layout(t, s)).unwrap();
    assert_ne!(out, input);
    let gif = base64::decode(&out).unwrap();
    assert_eq!(&gif[..6], b"GIF89a");
    let frames = gif_frames(&gif);
    assert_eq!(frames.len(), 1);
    let (w, h, delay, pixels) = &frames[0];
    assert_eq!((*w, *h, *delay), (4, 4, FRAME_DELAY));
    assert_eq!(pixels, &[255u8, 0, 0, 255].repeat(16));
}

#[test]
fn hundred_square_with_caption_gives_three_frames() {
    let input = base64::encode(&png(100, 100, [20, 40, 60, 255]));
    let raster = blocks();
    let out = generate(&input, &"Hi".to_string(), 3, 5, &|t: String, s: u64| raster.layout(t, s)).unwrap();
    assert_eq!(raster.size_seen.get(), 144);
    let frames = gif_frames(&base64::decode(&out).unwrap());
    assert_eq!(frames.len(), 3);
    for (w, h, _, pixels) in &frames {
        assert_eq!((*w, *h), (100, 100));
        assert_eq!(pixels.len(), 100 * 100 * 4);
        assert!(pixels.chunks(4).any(|p| p == [255, 255, 255, 255]));
    }
}

#[test]
fn zero_frames_is_not_an_error() {
    let input = base64::encode(&png(4, 4, [0, 0, 255, 255]));
    let out = generate(&input, &"x".to_string(), 0, 2, &|t: String, s: u64| blocks().layout(t, s)).unwrap();
    assert!(gif_frames(&base64::decode(&out).unwrap()).is_empty());
}

#[test]
fn long_caption_on_a_narrow_image_shrinks_and_clips() {
    let input = base64::encode(&png(12, 30, [0, 0, 0, 255]));
    let raster = blocks();
    let caption = "a caption far too long for this image".to_string();
    let out = generate(&input, &caption, 2, 1, &|t: String, s: u64| raster.layout(t, s));
    assert_eq!(raster.size_seen.get(), 24);
    assert_eq!(gif_frames(&base64::decode(&out.unwrap()).unwrap()).len(), 2);
}

#[test]
fn zero_sized_animation_is_an_encode_error() {
    let anim = Animation { width: 0, height: 4, frames: vec![], delay: FRAME_DELAY, repeat_forever: true };
    assert_eq!(encode_animation(&anim), Err(GenerateError::Encode));
    let anim = Animation { width: 70000, height: 1, frames: vec![], delay: FRAME_DELAY, repeat_forever: true };
    assert_eq!(encode_animation(&anim), Err(GenerateError::Encode));
}

#[test]
fn animation_encodes_its_frames() {
    let frame = PixelBuffer::filled(2, 2, Rgba { r: 0, g: 255, b: 0, a: 255 });
    let anim = Animation { width: 2, height: 2, frames: vec![frame.clone(), frame], delay: 7, repeat_forever: true };
    let frames = gif_frames(&encode_animation(&anim).unwrap());
    assert_eq!(frames.len(), 2);
    assert_eq!(frames[1].2, 7);
    assert_eq!(frames[1].3, [0u8, 255, 0, 255].repeat(4));
}

#[test]
fn error_messages_name_the_stage() {
    assert_eq!(GenerateError::TextDecode.message(), "Failed to decode b64 image.");
    assert_eq!(GenerateError::ImageDecode.message(), "Failed to decode image in memory.");
    assert_eq!(GenerateError::Encode.message(), "Failed to encode animation.");
}

#[test]
fn generate_image_uses_the_font_cap_and_rejects_empty_images() {
    let image = PixelBuffer::filled(90, 20, Rgba { r: 9, g: 9, b: 9, a: 255 });
    let raster = blocks();
    let gif = generate_image(&image, &"ab".to_string(), 10, 2, 1, &|t: String, s: u64| raster.layout(t, s)).unwrap();
    assert_eq!(raster.size_seen.get(), 30);
    assert_eq!(gif_frames(&gif).len(), 2);
    let empty = PixelBuffer::filled(0, 5, Rgba { r: 0, g: 0, b: 0, a: 0 });
    assert_eq!(generate_image(&empty, &"ab".to_string(), 10, 2, 1, &|t: String, s: u64| raster.layout(t, s)), Err(GenerateError::Encode));
}

const ONE_PIXEL_GIF: &str = "R0lGODlhAQABAIAAAAAAAP///yH5BAEAAAAALAAAAAABAAEAAAIBRAA7";

fn gif_screen(bytes: &[u8]) -> (u16, u16) {
    let decoder = gif::DecodeOptions::new().read_info(Cursor::new(bytes)).unwrap();
    (decoder.width(), decoder.height())
}

#[test]
fn one_pixel_image_round_trips() {
    let out = generate(&ONE_PIXEL_GIF.to_string(), &String::new(), 1, 0, &|t: String, s: u64| blocks().layout(t, s))
        .unwrap();
    let gif = base64::decode(&out).unwrap();
    assert_eq!(gif_screen(&gif), (1, 1));
    let frames = gif_frames(&gif);
    assert_eq!(frames.len(), 1);
    assert_eq!((frames[0].0, frames[0].1), (1, 1));
    assert_eq!(frames[0].3, vec![0u8, 0, 0, 0]);
}

#[test]
fn one_pixel_image_with_zero_frames_is_an_empty_gif() {
    let out = generate(&ONE_PIXEL_GIF.to_string(), &String::new(), 0, 0, &|t: String, s: u64| blocks().layout(t, s))
        .unwrap();
    let gif = base64::decode(&out).unwrap();
    assert_eq!(gif_screen(&gif), (1, 1));
    assert!(gif_frames(&gif).is_empty());
}

#[test]
fn long_caption_on_one_pixel_is_clipped_without_error() {
    let raster = blocks();
    let caption = "This caption is far too long to fit".to_string();
    let out = generate(&ONE_PIXEL_GIF.to_string(), &caption, 1, 1, &|t: String, s: u64| raster.layout(t, s)).unwrap();
    assert_eq!(raster.size_seen.get(), 2);
    let frames = gif_frames(&base64::decode(&out).unwrap());
    assert_eq!(frames.len(), 1);
    assert_eq!((frames[0].0, frames[0].1), (1, 1));
}

#[test]
fn gif_frame_larger_than_its_screen_does_not_panic() {
    let mut encoder = gif::Encoder::new(Vec::new(), 1, 1, &[]).unwrap();
    let mut pixels = [9u8, 8, 7, 255].repeat(4);
    let frame = gif::Frame::from_rgba(2, 2, &mut pixels);
    encoder.write_frame(&frame).unwrap();
    let bytes = encoder.into_inner().unwrap();
    match decode_image(&bytes) {
        Ok(img) => assert_eq!((img.width, img.height), (1, 1)),
        Err(e) => assert_eq!(e, GenerateError::ImageDecode),
    }
    let r = generate(&base64::encode(&bytes), &String::new(), 1, 0, &|t: String, s: u64| blocks().layout(t, s));
    assert!(r.is_ok() || r == Err(GenerateError::ImageDecode));
}

#[test]
fn empty_caption_never_reaches_the_rasterizer() {
    let raster = blocks();
    let input = base64::encode(&png(6, 6, [1, 2, 3, 255]));
    generate(&input, &String::new(), 1, 0, &|t: String, s: u64| raster.layout(t, s)).unwrap();
    assert_eq!(raster.size_seen.get(), u64::MAX);
}
