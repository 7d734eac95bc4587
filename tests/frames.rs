use intensify::canvas::{PixelBuffer, Rgba};
use intensify::caption::{CoverageSample, GlyphMask, FULL_COVERAGE};
use intensify::frames::{assemble_frames, compose_canvas, draw_offsets, intensify, FRAME_DELAY};

fn px(r: u8, g: u8, b: u8, a: u8) -> Rgba {
    Rgba { r, g, b, a }
}

fn numbered(w: u32, h: u32) -> PixelBuffer {
    let mut rows = Vec::new();
    for y in 0..h {
        let mut row = Vec::new();
        for x in 0..w {
            row.push(px(x as u8, y as u8, 7, 255));
        }
        rows.push(row);
    }
    PixelBuffer { width: w, height: h, rows }
}

fn hi_glyphs() -> Vec<GlyphMask> {
    let mut glyphs = Vec::new();
    for g in 0..2 {
        let mut samples = Vec::new();
        for y in 0..10u32 {
            for x in 0..6u32 {
                samples.push(CoverageSample { x, y, level: if (x + y) % 2 == 0 { FULL_COVERAGE } else { 30000 } });
            }
        }
        glyphs.push(GlyphMask { min_x: 8 * g, min_y: -10, width: 6, samples });
    }
    glyphs
}

#[test]
fn offsets_are_drawn_in_range() {
    let offsets = draw_offsets(50, 3);
    assert_eq!(offsets.len(), 50);
    for (dx, dy) in offsets {
        assert!((-3..3).contains(&dx));
        assert!((-3..3).contains(&dy));
    }
}

#[test]
fn no_shake_gives_zero_offsets() {
    assert_eq!(draw_offsets(4, 0), vec![(0, 0); 4]);
    assert!(draw_offsets(0, 5).is_empty());
}

#[test]
fn frames_are_crops_at_the_given_offsets() {
    let image = numbered(6, 5);
    let anim = assemble_frames(&image, &vec![], 2, &vec![(-2, -2), (2, 1), (0, 0)]);
    assert_eq!(anim.frames.len(), 3);
    assert_eq!(anim.delay, FRAME_DELAY);
    assert!(anim.repeat_forever);
    let padded = image.pad(2);
    assert_eq!(anim.frames[0].rows, padded.crop(0, 0, 6, 5).rows);
    assert_eq!(anim.frames[1].rows, padded.crop(4, 3, 6, 5).rows);
    assert_eq!(anim.frames[2].rows, image.rows);
    assert_eq!(anim.frames[0].get_pixel(0, 0), px(0, 0, 0, 0));
    assert_eq!(anim.frames[0].get_pixel(2, 2), px(0, 0, 7, 255));
}

#[test]
fn zero_frames_is_an_empty_animation() {
    let anim = intensify(&numbered(4, 4), &hi_glyphs(), 0, 3);
    assert!(anim.frames.is_empty());
    assert_eq!(anim.width, 4);
    assert_eq!(anim.height, 4);
}

#[test]
fn red_square_without_shake_is_one_identical_frame() {
    let red = PixelBuffer::filled(4, 4, px(255, 0, 0, 255));
    let anim = intensify(&red, &vec![], 1, 0);
    assert_eq!(anim.frames.len(), 1);
    assert_eq!(anim.frames[0].width, 4);
    assert_eq!(anim.frames[0].height, 4);
    assert_eq!(anim.frames[0].rows, red.rows);
}

#[test]
fn captioned_frames_are_jittered_crops_of_the_base_canvas() {
    let image = numbered(100, 100);
    let glyphs = hi_glyphs();
    let base = compose_canvas(&image, &glyphs, 5);
    assert_eq!(base.width, 110);
    let anim = intensify(&image, &glyphs, 3, 5);
    assert_eq!(anim.frames.len(), 3);
    for frame in &anim.frames {
        assert_eq!((frame.width, frame.height), (100, 100));
        let mut found = false;
        for dy in -5..5i32 {
            for dx in -5..5i32 {
                if base.crop((5 + dx) as u32, (5 + dy) as u32, 100, 100).rows == frame.rows {
                    found = true;
                }
            }
        }
        assert!(found);
    }
}

#[test]
fn empty_caption_frames_match_the_uncaptioned_crops() {
    let image = numbered(8, 8);
    let offsets = vec![(1, -1), (-2, 0)];
    let anim = assemble_frames(&image, &vec![], 2, &offsets);
    let padded = image.pad(2);
    assert_eq!(anim.frames[0].rows, padded.crop(3, 1, 8, 8).rows);
    assert_eq!(anim.frames[1].rows, padded.crop(0, 2, 8, 8).rows);
}

#[test]
fn caption_changes_the_canvas() {
    let image = numbered(100, 100);
    let plain = compose_canvas(&image, &vec![], 5);
    let captioned = compose_canvas(&image, &hi_glyphs(), 5);
    assert_ne!(plain.rows, captioned.rows);
    // Run width 12 on 100 columns: origin (5 + 44, 5 + 66); the first sample
    // sits at (49, 61) and is drawn white.
    assert_eq!(captioned.get_pixel(49, 61), px(255, 255, 255, 255));
}
