use intensify::canvas::{PixelBuffer, Rgba};

fn px(r: u8, g: u8, b: u8, a: u8) -> Rgba {
    Rgba { r, g, b, a }
}

fn numbered(w: u32, h: u32) -> PixelBuffer {
    let mut rows = Vec::new();
    for y in 0..h {
        let mut row = Vec::new();
        for x in 0..w {
            row.push(px(x as u8, y as u8, (x + y) as u8, 255));
        }
        rows.push(row);
    }
    PixelBuffer { width: w, height: h, rows }
}

#[test]
fn filled_buffer_has_the_pixel_everywhere() {
    let b = PixelBuffer::filled(3, 2, px(1, 2, 3, 4));
    assert_eq!(b.width, 3);
    assert_eq!(b.height, 2);
    assert_eq!(b.rows.len(), 2);
    for row in &b.rows {
        assert_eq!(row, &vec![px(1, 2, 3, 4); 3]);
    }
}

#[test]
fn padding_keeps_the_interior_and_clears_the_band() {
    let src = numbered(3, 2);
    let padded = src.pad(2);
    assert_eq!(padded.width, 7);
    assert_eq!(padded.height, 6);
    for y in 0..6u32 {
        for x in 0..7u32 {
            let p = padded.get_pixel(x, y);
            if (2..5).contains(&x) && (2..4).contains(&y) {
                assert_eq!(p, src.get_pixel(x - 2, y - 2));
            } else {
                assert_eq!(p, px(0, 0, 0, 0));
            }
        }
    }
}

#[test]
fn padding_by_zero_is_the_identity() {
    let src = numbered(4, 3);
    let padded = src.pad(0);
    assert_eq!(padded.rows, src.rows);
}

#[test]
fn crop_takes_the_window() {
    let src = numbered(5, 4);
    let c = src.crop(1, 2, 3, 2);
    assert_eq!(c.width, 3);
    assert_eq!(c.height, 2);
    assert_eq!(c.get_pixel(0, 0), px(1, 2, 3, 255));
    assert_eq!(c.get_pixel(2, 1), px(3, 3, 6, 255));
}

#[test]
fn crop_of_padding_at_the_inner_corner_is_the_source() {
    let src = numbered(4, 4);
    let c = src.pad(3).crop(3, 3, 4, 4);
    assert_eq!(c.rows, src.rows);
}

#[test]
fn rgba_bytes_are_row_major() {
    let src = numbered(2, 2);
    let bytes = src.to_rgba_bytes();
    assert_eq!(bytes, vec![0, 0, 0, 255, 1, 0, 1, 255, 0, 1, 1, 255, 1, 1, 2, 255]);
}

#[test]
fn rgba_bytes_round_trip() {
    let src = numbered(5, 3);
    let bytes = src.to_rgba_bytes();
    let back = PixelBuffer::from_rgba_bytes(5, 3, &bytes).unwrap();
    assert_eq!(back.rows, src.rows);
    assert_eq!(back.to_rgba_bytes(), bytes);
}

#[test]
fn rgba_bytes_of_the_wrong_length_are_refused() {
    assert!(PixelBuffer::from_rgba_bytes(2, 2, &vec![0u8; 15]).is_none());
    assert!(PixelBuffer::from_rgba_bytes(2, 2, &vec![0u8; 17]).is_none());
    assert!(PixelBuffer::from_rgba_bytes(0, 0, &vec![]).is_some());
}

#[test]
fn set_pixel_changes_one_pixel() {
    let mut b = PixelBuffer::filled(3, 3, px(0, 0, 0, 0));
    b.set_pixel(2, 1, px(9, 9, 9, 9));
    assert_eq!(b.get_pixel(2, 1), px(9, 9, 9, 9));
    assert_eq!(b.get_pixel(1, 2), px(0, 0, 0, 0));
}
