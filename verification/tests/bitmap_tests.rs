use dust::bitmap::{new, BitmapError};

/// A minimal bitmap file: 14-byte file header, 40-byte Windows 3.1
/// device-independent header, zero padding up to byte 138, and the pixel
/// data appended after it, where the pixel-start field points.
fn bmp(
    width: i32,
    height: i32,
    depth: u16,
    palette: &[[u8; 4]],
    pixel_data: &[u8],
) -> Vec<u8> {
    let mut v = vec![0u8; 138];
    v[0] = 0x42;
    v[1] = 0x4D;
    let file_size = (138 + pixel_data.len()) as u32;
    v[2..6].copy_from_slice(&file_size.to_le_bytes());
    v[10..14].copy_from_slice(&138u32.to_le_bytes());
    v[14..18].copy_from_slice(&40u32.to_le_bytes());
    v[18..22].copy_from_slice(&width.to_le_bytes());
    v[22..26].copy_from_slice(&height.to_le_bytes());
    v[26..28].copy_from_slice(&1u16.to_le_bytes());
    v[28..30].copy_from_slice(&depth.to_le_bytes());
    v[46..50].copy_from_slice(&(palette.len() as u32).to_le_bytes());
    for (i, c) in palette.iter().enumerate() {
        let off = 54 + 4 * i;
        v[off..off + 4].copy_from_slice(c);
    }
    v.extend_from_slice(pixel_data);
    v
}

#[test]
fn decodes_24bpp_bottom_up() {
    // Two rows of two BGR pixels, each row padded to four bytes; the
    // last row needs no trailing padding.
    let data = [
        1, 2, 3, 4, 5, 6, 0, 0, // row 0: two pixels, two padding bytes
        7, 8, 9, 10, 11, 12, // row 1: two pixels
    ];
    let bitmap = new(&bmp(2, 2, 24, &[], &data)).expect("should decode");
    assert_eq!(bitmap.get_width(), 2);
    assert_eq!(bitmap.get_height(), 2);
    // A non-negative height reverses the decoded stream wholesale, and
    // each BGR triple becomes RGB with opaque alpha.
    let expected: Vec<[u8; 4]> = vec![
        [12, 11, 10, 255],
        [9, 8, 7, 255],
        [6, 5, 4, 255],
        [3, 2, 1, 255],
    ];
    assert_eq!(bitmap.get_pixel_array(), &expected);
}

#[test]
fn decodes_32bpp_top_down() {
    let data = [1, 2, 3, 4, 5, 6, 7, 8];
    let bitmap = new(&bmp(2, -1, 32, &[], &data)).expect("should decode");
    assert_eq!(bitmap.get_width(), 2);
    assert_eq!(bitmap.get_height(), 1);
    // A negative height keeps storage order, and 32-bit pixels pass
    // through unchanged.
    let expected: Vec<[u8; 4]> = vec![[1, 2, 3, 4], [5, 6, 7, 8]];
    assert_eq!(bitmap.get_pixel_array(), &expected);
}

#[test]
fn decodes_8bpp_through_color_table() {
    let palette = [[9, 9, 9, 9], [7, 7, 7, 7]];
    // One row of two one-byte indices plus two padding bytes; rows == 1,
    // so the padding need not be present.
    let data = [1, 0];
    let bitmap = new(&bmp(2, -1, 8, &palette, &data)).expect("should decode");
    let expected: Vec<[u8; 4]> = vec![[7, 7, 7, 7], [9, 9, 9, 9]];
    assert_eq!(bitmap.get_pixel_array(), &expected);
}

#[test]
fn rejects_short_file() {
    assert!(matches!(new(&[0u8; 10]), Err(BitmapError::UnknownHeader)));
}

#[test]
fn rejects_unknown_type_tag() {
    assert!(matches!(new(&[0u8; 14]), Err(BitmapError::UnknownHeader)));
}

#[test]
fn rejects_recognized_but_undecoded_dib_header() {
    let mut v = bmp(1, 1, 32, &[], &[0, 0, 0, 0]);
    v[14..18].copy_from_slice(&12u32.to_le_bytes());
    assert!(matches!(new(&v), Err(BitmapError::UnsupportedDIBHeader)));
}

#[test]
fn rejects_unknown_dib_header() {
    let mut v = bmp(1, 1, 32, &[], &[0, 0, 0, 0]);
    v[14..18].copy_from_slice(&99u32.to_le_bytes());
    assert!(matches!(new(&v), Err(BitmapError::UnknownDIBHeader)));
}

#[test]
fn rejects_unsupported_color_depth() {
    assert!(matches!(new(&bmp(1, 1, 4, &[], &[])), Err(BitmapError::UnsupportedBitmapType)));
}

#[test]
fn rejects_index_past_color_table() {
    let palette = [[1, 2, 3, 4]];
    assert!(matches!(
        new(&bmp(1, -1, 8, &palette, &[5])),
        Err(BitmapError::PixelIndexOutOfRange)
    ));
}

#[test]
fn rejects_indexed_pixels_without_color_table() {
    assert!(matches!(
        new(&bmp(1, -1, 8, &[], &[0])),
        Err(BitmapError::MissingColorTableForIndexedBitmap)
    ));
}

#[test]
fn empty_bitmap_has_no_pixels() {
    let bitmap = new(&bmp(0, 0, 24, &[], &[])).expect("should decode");
    assert_eq!(bitmap.get_width(), 0);
    assert_eq!(bitmap.get_height(), 0);
    assert_eq!(bitmap.get_pixel_array().len(), 0);
}
