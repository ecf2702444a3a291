//! Decoder for Windows bitmap (`BMP`) files.
//!
//! Only files carrying a `BITMAPINFOHEADER` device-independent header (the
//! Windows 3.1 layout) are accepted; every other recognized header kind is
//! rejected with a [`BitmapError`].  Pixels of 32, 24, 16 and 8 bits per
//! pixel are unpacked into RGBA quadruples, indexed depths through the
//! file's color table; rows stored bottom-up are reversed into top-down
//! order by reversing the decoded pixel stream.

use vstd::arithmetic::div_mod::lemma_fundamental_div_mod_converse;
use vstd::bytes::{spec_u16_from_le_bytes, spec_u32_from_le_bytes, u16_from_le_bytes, u32_from_le_bytes};
use vstd::prelude::*;

verus! {

/// A red, green, blue triple.
pub type RGB = [u8; 3];

/// A red, green, blue, alpha quadruple.
pub type RGBA = [u8; 4];

/// Failure of the bitmap decoder.
#[derive(Debug, Clone, Copy, PartialEq, Eq, Structural)]
pub enum BitmapError {
    /// The file header is too short or its type tag is unknown.
    UnknownHeader,
    /// The device-independent header size matches no known layout.
    UnknownDIBHeader,
    /// The device-independent header layout is recognized but not decoded.
    UnsupportedDIBHeader,
    /// The bitmap kind or color depth is not decoded.
    UnsupportedBitmapType,
    /// An indexed pixel points past the end of the color table.
    PixelIndexOutOfRange,
    /// An indexed pixel occurs but the file carries no color table.
    MissingColorTableForIndexedBitmap,
}

/// Kind of resource the file declares in its two-byte type tag.
#[derive(Debug, Clone, Copy, PartialEq, Eq, Structural)]
pub enum BitmapType {
    Windows,
    OS2BitmapArray,
    OS2ColorIcon,
    OS2ColorPointer,
    OS2Icon,
    OS2Pointer,
}

/// The 14-byte file header: type tag, declared file size, and the offset
/// at which pixel data starts.
#[derive(Debug, Clone, Copy, PartialEq, Eq, Structural)]
pub struct FileHeader {
    pub bitmap_type: BitmapType,
    pub bitmap_size: usize,
    pub pixel_array_start: usize,
}

/// Compression scheme declared by the device-independent header.
#[derive(Debug, Clone, Copy, PartialEq, Eq, Structural)]
pub enum BmpCompression {
    Uncompressed,
    RunLengthEncoding8BPP,
    RunLengthEncoding4BPP,
    Huffman1D,
    RunLengthEncoding24,
    RGBABitFieldMasks,
    RunLengthEncoding8,
    RunLengthEncoding4,
}

/// Row order of the stored pixel data.
#[derive(Debug, Clone, Copy, PartialEq, Eq, Structural)]
pub enum BitmapOrigin {
    BottomLeft,
    TopLeft,
}

/// Halftoning algorithm declared by an OS/2 header.
#[derive(Debug, Clone, Copy)]
pub enum HalftoneAlgorithm {
    NoHalftoning,
    ErrorDiffusion(u32),
    PANDA((u32, u32)),
    SuperCircle((u32, u32)),
}

/// The `BITMAPINFOHEADER` (Windows 3.1) device-independent header.
#[derive(Debug, Clone, Copy, PartialEq, Eq, Structural)]
pub struct Windows3_1BitmapHeader {
    pub width: i32,
    pub height: i32,
    pub color_planes: u8,
    pub color_depth: u16,
    pub compression: BmpCompression,
    pub raw_image_size: u32,
    pub horizontal_resolution: u32,
    pub vertical_resolution: u32,
    pub palette_color_count: u32,
    pub important_colors_count: u32,
}

/// The OS/2 2.x device-independent header: the Windows 3.1 fields plus
/// resolution units, origin, halftoning and color encoding.
#[derive(Debug, Clone, Copy)]
pub struct OS22XBitmapHeaderV1 {
    pub width: i32,
    pub height: i32,
    pub color_planes: u8,
    pub color_depth: u16,
    pub compression: BmpCompression,
    pub raw_image_size: u32,
    pub horizontal_resolution: u32,
    pub vertical_resolution: u32,
    pub palette_color_count: u32,
    pub important_colors_count: u32,
    pub resolution_units: u16,
    pub origin: BitmapOrigin,
    pub halftone: HalftoneAlgorithm,
    pub color_encoding: u32,
    pub application_defined: u32,
}

/// Which device-independent header the file carries.
#[derive(Debug, Clone, Copy)]
pub enum DeviceIndependentBitmapType {
    Windows3_1(Windows3_1BitmapHeader),
    OS22BitmapV1(OS22XBitmapHeaderV1),
}

/// Bit masks and optional color table, with RGBA table entries.
struct ColorBlockRGBA {
    pub red_mask: Option<u32>,
    pub green_mask: Option<u32>,
    pub blue_mask: Option<u32>,
    pub alpha_mask: Option<u32>,
    pub color_table: Option<Vec<RGBA>>,
}

/// The color information a decoded bitmap keeps.
enum ColorBlockType {
    RGBAColorBlock(ColorBlockRGBA),
}

/// What the file's two-byte type tag decodes to.
pub open spec fn spec_decode_type(b0: u8, b1: u8) -> Result<BitmapType, BitmapError> {
    if b0 == 0x42 && b1 == 0x4D {
        Ok(BitmapType::Windows)
    } else if b0 == 0x42 && b1 == 0x41 {
        Ok(BitmapType::OS2BitmapArray)
    } else if b0 == 0x43 && b1 == 0x49 {
        Ok(BitmapType::OS2ColorIcon)
    } else if b0 == 0x43 && b1 == 0x50 {
        Ok(BitmapType::OS2ColorPointer)
    } else if b0 == 0x49 && b1 == 0x43 {
        Ok(BitmapType::OS2Icon)
    } else if b0 == 0x50 && b1 == 0x54 {
        Ok(BitmapType::OS2Pointer)
    } else {
        Err(BitmapError::UnknownHeader)
    }
}

/// What a compression field value decodes to.
pub open spec fn spec_decode_compression(v: u32) -> BmpCompression {
    if v == 1 {
        BmpCompression::RunLengthEncoding8BPP
    } else if v == 2 {
        BmpCompression::RunLengthEncoding4BPP
    } else if v == 3 {
        BmpCompression::Huffman1D
    } else if v == 4 {
        BmpCompression::RunLengthEncoding24
    } else if v == 6 {
        BmpCompression::RGBABitFieldMasks
    } else if v == 12 {
        BmpCompression::RunLengthEncoding8
    } else if v == 13 {
        BmpCompression::RunLengthEncoding4
    } else {
        BmpCompression::Uncompressed
    }
}

fn decode_type(header: &[u8]) -> (r: Result<BitmapType, BitmapError>)
    requires
        header@.len() == 14,
    ensures
        r == spec_decode_type(header@[0], header@[1]),
{
    match (header[0], header[1]) {
        (0x42, 0x4D) => Ok(BitmapType::Windows),
        (0x42, 0x41) => Ok(BitmapType::OS2BitmapArray),
        (0x43, 0x49) => Ok(BitmapType::OS2ColorIcon),
        (0x43, 0x50) => Ok(BitmapType::OS2ColorPointer),
        (0x49, 0x43) => Ok(BitmapType::OS2Icon),
        (0x50, 0x54) => Ok(BitmapType::OS2Pointer),
        _ => Err(BitmapError::UnknownHeader),
    }
}

fn decode_size(header: &[u8]) -> (r: u32)
    requires
        header@.len() == 14,
    ensures
        r == spec_u32_from_le_bytes(header@.subrange(2, 6)),
{
    u32_from_le_bytes(&header[2..6])
}

fn decode_pixel_array_start_address(header: &[u8]) -> (r: u32)
    requires
        header@.len() == 14,
    ensures
        r == spec_u32_from_le_bytes(header@.subrange(10, 14)),
{
    u32_from_le_bytes(&header[10..14])
}

fn decode_file_header(file_header: &[u8]) -> (r: Result<FileHeader, BitmapError>)
    requires
        file_header@.len() == 14,
    ensures
        match r {
            Ok(h) => {
                &&& spec_decode_type(file_header@[0], file_header@[1]) == Ok::<
                    BitmapType,
                    BitmapError,
                >(h.bitmap_type)
                &&& h.bitmap_size == spec_u32_from_le_bytes(file_header@.subrange(2, 6))
                &&& h.pixel_array_start == spec_u32_from_le_bytes(file_header@.subrange(10, 14))
            },
            Err(e) => spec_decode_type(file_header@[0], file_header@[1]) == Err::<
                BitmapType,
                BitmapError,
            >(e),
        },
{
    let bmp_type = match decode_type(file_header) {
        Ok(t) => t,
        Err(e) => {
            return Err(e);
        },
    };
    let bmp_size = decode_size(file_header);
    let bmp_pixel_start = decode_pixel_array_start_address(file_header);
    Ok(
        FileHeader {
            bitmap_type: bmp_type,
            bitmap_size: bmp_size as usize,
            pixel_array_start: bmp_pixel_start as usize,
        },
    )
}

fn decode_compression_type(compression_field: &[u8]) -> (r: BmpCompression)
    requires
        compression_field@.len() == 4,
    ensures
        r == spec_decode_compression(spec_u32_from_le_bytes(compression_field@)),
{
    let v = u32_from_le_bytes(compression_field);
    match v {
        1 => BmpCompression::RunLengthEncoding8BPP,
        2 => BmpCompression::RunLengthEncoding4BPP,
        3 => BmpCompression::Huffman1D,
        4 => BmpCompression::RunLengthEncoding24,
        6 => BmpCompression::RGBABitFieldMasks,
        12 => BmpCompression::RunLengthEncoding8,
        13 => BmpCompression::RunLengthEncoding4,
        _ => BmpCompression::Uncompressed,
    }
}

/// What a halftoning field group decodes to: the variant tag at offset 0,
/// with its parameters at offsets 2 and 6.
pub open spec fn spec_decode_halftone(variant: u16, p1: u32, p2: u32) -> HalftoneAlgorithm {
    if variant == 1 {
        HalftoneAlgorithm::ErrorDiffusion(p1)
    } else if variant == 2 {
        HalftoneAlgorithm::PANDA((p1, p2))
    } else if variant == 3 {
        HalftoneAlgorithm::SuperCircle((p1, p2))
    } else {
        HalftoneAlgorithm::NoHalftoning
    }
}

fn decode_halftone(halftone_fields: &[u8]) -> (r: HalftoneAlgorithm)
    requires
        halftone_fields@.len() >= 10,
    ensures
        r == spec_decode_halftone(
            spec_u16_from_le_bytes(halftone_fields@.subrange(0, 2)),
            spec_u32_from_le_bytes(halftone_fields@.subrange(2, 6)),
            spec_u32_from_le_bytes(halftone_fields@.subrange(6, 10)),
        ),
{
    let halftone_variant: u16 = u16_from_le_bytes(&halftone_fields[0..2]);
    let halftone_param1: u32 = u32_from_le_bytes(&halftone_fields[2..6]);
    let halftone_param2: u32 = u32_from_le_bytes(&halftone_fields[6..10]);
    match halftone_variant {
        1 => HalftoneAlgorithm::ErrorDiffusion(halftone_param1),
        2 => HalftoneAlgorithm::PANDA((halftone_param1, halftone_param2)),
        3 => HalftoneAlgorithm::SuperCircle((halftone_param1, halftone_param2)),
        _ => HalftoneAlgorithm::NoHalftoning,
    }
}

/// The Windows 3.1 header encoded by a 40-byte device-independent header.
pub open spec fn spec_win31_header_of(h: Seq<u8>) -> Windows3_1BitmapHeader {
    Windows3_1BitmapHeader {
        width: spec_u32_from_le_bytes(h.subrange(4, 8)) as i32,
        height: spec_u32_from_le_bytes(h.subrange(8, 12)) as i32,
        color_planes: spec_u16_from_le_bytes(h.subrange(12, 14)) as u8,
        color_depth: spec_u16_from_le_bytes(h.subrange(14, 16)),
        compression: spec_decode_compression(spec_u32_from_le_bytes(h.subrange(16, 20))),
        raw_image_size: spec_u32_from_le_bytes(h.subrange(20, 24)),
        horizontal_resolution: spec_u32_from_le_bytes(h.subrange(24, 28)),
        vertical_resolution: spec_u32_from_le_bytes(h.subrange(28, 32)),
        palette_color_count: spec_u32_from_le_bytes(h.subrange(32, 36)),
        important_colors_count: spec_u32_from_le_bytes(h.subrange(36, 40)),
    }
}

fn decode_windows_31_dib_header(header: &[u8]) -> (r: Result<
    Windows3_1BitmapHeader,
    BitmapError,
>)
    requires
        header@.len() == 40,
        spec_u16_from_le_bytes(header@.subrange(12, 14)) <= 255,
    ensures
        r == Ok::<Windows3_1BitmapHeader, BitmapError>(spec_win31_header_of(header@)),
{
    let width = u32_from_le_bytes(&header[4..8]);
    let height = u32_from_le_bytes(&header[8..12]);
    let color_planes = u16_from_le_bytes(&header[12..14]);
    let color_depth = u16_from_le_bytes(&header[14..16]);
    let compression = decode_compression_type(&header[16..20]);
    let raw_image_size = u32_from_le_bytes(&header[20..24]);
    let horizontal_resolution = u32_from_le_bytes(&header[24..28]);
    let vertical_resolution = u32_from_le_bytes(&header[28..32]);
    let palette_color_count = u32_from_le_bytes(&header[32..36]);
    let important_colors_count = u32_from_le_bytes(&header[36..40]);
    Ok(
        Windows3_1BitmapHeader {
            width: #[verifier::truncate] (width as i32),
            height: #[verifier::truncate] (height as i32),
            color_planes: color_planes as u8,
            color_depth,
            compression,
            raw_image_size,
            horizontal_resolution,
            vertical_resolution,
            palette_color_count,
            important_colors_count,
        },
    )
}

/// Size field of a device-independent header.
pub open spec fn spec_dib_size(h: Seq<u8>) -> u32 {
    spec_u32_from_le_bytes(h.subrange(0, 4))
}

/// The rejection owed for a device-independent header of size `sz` other
/// than the decoded 40-byte layout: recognized sizes are unsupported,
/// anything else is unknown.
pub open spec fn spec_dib_error(sz: u32) -> BitmapError {
    if sz == 12 || sz == 64 || sz == 16 || sz == 52 || sz == 56 || sz == 108 || sz == 124 {
        BitmapError::UnsupportedDIBHeader
    } else {
        BitmapError::UnknownDIBHeader
    }
}

fn decode_dib_header(header: &[u8]) -> (r: Result<DeviceIndependentBitmapType, BitmapError>)
    requires
        header@.len() == 124,
        spec_dib_size(header@) == 40 ==> spec_u16_from_le_bytes(header@.subrange(12, 14)) <= 255,
    ensures
        match r {
            Ok(d) => {
                &&& spec_dib_size(header@) == 40
                &&& d == DeviceIndependentBitmapType::Windows3_1(
                    spec_win31_header_of(header@.subrange(0, 40)),
                )
            },
            Err(e) => {
                &&& spec_dib_size(header@) != 40
                &&& e == spec_dib_error(spec_dib_size(header@))
            },
        },
{
    let header_size = u32_from_le_bytes(&header[0..4]);
    match header_size {
        12 => Err(BitmapError::UnsupportedDIBHeader),
        64 => Err(BitmapError::UnsupportedDIBHeader),
        16 => Err(BitmapError::UnsupportedDIBHeader),
        40 => {
            proof {
                assert(header@.subrange(0, 40).subrange(12, 14) =~= header@.subrange(12, 14));
            }
            let win_3_1_header = match decode_windows_31_dib_header(&header[0..40]) {
                Ok(h) => h,
                Err(e) => {
                    return Err(e);
                },
            };
            Ok(DeviceIndependentBitmapType::Windows3_1(win_3_1_header))
        },
        52 => Err(BitmapError::UnsupportedDIBHeader),
        56 => Err(BitmapError::UnsupportedDIBHeader),
        108 => Err(BitmapError::UnsupportedDIBHeader),
        124 => Err(BitmapError::UnsupportedDIBHeader),
        _ => Err(BitmapError::UnknownDIBHeader),
    }
}

#[allow(dead_code)]
fn decode_os2_v1_dib(header: &[u8]) -> (r: Result<OS22XBitmapHeaderV1, BitmapError>)
    requires
        header@.len() == 64,
        spec_u16_from_le_bytes(header@.subrange(12, 14)) <= 255,
    ensures
        match r {
            Ok(h) => {
                let w = spec_win31_header_of(header@.subrange(0, 40));
                &&& h.width == w.width
                &&& h.height == w.height
                &&& h.color_planes == w.color_planes
                &&& h.color_depth == w.color_depth
                &&& h.compression == w.compression
                &&& h.raw_image_size == w.raw_image_size
                &&& h.horizontal_resolution == w.horizontal_resolution
                &&& h.vertical_resolution == w.vertical_resolution
                &&& h.palette_color_count == w.palette_color_count
                &&& h.important_colors_count == w.important_colors_count
                &&& h.resolution_units == spec_u16_from_le_bytes(header@.subrange(40, 42))
                &&& h.origin == (if spec_u16_from_le_bytes(header@.subrange(44, 46)) == 0 {
                    BitmapOrigin::BottomLeft
                } else {
                    BitmapOrigin::TopLeft
                })
                &&& h.halftone == spec_decode_halftone(
                    spec_u16_from_le_bytes(header@.subrange(46, 48)),
                    spec_u32_from_le_bytes(header@.subrange(48, 52)),
                    spec_u32_from_le_bytes(header@.subrange(52, 56)),
                )
                &&& h.color_encoding == spec_u32_from_le_bytes(header@.subrange(56, 60))
                &&& h.application_defined == spec_u32_from_le_bytes(header@.subrange(60, 64))
            },
            Err(_) => false,
        },
{
    proof {
        assert(header@.subrange(0, 40).subrange(12, 14) =~= header@.subrange(12, 14));
    }
    let win31_subset = match decode_windows_31_dib_header(&header[0..40]) {
        Ok(h) => h,
        Err(e) => {
            return Err(e);
        },
    };
    let resolution_units = u16_from_le_bytes(&header[40..42]);
    let origin = match u16_from_le_bytes(&header[44..46]) {
        0 => BitmapOrigin::BottomLeft,
        _ => BitmapOrigin::TopLeft,
    };
    proof {
        assert(header@.subrange(46, 56).subrange(0, 2) =~= header@.subrange(46, 48));
        assert(header@.subrange(46, 56).subrange(2, 6) =~= header@.subrange(48, 52));
        assert(header@.subrange(46, 56).subrange(6, 10) =~= header@.subrange(52, 56));
    }
    let halftone = decode_halftone(&header[46..56]);
    let color_encoding: u32 = u32_from_le_bytes(&header[56..60]);
    let application_defined: u32 = u32_from_le_bytes(&header[60..64]);
    Ok(
        OS22XBitmapHeaderV1 {
            width: win31_subset.width,
            height: win31_subset.height,
            color_planes: win31_subset.color_planes,
            color_depth: win31_subset.color_depth,
            compression: win31_subset.compression,
            raw_image_size: win31_subset.raw_image_size,
            horizontal_resolution: win31_subset.horizontal_resolution,
            vertical_resolution: win31_subset.vertical_resolution,
            palette_color_count: win31_subset.palette_color_count,
            important_colors_count: win31_subset.important_colors_count,
            resolution_units,
            origin,
            halftone,
            color_encoding,
            application_defined,
        },
    )
}

/// Bytes each stored pixel occupies at color depth `depth`.
pub open spec fn spec_bytes_per_color(depth: int) -> int {
    depth / 8
}

/// The color table as a sequence of RGBA byte quadruples.
pub open spec fn spec_table_view(t: Option<Vec<RGBA>>) -> Option<Seq<Seq<u8>>> {
    match t {
        Some(v) => Some(v@.map_values(|c: RGBA| c@)),
        None => None,
    }
}

/// What one stored pixel translates to: 32-bit pixels pass through,
/// 24-bit pixels are reordered from BGR to RGB with opaque alpha, 16- and
/// 8-bit pixels index the color table, every other depth is rejected.
pub open spec fn spec_translate_color(
    src: Seq<u8>,
    depth: int,
    table: Option<Seq<Seq<u8>>>,
) -> Result<Seq<u8>, BitmapError> {
    if depth == 32 {
        Ok(src)
    } else if depth == 24 {
        Ok(seq![src[2], src[1], src[0], 255u8])
    } else if depth == 16 || depth == 8 {
        let index: int = if depth == 8 {
            src[0] as int
        } else {
            spec_u16_from_le_bytes(src) as int
        };
        match table {
            Some(t) => {
                if index < t.len() {
                    Ok(t[index])
                } else {
                    Err(BitmapError::PixelIndexOutOfRange)
                }
            },
            None => Err(BitmapError::MissingColorTableForIndexedBitmap),
        }
    } else {
        Err(BitmapError::UnsupportedBitmapType)
    }
}

fn translate_color(
    source_color: &[u8],
    header: &Windows3_1BitmapHeader,
    color_table: &Option<Vec<RGBA>>,
) -> (r: Result<RGBA, BitmapError>)
    requires
        source_color@.len() == spec_bytes_per_color(header.color_depth as int),
    ensures
        ({
            let spec_r = spec_translate_color(
                source_color@,
                header.color_depth as int,
                spec_table_view(*color_table),
            );
            match r {
                Ok(c) => spec_r == Ok::<Seq<u8>, BitmapError>(c@),
                Err(e) => spec_r == Err::<Seq<u8>, BitmapError>(e),
            }
        }),
{
    match header.color_depth {
        32 => {
            let c: RGBA = [source_color[0], source_color[1], source_color[2], source_color[3]];
            proof {
                assert(c@ =~= source_color@);
            }
            Ok(c)
        },
        24 => {
            let c: RGBA = [source_color[2], source_color[1], source_color[0], 255];
            proof {
                assert(c@ =~= seq![
                    source_color@[2],
                    source_color@[1],
                    source_color@[0],
                    255u8,
                ]);
            }
            Ok(c)
        },
        16 | 8 => {
            let index: usize = if header.color_depth == 8 {
                source_color[0] as usize
            } else {
                proof {
                    assert(source_color@.subrange(0, 2) =~= source_color@);
                }
                u16_from_le_bytes(&source_color[0..2]) as usize
            };
            match color_table {
                Some(table) => {
                    if index < table.len() {
                        proof {
                            assert(spec_table_view(*color_table)->Some_0[index as int]
                                == table@[index as int]@);
                        }
                        Ok(table[index])
                    } else {
                        Err(BitmapError::PixelIndexOutOfRange)
                    }
                },
                None => Err(BitmapError::MissingColorTableForIndexedBitmap),
            }
        },
        _ => Err(BitmapError::UnsupportedBitmapType),
    }
}

/// Bytes of masks standing before the color table, by compression scheme.
pub open spec fn spec_mask_offset(c: BmpCompression) -> int {
    match c {
        BmpCompression::Huffman1D => 12,
        BmpCompression::RGBABitFieldMasks => 16,
        _ => 0,
    }
}

fn decode_windows_31_color_block(
    block: &[u8],
    reference_header: &Windows3_1BitmapHeader,
) -> (r: ColorBlockRGBA)
    requires
        reference_header.compression is Huffman1D ==> block@.len() >= 12,
        reference_header.compression is RGBABitFieldMasks ==> block@.len() >= 16,
        reference_header.palette_color_count > 0 ==> spec_mask_offset(reference_header.compression)
            + 4 * reference_header.palette_color_count <= block@.len(),
    ensures
        ({
            let off = spec_mask_offset(reference_header.compression);
            &&& r.red_mask == (if off > 0 {
                Some(spec_u32_from_le_bytes(block@.subrange(0, 4)))
            } else {
                None::<u32>
            })
            &&& r.green_mask == (if off > 0 {
                Some(spec_u32_from_le_bytes(block@.subrange(4, 8)))
            } else {
                None::<u32>
            })
            &&& r.blue_mask == (if off > 0 {
                Some(spec_u32_from_le_bytes(block@.subrange(8, 12)))
            } else {
                None::<u32>
            })
            &&& r.alpha_mask == (if off == 16 {
                Some(spec_u32_from_le_bytes(block@.subrange(12, 16)))
            } else {
                None::<u32>
            })
            &&& if reference_header.palette_color_count > 0 {
                match r.color_table {
                    Some(table) => {
                        &&& table@.len() == reference_header.palette_color_count
                        &&& forall|k: int|
                            0 <= k < table@.len() ==> (#[trigger] table@[k])@ == block@.subrange(
                                off + 4 * k,
                                off + 4 * k + 4,
                            )
                    },
                    None => false,
                }
            } else {
                r.color_table is None
            }
        }),
{
    let (offset, red, green, blue, alpha): (
        usize,
        Option<u32>,
        Option<u32>,
        Option<u32>,
        Option<u32>,
    ) = match reference_header.compression {
        BmpCompression::Huffman1D => (
            12,
            Some(u32_from_le_bytes(&block[0..4])),
            Some(u32_from_le_bytes(&block[4..8])),
            Some(u32_from_le_bytes(&block[8..12])),
            None,
        ),
        BmpCompression::RGBABitFieldMasks => (
            16,
            Some(u32_from_le_bytes(&block[0..4])),
            Some(u32_from_le_bytes(&block[4..8])),
            Some(u32_from_le_bytes(&block[8..12])),
            Some(u32_from_le_bytes(&block[12..16])),
        ),
        _ => (0, None, None, None, None),
    };
    let color_table = if reference_header.palette_color_count > 0 {
        let count = reference_header.palette_color_count as usize;
        let block_len = block.len();
        let mut table: Vec<RGBA> = Vec::new();
        let mut index: usize = 0;
        while index < count
            invariant
                index <= count,
                table@.len() == index,
                block_len == block@.len(),
                offset + 4 * count <= block_len,
                offset == spec_mask_offset(reference_header.compression),
                forall|k: int|
                    0 <= k < index ==> (#[trigger] table@[k])@ == block@.subrange(
                        offset + 4 * k,
                        offset + 4 * k + 4,
                    ),
            decreases count - index,
        {
            let start_byte: usize = offset + index * 4;
            let color: RGBA = [
                block[start_byte],
                block[start_byte + 1],
                block[start_byte + 2],
                block[start_byte + 3],
            ];
            proof {
                assert(color@ =~= block@.subrange(
                    offset + 4 * (index as int),
                    offset + 4 * (index as int) + 4,
                ));
            }
            table.push(color);
            index += 1;
        }
        Some(table)
    } else {
        None
    };
    ColorBlockRGBA { red_mask: red, green_mask: green, blue_mask: blue, alpha_mask: alpha, color_table }
}

/// Rows of stored pixel data: the magnitude of the declared height.
pub open spec fn spec_rows(height: i32) -> int {
    if height >= 0 {
        height as int
    } else {
        -(height as int)
    }
}

/// Trailing padding that rounds a pixel row up to a four-byte boundary.
pub open spec fn spec_row_padding(row_bytes: int) -> int {
    (4 - row_bytes % 4) % 4
}

/// Byte offset of stored pixel `p` (in storage order) in the pixel data.
pub open spec fn spec_pixel_offset(stride: int, bpc: int, p: int) -> int {
    let row_total = stride * bpc + spec_row_padding(stride * bpc);
    (p / stride) * row_total + (p % stride) * bpc
}

/// The source bytes of stored pixel `p`.
pub open spec fn spec_pixel_src(data: Seq<u8>, stride: int, bpc: int, p: int) -> Seq<u8> {
    data.subrange(
        spec_pixel_offset(stride, bpc, p),
        spec_pixel_offset(stride, bpc, p) + bpc,
    )
}

/// What stored pixel `p` decodes to under the given depth and color
/// table.
pub open spec fn spec_decoded_pixel(
    data: Seq<u8>,
    depth: int,
    stride: int,
    table: Option<Seq<Seq<u8>>>,
    p: int,
) -> Result<Seq<u8>, BitmapError> {
    spec_translate_color(
        spec_pixel_src(data, stride, spec_bytes_per_color(depth), p),
        depth,
        table,
    )
}

/// Position pixel `p` (in storage order) takes in the decoded stream:
/// bottom-up files are reversed wholesale, top-down files keep storage
/// order.
pub open spec fn spec_out_index(bottom_up: bool, total: int, p: int) -> int {
    if bottom_up {
        total - 1 - p
    } else {
        p
    }
}

/// Some stored pixel fails to translate with error `e`, and every pixel
/// before it translates cleanly: `e` is the first failure.
pub open spec fn spec_first_pixel_failure(
    data: Seq<u8>,
    depth: int,
    stride: int,
    table: Option<Seq<Seq<u8>>>,
    total: int,
    e: BitmapError,
) -> bool {
    exists|p: int|
        {
            &&& 0 <= p < total
            &&& #[trigger] spec_decoded_pixel(data, depth, stride, table, p) == Err::<
                Seq<u8>,
                BitmapError,
            >(e)
            &&& forall|q: int|
                0 <= q < p ==> spec_decoded_pixel(data, depth, stride, table, q) is Ok
        }
}

/// The pixel data is long enough for every read the decoder makes.
pub open spec fn spec_pixel_data_ok(h: Windows3_1BitmapHeader, data_len: int) -> bool {
    let stride = h.width as int;
    let rows = spec_rows(h.height);
    let bpc = spec_bytes_per_color(h.color_depth as int);
    let row_bytes = stride * bpc;
    let row_total = row_bytes + spec_row_padding(row_bytes);
    rows > 0 && stride > 0 ==> (rows - 1) * row_total + row_bytes <= data_len
}

fn decode_windows_31_pixels(
    device_independent_header: &Windows3_1BitmapHeader,
    pixel_array: &[u8],
    color_block: &ColorBlockRGBA,
) -> (r: Result<Vec<RGBA>, BitmapError>)
    requires
        device_independent_header.width >= 0,
        spec_pixel_data_ok(*device_independent_header, pixel_array@.len() as int),
    ensures
        ({
            let h = *device_independent_header;
            let depth = h.color_depth as int;
            let stride = h.width as int;
            let rows = spec_rows(h.height);
            let total = rows * stride;
            let bottom_up = h.height >= 0;
            let tview = spec_table_view(color_block.color_table);
            match r {
                Ok(v) => {
                    &&& v@.len() == total
                    &&& forall|p: int|
                        0 <= p < total ==> #[trigger] spec_decoded_pixel(
                            pixel_array@,
                            depth,
                            stride,
                            tview,
                            p,
                        ) == Ok::<Seq<u8>, BitmapError>(
                            v@[spec_out_index(bottom_up, total, p)]@,
                        )
                },
                Err(e) => spec_first_pixel_failure(
                    pixel_array@,
                    depth,
                    stride,
                    tview,
                    total,
                    e,
                ),
            }
        }),
{
    let h = device_independent_header;
    let color_depth: usize = h.color_depth as usize;
    let bytes_per_color: usize = color_depth / 8;
    let stride: usize = h.width as usize;
    let rows: usize = if h.height >= 0 {
        h.height as usize
    } else {
        (-(h.height as i64)) as usize
    };
    let fill_direction_up = h.height >= 0;
    let ghost depth = h.color_depth as int;
    let ghost total: int = spec_rows(h.height) * (stride as int);
    let ghost tview = spec_table_view(color_block.color_table);
    let ghost data = pixel_array@;

    let mut unpacked_pixel_array: Vec<RGBA> = Vec::new();
    if rows == 0 || stride == 0 {
        proof {
            assert(total == 0) by (nonlinear_arith)
                requires
                    total == spec_rows(h.height) * (stride as int),
                    spec_rows(h.height) == rows as int,
                    rows == 0 || stride == 0,
            ;
        }
        return Ok(unpacked_pixel_array);
    }
    let data_len: usize = pixel_array.len();
    proof {
        let rb: int = (stride as int) * (bytes_per_color as int);
        let rt: int = rb + spec_row_padding(rb);
        vstd::arithmetic::mul::lemma_mul_nonnegative(stride as int, bytes_per_color as int);
        assert(spec_rows(h.height) == rows as int);
        assert((spec_rows(h.height) - 1) * rt + rb <= data_len);
        vstd::arithmetic::mul::lemma_mul_nonnegative(spec_rows(h.height) - 1, rt);
        assert(rb <= data_len);
    }
    let data_bytes_per_row: usize = stride * bytes_per_color;
    let padding: usize = (4 - data_bytes_per_row % 4) % 4;
    let ghost row_total: int = data_bytes_per_row as int + padding as int;
    let mut current_byte: usize = 0;
    let mut row: usize = 0;
    while row < rows
        invariant
            stride >= 1,
            rows >= 1,
            row <= rows,
            h == device_independent_header,
            data == pixel_array@,
            bytes_per_color == spec_bytes_per_color(depth),
            depth == h.color_depth as int,
            stride == h.width as int,
            rows == spec_rows(h.height),
            fill_direction_up == (h.height >= 0),
            data_bytes_per_row == stride * bytes_per_color,
            padding == spec_row_padding(data_bytes_per_row as int),
            row_total == data_bytes_per_row + padding,
            total == rows * stride,
            tview == spec_table_view(color_block.color_table),
            data_len == data.len(),
            (rows - 1) * row_total + data_bytes_per_row <= data_len,
            row < rows ==> current_byte == row * row_total,
            unpacked_pixel_array@.len() == row * stride,
            forall|p: int|
                0 <= p < row * stride ==> #[trigger] spec_decoded_pixel(
                    data,
                    depth,
                    stride as int,
                    tview,
                    p,
                ) == Ok::<Seq<u8>, BitmapError>(
                    unpacked_pixel_array@[spec_out_index(
                        fill_direction_up,
                        row * stride,
                        p,
                    )]@,
                ),
        decreases rows - row,
    {
        let mut pixel: usize = 0;
        proof {
            assert(row * row_total <= (rows - 1) * row_total) by (nonlinear_arith)
                requires
                    row <= rows - 1,
                    row_total >= 0,
            ;
        }
        while pixel < stride
            invariant
                stride >= 1,
                rows >= 1,
                row < rows,
                pixel <= stride,
                h == device_independent_header,
                data == pixel_array@,
                bytes_per_color == spec_bytes_per_color(depth),
                depth == h.color_depth as int,
                stride == h.width as int,
                rows == spec_rows(h.height),
                fill_direction_up == (h.height >= 0),
                data_bytes_per_row == stride * bytes_per_color,
                padding == spec_row_padding(data_bytes_per_row as int),
                row_total == data_bytes_per_row + padding,
                total == rows * stride,
                tview == spec_table_view(color_block.color_table),
                data_len == data.len(),
                (rows - 1) * row_total + data_bytes_per_row <= data_len,
                current_byte == row * row_total + pixel * bytes_per_color,
                unpacked_pixel_array@.len() == row * stride + pixel,
                forall|p: int|
                    0 <= p < row * stride + pixel ==> #[trigger] spec_decoded_pixel(
                        data,
                        depth,
                        stride as int,
                        tview,
                        p,
                    ) == Ok::<Seq<u8>, BitmapError>(
                        unpacked_pixel_array@[spec_out_index(
                            fill_direction_up,
                            row * stride + pixel,
                            p,
                        )]@,
                    ),
            decreases stride - pixel,
        {
            let ghost p: int = row * stride + pixel;
            proof {
                assert(pixel * bytes_per_color + bytes_per_color <= data_bytes_per_row)
                    by (nonlinear_arith)
                    requires
                        pixel <= stride - 1,
                        bytes_per_color >= 0,
                        data_bytes_per_row == stride * bytes_per_color,
                ;
                assert(row * row_total <= (rows - 1) * row_total) by (nonlinear_arith)
                    requires
                        row <= rows - 1,
                        row_total >= 0,
                ;
                assert(current_byte + bytes_per_color <= data_len);
                lemma_fundamental_div_mod_converse(
                    p,
                    stride as int,
                    row as int,
                    pixel as int,
                );
                assert(spec_pixel_offset(stride as int, bytes_per_color as int, p)
                    == current_byte as int);
            }
            let next_pixel: &[u8] = &pixel_array[current_byte..(current_byte + bytes_per_color)];
            proof {
                assert(next_pixel@ =~= spec_pixel_src(
                    data,
                    stride as int,
                    bytes_per_color as int,
                    p,
                ));
            }
            let pixel_color = match translate_color(next_pixel, h, &color_block.color_table) {
                Ok(c) => c,
                Err(e) => {
                    proof {
                        assert(spec_decoded_pixel(data, depth, stride as int, tview, p)
                            == Err::<Seq<u8>, BitmapError>(e));
                        assert(p < total) by (nonlinear_arith)
                            requires
                                p == row * stride + pixel,
                                total == rows * stride,
                                row < rows,
                                0 <= pixel < stride,
                        ;
                        assert(tview == spec_table_view(color_block.color_table));
                        assert(spec_decoded_pixel(pixel_array@, h.color_depth as int,
                            h.width as int, spec_table_view(color_block.color_table), p)
                            == Err::<Seq<u8>, BitmapError>(e));
                        assert forall|q: int| 0 <= q < p implies spec_decoded_pixel(
                            pixel_array@,
                            h.color_depth as int,
                            h.width as int,
                            spec_table_view(color_block.color_table),
                            q,
                        ) is Ok by {
                            assert(spec_decoded_pixel(data, depth, stride as int, tview, q)
                                == Ok::<Seq<u8>, BitmapError>(
                                unpacked_pixel_array@[spec_out_index(
                                    fill_direction_up,
                                    row * stride + pixel,
                                    q,
                                )]@,
                            ));
                        }
                        assert(spec_first_pixel_failure(
                            pixel_array@,
                            h.color_depth as int,
                            h.width as int,
                            spec_table_view(color_block.color_table),
                            spec_rows(h.height) * (h.width as int),
                            e,
                        ));
                    }
                    return Err(e);
                },
            };
            if fill_direction_up {
                unpacked_pixel_array.insert(0, pixel_color);
            } else {
                unpacked_pixel_array.push(pixel_color);
            }
            current_byte += bytes_per_color;
            pixel += 1;
            proof {
                assert(pixel * bytes_per_color == (pixel - 1) * bytes_per_color + bytes_per_color)
                    by (nonlinear_arith);
                assert forall|q: int| 0 <= q < row * stride + pixel implies #[trigger] spec_decoded_pixel(
                    data,
                    depth,
                    stride as int,
                    tview,
                    q,
                ) == Ok::<Seq<u8>, BitmapError>(
                    unpacked_pixel_array@[spec_out_index(
                        fill_direction_up,
                        row * stride + pixel,
                        q,
                    )]@,
                ) by {
                    if q < p {
                        if fill_direction_up {
                            assert(unpacked_pixel_array@[spec_out_index(
                                fill_direction_up,
                                row * stride + pixel,
                                q,
                            )] == unpacked_pixel_array@[p - q]);
                        }
                    } else {
                        assert(q == p);
                        if fill_direction_up {
                            assert(unpacked_pixel_array@[0] == pixel_color);
                        }
                    }
                }
            }
        }
        row += 1;
        proof {
            assert(row * row_total == (row - 1) * row_total + row_total) by (nonlinear_arith);
            assert(row * stride == (row - 1) * stride + stride) by (nonlinear_arith);
            assert(row < rows ==> row * row_total <= (rows - 1) * row_total) by (nonlinear_arith)
                requires
                    row_total >= 0,
            ;
        }
        if row < rows {
            current_byte += padding;
        }
    }
    proof {
        assert(row * stride == total);
    }
    Ok(unpacked_pixel_array)
}

/// A decoded bitmap: its file header, device-independent header, color
/// information, and the unpacked RGBA pixels in top-down order.
pub struct Bitmap {
    file_header: FileHeader,
    device_independent_header: DeviceIndependentBitmapType,
    color_block: ColorBlockType,
    pixel_array: Vec<RGBA>,
}

impl Bitmap {
    /// Decoding only ever builds bitmaps around a Windows 3.1 header with
    /// a non-negative width.
    #[verifier::type_invariant]
    spec fn inv(&self) -> bool {
        &&& self.device_independent_header is Windows3_1
        &&& self.device_independent_header->Windows3_1_0.width >= 0
    }

    /// Width in pixels.
    pub closed spec fn width_spec(&self) -> int {
        self.device_independent_header->Windows3_1_0.width as int
    }

    /// Height in pixels: the magnitude of the declared height.
    pub closed spec fn height_spec(&self) -> int {
        spec_rows(self.device_independent_header->Windows3_1_0.height)
    }

    /// The unpacked pixels.
    pub closed spec fn pixels(&self) -> Seq<RGBA> {
        self.pixel_array@
    }

    /// The unpacked RGBA pixels, top-down.
    pub fn get_pixel_array(&self) -> (r: &Vec<RGBA>)
        ensures
            r@ == self.pixels(),
    {
        &self.pixel_array
    }

    /// Width in pixels.
    pub fn get_width(&self) -> (r: usize)
        ensures
            r == self.width_spec(),
    {
        proof {
            use_type_invariant(self);
        }
        match &self.device_independent_header {
            DeviceIndependentBitmapType::Windows3_1(header) => header.width as usize,
            _ => {
                proof {
                    assert(false);
                }
                0
            },
        }
    }

    /// Height in pixels.
    pub fn get_height(&self) -> (r: usize)
        ensures
            r == self.height_spec(),
    {
        proof {
            use_type_invariant(self);
        }
        match &self.device_independent_header {
            DeviceIndependentBitmapType::Windows3_1(header) => {
                if header.height >= 0 {
                    header.height as usize
                } else {
                    (-(header.height as i64)) as usize
                }
            },
            _ => {
                proof {
                    assert(false);
                }
                0
            },
        }
    }
}

/// The file is long enough and tagged so that the decoder reaches the
/// Windows 3.1 header.
pub open spec fn spec_win31_path(s: Seq<u8>) -> bool {
    &&& s.len() >= 138
    &&& spec_decode_type(s[0], s[1]) is Ok
    &&& spec_dib_size(s.subrange(14, 138)) == 40
}

/// The Windows 3.1 header the file carries.
pub open spec fn spec_bitmap_header(s: Seq<u8>) -> Windows3_1BitmapHeader {
    spec_win31_header_of(s.subrange(14, 54))
}

/// Offset at which the file's pixel data starts.
pub open spec fn spec_pixel_start(s: Seq<u8>) -> int {
    spec_u32_from_le_bytes(s.subrange(10, 14)) as int
}

/// The color table the file carries, as byte quadruples, or none when the
/// palette is declared empty.
pub open spec fn spec_file_color_table(s: Seq<u8>) -> Option<Seq<Seq<u8>>> {
    let h = spec_bitmap_header(s);
    let off = 54 + spec_mask_offset(h.compression);
    if h.palette_color_count > 0 {
        Some(
            Seq::new(
                h.palette_color_count as nat,
                |k: int| s.subrange(off + 4 * k, off + 4 * k + 4),
            ),
        )
    } else {
        None::<Seq<Seq<u8>>>
    }
}

/// Every length and offset the decoder walks through is present in the
/// file: a full header block once the type tag is recognized, and, on the
/// decoded path, a representable color-plane count, a non-negative width,
/// a complete color table and complete pixel data.
pub open spec fn spec_bitmap_input_ok(s: Seq<u8>) -> bool {
    &&& (s.len() >= 14 && spec_decode_type(s[0], s[1]) is Ok ==> s.len() >= 138)
    &&& (spec_win31_path(s) ==> {
        let h = spec_bitmap_header(s);
        &&& spec_u16_from_le_bytes(s.subrange(26, 28)) <= 255
        &&& h.width >= 0
        &&& (h.palette_color_count > 0 ==> 54 + spec_mask_offset(h.compression) + 4
            * h.palette_color_count <= s.len())
        &&& spec_pixel_start(s) <= s.len()
        &&& spec_pixel_data_ok(h, s.len() - spec_pixel_start(s))
    })
}

/// Decode a bitmap file.
///
/// Accepts exactly the files whose type tag is recognized, whose
/// device-independent header is the 40-byte Windows 3.1 layout, and whose
/// pixels all translate under their depth and color table; the decoded
/// pixel stream is top-down.  Everything else is rejected with the first
/// error the decoder meets.
pub fn new(contents: &[u8]) -> (r: Result<Bitmap, BitmapError>)
    requires
        spec_bitmap_input_ok(contents@),
    ensures
        ({
            let s = contents@;
            let h = spec_bitmap_header(s);
            let depth = h.color_depth as int;
            let stride = h.width as int;
            let total = spec_rows(h.height) * stride;
            let data = s.subrange(spec_pixel_start(s), s.len() as int);
            let tview = spec_file_color_table(s);
            match r {
                Ok(b) => {
                    &&& spec_win31_path(s)
                    &&& b.width_spec() == h.width
                    &&& b.height_spec() == spec_rows(h.height)
                    &&& b.pixels().len() == total
                    &&& forall|p: int|
                        0 <= p < total ==> #[trigger] spec_decoded_pixel(
                            data,
                            depth,
                            stride,
                            tview,
                            p,
                        ) == Ok::<Seq<u8>, BitmapError>(
                            b.pixels()[spec_out_index(h.height >= 0, total, p)]@,
                        )
                },
                Err(e) => {
                    if s.len() < 14 {
                        e == BitmapError::UnknownHeader
                    } else if !(spec_decode_type(s[0], s[1]) is Ok) {
                        e == BitmapError::UnknownHeader
                    } else if spec_dib_size(s.subrange(14, 138)) != 40 {
                        e == spec_dib_error(spec_dib_size(s.subrange(14, 138)))
                    } else {
                        spec_first_pixel_failure(data, depth, stride, tview, total, e)
                    }
                },
            }
        }),
{
    let n = contents.len();
    if n < 14 {
        return Err(BitmapError::UnknownHeader);
    }
    let file_header = match decode_file_header(&contents[0..14]) {
        Ok(h) => h,
        Err(e) => {
            proof {
                assert(contents@.subrange(0, 14)[0] == contents@[0]);
                assert(contents@.subrange(0, 14)[1] == contents@[1]);
            }
            return Err(e);
        },
    };
    proof {
        assert(contents@.subrange(0, 14)[0] == contents@[0]);
        assert(contents@.subrange(0, 14)[1] == contents@[1]);
        assert(contents@.len() >= 138);
        assert(contents@.subrange(14, 138).subrange(12, 14) =~= contents@.subrange(26, 28));
        assert(contents@.subrange(14, 138).subrange(0, 4) =~= contents@.subrange(14, 18));
        assert(spec_dib_size(contents@.subrange(14, 138)) == spec_u32_from_le_bytes(
            contents@.subrange(14, 18),
        ));
    }
    let dib_header = match decode_dib_header(&contents[14..138]) {
        Ok(d) => d,
        Err(e) => {
            return Err(e);
        },
    };
    match dib_header {
        DeviceIndependentBitmapType::Windows3_1(win_header) => {
            let ghost s = contents@;
            proof {
                assert(s.subrange(14, 138).subrange(0, 40) =~= s.subrange(14, 54));
                assert(win_header == spec_bitmap_header(s));
                assert(spec_win31_path(s));
                assert(s.subrange(0, 14).subrange(10, 14) =~= s.subrange(10, 14));
                assert(file_header.pixel_array_start == spec_pixel_start(s));
                assert(win_header.width >= 0);
                assert(s.subrange(54, s.len() as int).len() == s.len() - 54);
            }
            let color_block = decode_windows_31_color_block(&contents[54..n], &win_header);
            proof {
                assert(s.subrange(54, s.len() as int).len() >= 84);
                if win_header.palette_color_count > 0 {
                    let off = spec_mask_offset(win_header.compression);
                    let tv = spec_table_view(color_block.color_table);
                    let fv = spec_file_color_table(s);
                    let tvs = tv->Some_0;
                    let fvs = fv->Some_0;
                    assert forall|k: int| 0 <= k < tvs.len() implies tvs[k] == fvs[k] by {
                        assert(tvs[k] == color_block.color_table->Some_0@[k]@);
                        assert(s.subrange(54, s.len() as int).subrange(off + 4 * k, off + 4 * k
                            + 4) =~= s.subrange(54 + off + 4 * k, 54 + off + 4 * k + 4));
                    }
                    assert(tvs =~= fvs);
                    assert(spec_table_view(color_block.color_table) == spec_file_color_table(
                        s,
                    ));
                } else {
                    assert(spec_table_view(color_block.color_table) == spec_file_color_table(
                        s,
                    ));
                }
            }
            let start = file_header.pixel_array_start;
            proof {
                assert(start <= n);
            }
            let data_slice: &[u8] = &contents[start..n];
            proof {
                assert(data_slice@ =~= s.subrange(spec_pixel_start(s), s.len() as int));
                assert(spec_pixel_data_ok(win_header, data_slice@.len() as int));
            }
            let unpacked_pixel_array = match decode_windows_31_pixels(
                &win_header,
                data_slice,
                &color_block,
            ) {
                Ok(v) => v,
                Err(e) => {
                    return Err(e);
                },
            };
            Ok(
                Bitmap {
                    file_header,
                    device_independent_header: dib_header,
                    color_block: ColorBlockType::RGBAColorBlock(color_block),
                    pixel_array: unpacked_pixel_array,
                },
            )
        },
        _ => {
            proof {
                assert(false);
            }
            Err(BitmapError::UnsupportedBitmapType)
        },
    }
}

} // verus!
