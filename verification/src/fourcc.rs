//! Pixel formats, by their DRM fourcc.

use vstd::prelude::*;

verus! {

/// Set in the fourcc of a format whose values are stored big-endian.
pub const BIG_ENDIAN: u32 = 0x8000_0000;

/// `XR24`.
pub const XRGB8888: u32 = 0x34325258;

/// `XB24`.
pub const XBGR8888: u32 = 0x34324258;

/// `RX24`.
pub const RGBX8888: u32 = 0x34325852;

/// `BX24`.
pub const BGRX8888: u32 = 0x34325842;

/// `AR24`.
pub const ARGB8888: u32 = 0x34325241;

/// `AB24`.
pub const ABGR8888: u32 = 0x34324241;

/// `RA24`.
pub const RGBA8888: u32 = 0x34324152;

/// `BA24`.
pub const BGRA8888: u32 = 0x34324142;

/// `XR30`.
pub const XRGB2101010: u32 = 0x30335258;

/// `XB30`.
pub const XBGR2101010: u32 = 0x30334258;

/// `RX30`.
pub const RGBX1010102: u32 = 0x30335852;

/// `BX30`.
pub const BGRX1010102: u32 = 0x30335842;

/// `AR30`.
pub const ARGB2101010: u32 = 0x30335241;

/// `AB30`.
pub const ABGR2101010: u32 = 0x30334241;

/// `RA30`.
pub const RGBA1010102: u32 = 0x30334152;

/// `BA30`.
pub const BGRA1010102: u32 = 0x30334142;

/// `RG32`.
pub const RG1616: u32 = 0x32334752;

/// `GR32`.
pub const GR1616: u32 = 0x32335247;

/// `GR H`.
pub const GR1616F: u32 = 0x48205247;

/// `R  F`.
pub const R32F: u32 = 0x46202052;

/// `AYUV`.
pub const AYUV: u32 = 0x56555941;

/// `AVUY`.
pub const AVUY8888: u32 = 0x59555641;

/// `XYUV`.
pub const XYUV8888: u32 = 0x56555958;

/// `XVUY`.
pub const XVUY8888: u32 = 0x59555658;

/// `Y210`.
pub const Y210: u32 = 0x30313259;

/// `Y212`.
pub const Y212: u32 = 0x32313259;

/// `Y216`.
pub const Y216: u32 = 0x36313259;

/// `Y410`.
pub const Y410: u32 = 0x30313459;

/// `XV30`.
pub const XVYU2101010: u32 = 0x30335658;

/// `XY30`.
pub const XVUY2101010: u32 = 0x30335958;

/// The fourcc without its byte order.
pub open spec fn plain(format: u32) -> int {
    if format >= BIG_ENDIAN {
        format - BIG_ENDIAN
    } else {
        format as int
    }
}

/// Red, green and blue of 8 bits each, with 8 more for alpha or padding.
pub open spec fn is_rgb_8(f: int) -> bool {
    ||| f == XRGB8888 || f == XBGR8888 || f == RGBX8888 || f == BGRX8888
    ||| f == ARGB8888 || f == ABGR8888 || f == RGBA8888 || f == BGRA8888
}

/// Red, green and blue of 10 bits each, with 2 more for alpha or padding.
pub open spec fn is_rgb_10(f: int) -> bool {
    ||| f == XRGB2101010 || f == XBGR2101010 || f == RGBX1010102 || f == BGRX1010102
    ||| f == ARGB2101010 || f == ABGR2101010 || f == RGBA1010102 || f == BGRA1010102
}

/// One or two channels.
pub open spec fn is_few_channels(f: int) -> bool {
    ||| f == RG1616 || f == GR1616 || f == GR1616F || f == R32F
}

/// Luma and chroma in one plane, 64 bits for two pixels or 32 for one.
pub open spec fn is_yuv(f: int) -> bool {
    ||| f == AYUV || f == AVUY8888 || f == XYUV8888 || f == XVUY8888
    ||| f == Y210 || f == Y212 || f == Y216 || f == Y410
    ||| f == XVYU2101010 || f == XVUY2101010
}

/// Whether a format has 32 bits a pixel, whatever its channels are. A fourcc that DRM does not
/// define is of no such format.
pub open spec fn is_32bpp(format: u32) -> bool {
    let f = plain(format);
    is_rgb_8(f) || is_rgb_10(f) || is_few_channels(f) || is_yuv(f)
}

/// Whether a format has 32 bits a pixel.
pub fn has_32bpp(format: u32) -> (r: bool)
    ensures
        r == is_32bpp(format),
{
    let f: u32 = if format >= BIG_ENDIAN {
        format - BIG_ENDIAN
    } else {
        format
    };
    let rgb_8: bool = f == XRGB8888 || f == XBGR8888 || f == RGBX8888 || f == BGRX8888
        || f == ARGB8888 || f == ABGR8888 || f == RGBA8888 || f == BGRA8888;
    let rgb_10: bool = f == XRGB2101010 || f == XBGR2101010 || f == RGBX1010102 || f == BGRX1010102
        || f == ARGB2101010 || f == ABGR2101010 || f == RGBA1010102 || f == BGRA1010102;
    let few: bool = f == RG1616 || f == GR1616 || f == GR1616F || f == R32F;
    let yuv: bool = f == AYUV || f == AVUY8888 || f == XYUV8888 || f == XVUY8888
        || f == Y210 || f == Y212 || f == Y216 || f == Y410
        || f == XVYU2101010 || f == XVUY2101010;
    rgb_8 || rgb_10 || few || yuv
}

} // verus!
