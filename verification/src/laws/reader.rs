//! Laws of the privileged read engine.

use crate::common::{ErrorKind, IoError};
use crate::drm::capture::FrameInfo;
use crate::drm::config::DrmConfig;
use crate::drm_reader::{device_under_dev_dri, DrmReader};
use crate::fourcc::has_32bpp;
use vstd::prelude::*;
use vstd::string::*;

verus! {

/// The bytes of a path.
pub open spec fn path(canonical: Option<&[u8]>) -> Option<Seq<u8>> {
    match canonical {
        Some(p) => Some(p@),
        None => None,
    }
}

/// Whether a canonical path is "/dev/dri/" and then a name: something without another slash.
pub open spec fn node_of_dri(p: Seq<u8>) -> bool {
    &&& p.len() >= 10
    &&& p[0] == 47 && p[1] == 100 && p[2] == 101 && p[3] == 118
    &&& p[4] == 47 && p[5] == 100 && p[6] == 114 && p[7] == 105 && p[8] == 47
    &&& forall|i: int| 9 <= i < p.len() ==> p[i] != 47
}

proof fn lemma_node(p: Seq<u8>)
    ensures
        crate::drm_reader::is_dri_node(p) <==> node_of_dri(p),
{
    let prefix = crate::drm_reader::dri_prefix();
    if node_of_dri(p) {
        assert(p.take(9) =~= prefix);
        let rest = p.skip(9);
        if rest.contains(47u8) {
            let k = choose|k: int| 0 <= k < rest.len() && rest[k] == 47u8;
            assert(p[k + 9] == 47);
        }
    }
    if crate::drm_reader::is_dri_node(p) {
        let head = p.take(9);
        assert(head == prefix);
        assert forall|i: int| 0 <= i < 9 implies p[i] == prefix[i] by {
            assert(head[i] == p[i]);
        }
        let rest = p.skip(9);
        assert forall|i: int| 9 <= i < p.len() implies p[i] != 47 by {
            assert(rest[i - 9] == p[i]);
            assert(rest.contains(rest[i - 9]));
        }
    }
}

/// A device passes exactly if its canonical path is a node directly under /dev/dri.
pub proof fn law_gate(canonical: Option<&[u8]>, r: bool)
    requires
        call_ensures(device_under_dev_dri, (canonical,), r),
    ensures
        r <==> (path(canonical) matches Some(p) && node_of_dri(p)),
{
    if let Some(p) = canonical {
        lemma_node(p@);
    }
}

/// Whether a text holds a zero character.
pub open spec fn has_zero(s: Seq<char>) -> bool {
    exists|i: int| 0 <= i < s.len() && #[trigger] s[i] as int == 0
}

proof fn lemma_zero(s: Seq<char>)
    ensures
        has_zero(s) <==> s.contains('\0'),
{
    if s.contains('\0') {
        let i = choose|i: int| 0 <= i < s.len() && s[i] == '\0';
        assert(s[i] as int == 0);
    }
    if has_zero(s) {
        let i = choose|i: int| 0 <= i < s.len() && #[trigger] s[i] as int == 0;
        assert(s[i] == '\0');
    }
}

/// Without a device one is detected. A requested device is opened exactly if its canonical path
/// passes and it can be a path at all; it is opened by the requested path. An active CRTC is
/// picked, and there is no debug output.
pub proof fn law_what_is_opened(
    device: Option<&str>,
    canonical: Option<&[u8]>,
    r: Option<DrmConfig>,
)
    requires
        call_ensures(DrmReader::open_config, (device, canonical), r),
    ensures
        device is None ==> (r matches Some(c) && c.device_path is None),
        device matches Some(d) ==> {
            &&& r is Some <==> (path(canonical) matches Some(p) && node_of_dri(p)) && !has_zero(d@)
            &&& r matches Some(c) ==> (c.device_path matches Some(q) && q@ == d@)
        },
        r matches Some(c) ==> c.crtc_id == 0 && c.debug == 0,
{
    if let Some(d) = device {
        lemma_zero(d@);
    }
    if let Some(p) = canonical {
        lemma_node(p@);
    }
}

/// A reader is there only if the library was loaded and a context was opened, for no device or
/// for one whose canonical path passes. It has no picture yet.
pub proof fn law_reader_is_opened<
    C: FnOnce(&str) -> Option<Vec<u8>>,
    O: FnOnce(&DrmConfig) -> bool,
>(
    loaded: bool,
    device: Option<&str>,
    canonicalize: C,
    open_ctx: O,
    r: Option<DrmReader>,
)
    requires
        call_ensures(DrmReader::open::<C, O>, (loaded, device, canonicalize, open_ctx), r),
    ensures
        r matches Some(reader) ==> {
            &&& loaded
            &&& reader.buf@.len() == 0
            &&& exists|c: DrmConfig| {
                &&& #[trigger] open_ctx.ensures((&c,), true)
                &&& c.crtc_id == 0
                &&& c.debug == 0
                &&& match (device, c.device_path) {
                    (None, None) => true,
                    (Some(d), Some(q)) => q@ == d@,
                    _ => false,
                }
            }
            &&& device matches Some(d) ==> !has_zero(d@) && exists|p: Option<Vec<u8>>| {
                &&& #[trigger] canonicalize.ensures((d,), p)
                &&& p matches Some(bytes) && node_of_dri(bytes@)
            }
        },
{
    if r is Some {
        match device {
            None => {
                let (c, ok) = choose|c: DrmConfig, ok: bool| #[trigger]
                    open_ctx.ensures((&c,), ok) && crate::drm_reader::plain_config(c, None) && (
                    r is Some <==> ok);
                assert(open_ctx.ensures((&c,), true));
            },
            Some(d) => {
                lemma_zero(d@);
                let p = choose|p: Option<Vec<u8>>| #[trigger]
                    canonicalize.ensures((d,), p) && if crate::drm_reader::device_allowed(
                        d@,
                        crate::drm_reader::bytes_of(p),
                    ) {
                        exists|c: DrmConfig, ok: bool| #[trigger]
                            open_ctx.ensures((&c,), ok) && crate::drm_reader::plain_config(
                                c,
                                Some(d@),
                            ) && (r is Some <==> ok)
                    } else {
                        r is None
                    };
                if let Some(bytes) = p {
                    lemma_node(bytes@);
                }
                let (c, ok) = choose|c: DrmConfig, ok: bool| #[trigger]
                    open_ctx.ensures((&c,), ok) && crate::drm_reader::plain_config(c, Some(d@)) && (
                    r is Some <==> ok);
                assert(open_ctx.ensures((&c,), true));
                assert(canonicalize.ensures((d,), p));
            },
        }
    }
}

/// Whether a picture is one that is copied: of 32 bits a pixel, 1 to 16384 pixels wide and high,
/// with rows that do not overlap.
pub open spec fn copied(info: FrameInfo) -> bool {
    &&& crate::fourcc::is_32bpp(info.format)
    &&& 1 <= info.width <= 16384
    &&& 1 <= info.height <= 16384
    &&& 4 * info.width <= info.stride
}

/// A grab gives a picture exactly if it succeeded, mapped something, and that is copied. The
/// picture has the size of the grab and its rows without padding. A failure that is worth a
/// retry, and a grab that mapped nothing, would block; anything else is a hard error. An error
/// leaves the last picture as it is.
pub proof fn law_grab(
    reader: &mut DrmReader,
    ret: i32,
    info: &FrameInfo,
    data: &[u8],
    r: Result<(&[u8], usize, usize), IoError>,
)
    requires
        call_ensures(DrmReader::grab, (reader, ret, info, data), r),
    ensures
        r is Ok <==> ret >= 0 && info.mapped && copied(*info),
        r matches Ok(f) ==> {
            &&& f.1 == info.width
            &&& f.2 == info.height
            &&& f.0@.len() == 4 * info.width * info.height
            &&& final(reader).buf@ == f.0@
        },
        r matches Err(e) ==> {
            &&& final(reader).buf@ == old(reader).buf@
            &&& e.kind == ErrorKind::WouldBlock <==> crate::laws::device::retryable(ret as int) || (ret >= 0
                && !info.mapped)
            &&& e.kind == ErrorKind::WouldBlock || e.kind == ErrorKind::Other
            &&& ret >= 0 && info.mapped ==> e.message@ == "unsupported DRM scanout format"@
        },
{
    if r is Ok {
        let w = info.width as nat;
        let h = info.height as nat;
        assert(4 * w * h == w * 4 * h) by (nonlinear_arith);
    }
}

/// Byte `x` of row `y` of a picture that a grab gives is the one that stands `x` bytes behind
/// the start of row `y` in the mapping.
pub proof fn law_grab_packs(
    reader: &mut DrmReader,
    ret: i32,
    info: &FrameInfo,
    data: &[u8],
    f: (&[u8], usize, usize),
    x: int,
    y: int,
)
    requires
        call_ensures(
            DrmReader::grab,
            (reader, ret, info, data),
            Ok::<(&[u8], usize, usize), IoError>(f),
        ),
        0 <= x < 4 * info.width,
        0 <= y < info.height,
    ensures
        f.0@[4 * info.width * y + x] == data@[info.stride * y + x],
        info.stride * y + x < info.stride * info.height,
{
    let w = info.width as nat;
    let h = info.height as nat;
    let stride = info.stride as nat;
    crate::pixels::lemma_packed_byte(data@, w, h, stride, x, y);
    assert(4 * w * y == w * 4 * y) by (nonlinear_arith);
    assert(stride * y == y * stride) by (nonlinear_arith);
    assert(stride * y + x < stride * h) by (nonlinear_arith)
        requires
            x < stride,
            y + 1 <= h,
            stride >= 0,
    ;
}

/// A fourcc by its four characters.
pub open spec fn code(a: char, b: char, c: char, d: char) -> int {
    a as int + 0x100 * b as int + 0x1_0000 * c as int + 0x100_0000 * d as int
}

/// Red, green and blue in any order with 8 or 10 bits each are read, with alpha or padding at
/// either end.
pub proof fn law_rgb_formats_are_read(format: u32, r: bool, wide: bool)
    requires
        call_ensures(has_32bpp, (format,), r),
        ({
            let (c, d) = if wide {
                ('3', '0')
            } else {
                ('2', '4')
            };
            ||| format == code('X', 'R', c, d) || format == code('X', 'B', c, d)
            ||| format == code('R', 'X', c, d) || format == code('B', 'X', c, d)
            ||| format == code('A', 'R', c, d) || format == code('A', 'B', c, d)
            ||| format == code('R', 'A', c, d) || format == code('B', 'A', c, d)
        }),
    ensures
        r,
{
}

/// No format of fewer than 32 bits, or of more, is read: none of 12, 15, 16 or 24 bits for red,
/// green and blue, nor one of 16 bits a channel, whole or half-precision.
pub proof fn law_other_rgb_formats_are_not_read(format: u32, r: bool, a: char, b: char)
    requires
        call_ensures(has_32bpp, (format,), r),
        a as int <= 0x7f,
        65 <= b as int <= 0x7f,
        ({
            ||| format == code(a, b, '1', '2') || format == code(a, b, '1', '5')
            ||| format == code(a, b, '1', '6') || format == code('R', 'G', '2', '4')
            ||| format == code('B', 'G', '2', '4') || format == code(a, b, '4', '8')
            ||| format == code(a, b, '4', 'H')
        }),
    ensures
        !r,
{
}

} // verus!
