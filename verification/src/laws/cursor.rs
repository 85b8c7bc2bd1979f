//! Laws of the hardware cursor.

use crate::drm::capture::Capturer;
use crate::drm::cursor::{cursor_pixel_count, decode_cursor, CursorInfo, DrmCursor};
use crate::drm::state::{drm_cursor, drm_cursor_id, DrmState};
use vstd::prelude::*;

verus! {

/// Whether pixel `i` is one of the shape: its highest byte, the alpha, is at least 128.
pub open spec fn solid(pixels: Seq<u32>, i: int) -> bool {
    0 <= i < pixels.len() && pixels[i] >= 0x8000_0000
}

/// Whether the shape spans the columns from `left` to `right` and the rows from `top` to
/// `bottom`, and no more: all of it lies there, and it touches each side.
pub open spec fn spans(
    pixels: Seq<u32>,
    width: int,
    left: int,
    right: int,
    top: int,
    bottom: int,
) -> bool {
    &&& forall|i: int| #[trigger]
        solid(pixels, i) ==> left <= i % width <= right && top <= i / width <= bottom
    &&& exists|i: int| #[trigger] solid(pixels, i) && i % width == left
    &&& exists|i: int| #[trigger] solid(pixels, i) && i % width == right
    &&& exists|i: int| #[trigger] solid(pixels, i) && i / width == top
    &&& exists|i: int| #[trigger] solid(pixels, i) && i / width == bottom
}

/// The highest byte of a pixel is at least 128 exactly where the pixel is at least 2^31.
proof fn lemma_solid(pixels: Seq<u32>, i: int)
    requires
        0 <= i < pixels.len(),
    ensures
        solid(pixels, i) == crate::drm::cursor::opaque(pixels[i]),
{
    let p = pixels[i];
    assert(((((p >> 24) & 0xff) as u8) >= 128) == (p >= 0x8000_0000)) by (bit_vector);
}

proof fn lemma_spans(
    pixels: Seq<u32>,
    width: int,
    left: int,
    right: int,
    top: int,
    bottom: int,
    b: crate::drm::cursor::Bounds,
)
    requires
        spans(pixels, width, left, right, top, bottom),
        b.minx == left,
        b.maxx == right,
        b.miny == top,
        b.maxy == bottom,
    ensures
        crate::drm::cursor::opaque_bounds(pixels, width) == Some(b),
{
    let n = pixels.len() as int;
    assert forall|i: int| #[trigger]
        crate::drm::cursor::in_shape(pixels, n, i) == solid(pixels, i) by {
        if 0 <= i < n {
            lemma_solid(pixels, i);
        }
    }
    let i1 = choose|i: int| #[trigger] solid(pixels, i) && i % width == left;
    let i2 = choose|i: int| #[trigger] solid(pixels, i) && i % width == right;
    let i3 = choose|i: int| #[trigger] solid(pixels, i) && i / width == top;
    let i4 = choose|i: int| #[trigger] solid(pixels, i) && i / width == bottom;
    assert(crate::drm::cursor::in_shape(pixels, n, i1));
    assert(crate::drm::cursor::in_shape(pixels, n, i2));
    assert(crate::drm::cursor::in_shape(pixels, n, i3));
    assert(crate::drm::cursor::in_shape(pixels, n, i4));
    assert(crate::drm::cursor::tight(pixels, width, b));
    crate::drm::cursor::lemma_tight_unique(pixels, width, b, b);
}

/// A hotspot that the plane reports is taken as it is.
pub proof fn law_reported_hotspot_is_kept(info: &CursorInfo, pixels: &[u32], r: DrmCursor)
    requires
        call_ensures(decode_cursor, (info, pixels), r),
        info.hot_x != 0 || info.hot_y != 0,
    ensures
        r.hotx == info.hot_x,
        r.hoty == info.hot_y,
{
}

/// Where no hotspot is reported and the shape is at most twice as high as wide, the hotspot is
/// its upper left corner: no solid pixel lies further left or further up, one lies as far left,
/// and one as far up.
pub proof fn law_hotspot_is_the_upper_left_corner(
    info: &CursorInfo,
    pixels: &[u32],
    r: DrmCursor,
    left: i32,
    right: i32,
    top: i32,
    bottom: i32,
)
    requires
        call_ensures(decode_cursor, (info, pixels), r),
        info.hot_x == 0,
        info.hot_y == 0,
        spans(pixels@, info.width as int, left as int, right as int, top as int, bottom as int),
        bottom - top + 1 <= 2 * (right - left + 1),
    ensures
        r.hotx == left,
        r.hoty == top,
        forall|i: int| #[trigger]
            solid(pixels@, i) ==> r.hotx <= i % info.width as int && r.hoty <= i / info.width as int,
        exists|i: int| #[trigger] solid(pixels@, i) && i % info.width as int == r.hotx,
        exists|i: int| #[trigger] solid(pixels@, i) && i / info.width as int == r.hoty,
{
    let b = crate::drm::cursor::Bounds { minx: left, miny: top, maxx: right, maxy: bottom };
    lemma_spans(
        pixels@,
        info.width as int,
        left as int,
        right as int,
        top as int,
        bottom as int,
        b,
    );
}

/// Where no hotspot is reported and the shape is more than twice as high as wide, the hotspot
/// is its middle: as far from the left side as from the right, and from the top as from the
/// bottom, up to one pixel.
pub proof fn law_hotspot_of_a_caret_is_its_middle(
    info: &CursorInfo,
    pixels: &[u32],
    r: DrmCursor,
    left: i32,
    right: i32,
    top: i32,
    bottom: i32,
)
    requires
        call_ensures(decode_cursor, (info, pixels), r),
        info.hot_x == 0,
        info.hot_y == 0,
        0 <= left <= right < 65536,
        0 <= top <= bottom < 65536,
        spans(pixels@, info.width as int, left as int, right as int, top as int, bottom as int),
        bottom - top + 1 > 2 * (right - left + 1),
    ensures
        0 <= (right - r.hotx) - (r.hotx - left) <= 1,
        0 <= (bottom - r.hoty) - (r.hoty - top) <= 1,
{
    let b = crate::drm::cursor::Bounds { minx: left, miny: top, maxx: right, maxy: bottom };
    lemma_spans(
        pixels@,
        info.width as int,
        left as int,
        right as int,
        top as int,
        bottom as int,
        b,
    );
}

/// Where no hotspot is reported and there is no shape, the hotspot is the origin.
pub proof fn law_hotspot_without_a_shape(info: &CursorInfo, pixels: &[u32], r: DrmCursor)
    requires
        call_ensures(decode_cursor, (info, pixels), r),
        info.hot_x == 0,
        info.hot_y == 0,
        forall|i: int| !#[trigger] solid(pixels@, i),
    ensures
        r.hotx == 0,
        r.hoty == 0,
{
    assert forall|i: int| 0 <= i < pixels@.len() implies !crate::drm::cursor::opaque(
        #[trigger] pixels@[i],
    ) by {
        lemma_solid(pixels@, i);
        assert(!solid(pixels@, i));
    }
    crate::drm::cursor::lemma_no_bounds(pixels@, info.width as int);
}

/// A cursor with a solid pixel has a span, so that one of the laws of the hotspot speaks of it.
pub proof fn law_shape_has_a_span(pixels: Seq<u32>, width: u32, height: u32, k: int) -> (span: (
    i32,
    i32,
    i32,
    i32,
))
    requires
        pixels.len() == width * height,
        pixels.len() <= 65536,
        0 < width,
        0 < height,
        solid(pixels, k),
    ensures
        0 <= span.0 <= span.1 < width,
        0 <= span.2 <= span.3 < height,
        spans(pixels, width as int, span.0 as int, span.1 as int, span.2 as int, span.3 as int),
{
    lemma_span_upto(pixels, width as int, height as int, k)
}

proof fn lemma_cell_inside(i: int, w: int, h: int)
    requires
        w > 0,
        0 <= i < w * h,
    ensures
        0 <= i % w < w,
        0 <= i / w < h,
{
    vstd::arithmetic::div_mod::lemma_fundamental_div_mod(i, w);
    vstd::arithmetic::div_mod::lemma_mod_bound(i, w);
    assert(0 <= i / w < h) by (nonlinear_arith)
        requires
            i == w * (i / w) + i % w,
            0 <= i % w < w,
            0 <= i < w * h,
            w > 0,
    ;
}

/// The least value of a function over the solid pixels is attained.
proof fn lemma_least_attained(pixels: Seq<u32>, f: spec_fn(int) -> int, k: int) -> (at: int)
    requires
        solid(pixels, k),
        forall|i: int| #[trigger] solid(pixels, i) ==> 0 <= f(i),
    ensures
        solid(pixels, at),
        forall|i: int| #[trigger] solid(pixels, i) ==> f(at) <= f(i),
    decreases f(k),
{
    if forall|i: int| #[trigger] solid(pixels, i) ==> f(k) <= f(i) {
        k
    } else {
        let j = choose|j: int| #[trigger] solid(pixels, j) && f(j) < f(k);
        lemma_least_attained(pixels, f, j)
    }
}

proof fn lemma_span_upto(pixels: Seq<u32>, w: int, h: int, k: int) -> (span: (i32, i32, i32, i32))
    requires
        pixels.len() == w * h,
        pixels.len() <= 65536,
        w > 0,
        h > 0,
        solid(pixels, k),
    ensures
        0 <= span.0 <= span.1 < w,
        0 <= span.2 <= span.3 < h,
        spans(pixels, w, span.0 as int, span.1 as int, span.2 as int, span.3 as int),
{
    assert(w <= w * h && h <= w * h) by (nonlinear_arith)
        requires
            w > 0,
            h > 0,
    ;
    assert forall|i: int| #[trigger] solid(pixels, i) implies 0 <= i % w < w && 0 <= i / w < h by {
        lemma_cell_inside(i, w, h);
    }
    let i1 = lemma_least_attained(pixels, |i: int| i % w, k);
    let i2 = lemma_least_attained(pixels, |i: int| w - i % w, k);
    let i3 = lemma_least_attained(pixels, |i: int| i / w, k);
    let i4 = lemma_least_attained(pixels, |i: int| h - i / w, k);
    let f1 = |i: int| i % w;
    let f2 = |i: int| w - i % w;
    let f3 = |i: int| i / w;
    let f4 = |i: int| h - i / w;
    assert forall|i: int| #[trigger] solid(pixels, i) implies i1 % w <= i % w <= i2 % w && i3 / w
        <= i / w <= i4 / w by {
        assert(f1(i1) <= f1(i));
        assert(f2(i2) <= f2(i));
        assert(f3(i3) <= f3(i));
        assert(f4(i4) <= f4(i));
    }
    ((i1 % w) as i32, (i2 % w) as i32, (i3 / w) as i32, (i4 / w) as i32)
}

/// The bytes of a decoded cursor are red, green, blue and alpha of each pixel in turn, where a
/// pixel is alpha, red, green and blue from its highest byte to its lowest.
pub proof fn law_colours_of_a_cursor(info: &CursorInfo, pixels: &[u32], r: DrmCursor, i: int)
    requires
        call_ensures(decode_cursor, (info, pixels), r),
        0 <= i < pixels@.len(),
    ensures
        r.colors@.len() == pixels@.len() * 4,
        r.colors@[4 * i] == pixels@[i] / 0x1_0000 % 0x100,
        r.colors@[4 * i + 1] == pixels@[i] / 0x100 % 0x100,
        r.colors@[4 * i + 2] == pixels@[i] % 0x100,
        r.colors@[4 * i + 3] == pixels@[i] / 0x100_0000,
{
    let p = pixels@[i];
    assert((((p >> 16) & 0xff) as u8) == p / 0x1_0000 % 0x100) by (bit_vector);
    assert((((p >> 8) & 0xff) as u8) == p / 0x100 % 0x100) by (bit_vector);
    assert(((p & 0xff) as u8) == p % 0x100) by (bit_vector);
    assert((((p >> 24) & 0xff) as u8) == p / 0x100_0000) by (bit_vector);
    let c = crate::drm::cursor::rgba(pixels@);
    assert(r.colors@ == c);
    assert((4 * i) / 4 == i && (4 * i) % 4 == 0);
    assert((4 * i + 1) / 4 == i && (4 * i + 1) % 4 == 1);
    assert((4 * i + 2) / 4 == i && (4 * i + 2) % 4 == 2);
    assert((4 * i + 3) / 4 == i && (4 * i + 3) % 4 == 3);
}

/// A decoded cursor has the size that the plane reports.
pub proof fn law_size_of_a_cursor(info: &CursorInfo, pixels: &[u32], r: DrmCursor)
    requires
        call_ensures(decode_cursor, (info, pixels), r),
        info.width <= 65536,
        info.height <= 65536,
    ensures
        r.width == info.width,
        r.height == info.height,
{
}

/// Cursors of one width and number of pixels that differ in one pixel have different ids, and
/// so have cursors of the same pixels that differ in width. The hotspot does not matter.
pub proof fn law_id_follows_the_shape(
    a: &CursorInfo,
    b: &CursorInfo,
    p: &[u32],
    q: &[u32],
    ra: DrmCursor,
    rb: DrmCursor,
    i: int,
)
    requires
        call_ensures(decode_cursor, (a, p), ra),
        call_ensures(decode_cursor, (b, q), rb),
    ensures
        a.width == b.width && p@ == q@ ==> ra.id == rb.id,
        a.width != b.width && p@ == q@ ==> ra.id != rb.id,
        a.width == b.width && p@.len() == q@.len() && 0 <= i < p@.len() && p@[i] != q@[i] && (
        forall|j: int| 0 <= j < p@.len() && j != i ==> p@[j] == q@[j]) ==> ra.id != rb.id,
{
    if a.width != b.width && p@ == q@ {
        crate::drm::cursor::lemma_width_changes_id(p@, a.width, b.width);
    }
    if a.width == b.width && p@.len() == q@.len() && 0 <= i < p@.len() && p@[i] != q@[i] && (
    forall|j: int| 0 <= j < p@.len() && j != i ==> p@[j] == q@[j]) {
        crate::drm::cursor::lemma_one_pixel_changes_id(p@, q@, a.width, i);
    }
}

/// Whether the plane shows a cursor that is taken: it was read, it is visible, it has pixels,
/// and no more of them than a square of 256 by 256.
pub open spec fn taken(ret: i32, info: CursorInfo) -> bool {
    &&& ret == 0
    &&& info.visible != 0
    &&& info.has_pixels
    &&& 1 <= info.width
    &&& 1 <= info.height
    &&& info.width * info.height <= 256 * 256
}

/// The number of pixels to read is width times height of a cursor that is taken, and there is
/// none for any other.
pub proof fn law_pixels_to_read(ret: i32, info: &CursorInfo, r: Option<usize>)
    requires
        call_ensures(cursor_pixel_count, (ret, info), r),
    ensures
        r is Some <==> taken(ret, *info),
        r matches Some(n) ==> n == info.width * info.height,
{
}

/// A cursor that is taken is the one that is remembered, unless the one before has the same id;
/// then that one stays. Anything else that the plane reports changes nothing.
pub proof fn law_cursor_is_remembered(
    capturer: &Capturer,
    st: &mut DrmState,
    ret: i32,
    info: &CursorInfo,
    pixels: &[u32],
    next: DrmCursor,
    id: Option<u64>,
    whole: Option<DrmCursor>,
)
    requires
        call_ensures(Capturer::update_cursor, (capturer, st, ret, info, pixels), ()),
        call_ensures(decode_cursor, (info, pixels), next),
        call_ensures(drm_cursor_id, (&*final(st),), id),
        call_ensures(drm_cursor, (&*final(st),), whole),
    ensures
        taken(ret, *info) ==> id == Some(next.id),
        taken(ret, *info) && (old(st).cursor matches Some(c) ==> c.id != next.id) ==> (
        whole matches Some(w) && {
            &&& w.id == next.id
            &&& w.width == next.width
            &&& w.height == next.height
            &&& w.hotx == next.hotx
            &&& w.hoty == next.hoty
            &&& w.colors@ == next.colors@
        }),
        !taken(ret, *info) || (old(st).cursor matches Some(c) && c.id == next.id) ==> match (
            whole,
            old(st).cursor,
        ) {
            (Some(w), Some(c)) => {
                &&& w.id == c.id
                &&& w.width == c.width
                &&& w.height == c.height
                &&& w.hotx == c.hotx
                &&& w.hoty == c.hoty
                &&& w.colors@ == c.colors@
            },
            (None, None) => true,
            _ => false,
        },
        final(st).probe == old(st).probe,
        final(st)@.bad_crtcs == old(st)@.bad_crtcs,
        final(st)@.last_topology == old(st)@.last_topology,
{
}

/// What is asked for of the remembered cursor is what is remembered, and its id is its id.
pub proof fn law_remembered_cursor(st: &DrmState, id: Option<u64>, whole: Option<DrmCursor>)
    requires
        call_ensures(drm_cursor_id, (st,), id),
        call_ensures(drm_cursor, (st,), whole),
    ensures
        id is Some <==> st.cursor is Some,
        whole is Some <==> st.cursor is Some,
        st.cursor matches Some(c) ==> id == Some(c.id) && (whole matches Some(w) && w.id == c.id
            && w.width == c.width && w.height == c.height && w.hotx == c.hotx && w.hoty == c.hoty
            && w.colors@ == c.colors@),
{
}

} // verus!
