//! The hardware cursor: from the pixels of the cursor plane to a cursor with a hotspot.

use vstd::prelude::*;

verus! {

/// The start value of a cursor id.
pub const HASH_BASIS: u64 = 1469598103934665603;

/// What a cursor id is multiplied by after each value that is folded in.
pub const HASH_PRIME: u64 = 1099511628211;

/// The largest cursor that is decoded, in pixels.
pub const MAX_CURSOR_PIXELS: u64 = 65536;

/// The least alpha at which a pixel counts as part of the cursor's shape.
pub const OPAQUE_ALPHA: u8 = 128;

/// A hardware cursor.
#[derive(Debug)]
pub struct DrmCursor {
    /// A hash of the pixels and the width; changes when the shape changes.
    pub id: u64,
    pub width: i32,
    pub height: i32,
    pub hotx: i32,
    pub hoty: i32,
    /// RGBA8888.
    pub colors: Vec<u8>,
}

/// The contents of a cursor.
pub struct CursorView {
    pub id: u64,
    pub width: i32,
    pub height: i32,
    pub hotx: i32,
    pub hoty: i32,
    pub colors: Seq<u8>,
}

impl View for DrmCursor {
    type V = CursorView;

    open spec fn view(&self) -> CursorView {
        CursorView {
            id: self.id,
            width: self.width,
            height: self.height,
            hotx: self.hotx,
            hoty: self.hoty,
            colors: self.colors@,
        }
    }
}

impl Clone for DrmCursor {
    fn clone(&self) -> (r: DrmCursor)
        ensures
            r@ == self@,
    {
        let colors = self.colors.clone();
        assert(colors@ =~= self.colors@);
        DrmCursor {
            id: self.id,
            width: self.width,
            height: self.height,
            hotx: self.hotx,
            hoty: self.hoty,
            colors,
        }
    }
}

/// What the cursor plane reports besides its pixels.
#[derive(Clone, Copy, Debug)]
pub struct CursorInfo {
    pub visible: i32,
    /// Whether there is a pixel buffer at all.
    pub has_pixels: bool,
    pub width: u32,
    pub height: u32,
    pub hot_x: i32,
    pub hot_y: i32,
}

/// Whether the plane shows a cursor of a size that is decoded.
pub open spec fn usable(ret: int, info: CursorInfo) -> bool {
    &&& ret == 0
    &&& info.visible != 0
    &&& info.has_pixels
    &&& info.width > 0
    &&& info.height > 0
    &&& info.width * info.height <= MAX_CURSOR_PIXELS
}

/// The number of pixels of the cursor, if it is usable.
pub fn cursor_pixel_count(ret: i32, info: &CursorInfo) -> (r: Option<usize>)
    ensures
        r is Some <==> usable(ret as int, *info),
        r matches Some(n) ==> n == info.width * info.height,
{
    if ret == 0 && info.visible != 0 && info.has_pixels && info.width > 0 && info.height > 0 {
        assert(info.width * info.height <= 0xffff_ffff * 0xffff_ffff) by (nonlinear_arith)
            requires
                info.width <= 0xffff_ffff,
                info.height <= 0xffff_ffff,
        ;
        assert(info.width * info.height >= 0) by (nonlinear_arith);
        let n: u64 = info.width as u64 * info.height as u64;
        if n <= MAX_CURSOR_PIXELS {
            return Some(n as usize);
        }
    }
    None
}

/// The channels of an ARGB pixel in the order red, green, blue, alpha.
pub open spec fn channel(p: u32, k: int) -> u8 {
    if k == 0 {
        ((p >> 16) & 0xff) as u8
    } else if k == 1 {
        ((p >> 8) & 0xff) as u8
    } else if k == 2 {
        (p & 0xff) as u8
    } else {
        ((p >> 24) & 0xff) as u8
    }
}

/// The pixels as RGBA bytes.
pub open spec fn rgba(pixels: Seq<u32>) -> Seq<u8> {
    Seq::new(pixels.len() * 4, |i: int| channel(pixels[i / 4], i % 4))
}

/// A value folded into a hash.
pub open spec fn folded(hash: u64, value: u32) -> u64 {
    (hash ^ (value as u64)).wrapping_mul(HASH_PRIME)
}

/// The pixels folded one after the other into a 64-bit hash.
pub open spec fn pixel_hash(pixels: Seq<u32>) -> u64
    decreases pixels.len(),
{
    if pixels.len() == 0 {
        HASH_BASIS
    } else {
        folded(pixel_hash(pixels.drop_last()), pixels.last())
    }
}

/// The cursor id: the pixels, and after them the width. For one number of pixels the width
/// fixes the height.
pub open spec fn cursor_hash(pixels: Seq<u32>, width: u32) -> u64 {
    folded(pixel_hash(pixels), width)
}

/// Whether a pixel belongs to the cursor's shape.
pub open spec fn opaque(p: u32) -> bool {
    channel(p, 3) >= OPAQUE_ALPHA
}

/// A box of pixel columns and rows, both ends included.
#[derive(Clone, Copy, Debug)]
pub struct Bounds {
    pub minx: i32,
    pub miny: i32,
    pub maxx: i32,
    pub maxy: i32,
}

/// Among the first `n` pixels, `i` is one of the shape.
pub open spec fn in_shape(pixels: Seq<u32>, n: int, i: int) -> bool {
    0 <= i < n && opaque(pixels[i])
}

/// `b` is the smallest box around the opaque ones of the first `n` pixels, in rows of `w`.
pub open spec fn tight_upto(pixels: Seq<u32>, n: int, w: int, b: Bounds) -> bool {
    &&& forall|i: int| #[trigger]
        in_shape(pixels, n, i) ==> b.minx <= i % w <= b.maxx && b.miny <= i / w <= b.maxy
    &&& exists|i: int| #[trigger] in_shape(pixels, n, i) && i % w == b.minx
    &&& exists|i: int| #[trigger] in_shape(pixels, n, i) && i % w == b.maxx
    &&& exists|i: int| #[trigger] in_shape(pixels, n, i) && i / w == b.miny
    &&& exists|i: int| #[trigger] in_shape(pixels, n, i) && i / w == b.maxy
}

/// `b` is the smallest box around the opaque pixels.
pub open spec fn tight(pixels: Seq<u32>, w: int, b: Bounds) -> bool {
    tight_upto(pixels, pixels.len() as int, w, b)
}

/// The smallest box around the opaque pixels, if there is any.
pub open spec fn opaque_bounds(pixels: Seq<u32>, w: int) -> Option<Bounds> {
    if exists|b: Bounds| tight(pixels, w, b) {
        Some(choose|b: Bounds| tight(pixels, w, b))
    } else {
        None
    }
}

/// There is only one smallest box.
pub proof fn lemma_tight_unique(pixels: Seq<u32>, w: int, a: Bounds, b: Bounds)
    requires
        tight(pixels, w, a),
        tight(pixels, w, b),
    ensures
        a == b,
        opaque_bounds(pixels, w) == Some(a),
{
    let n = pixels.len() as int;
    let c = choose|c: Bounds| tight(pixels, w, c);
    assert forall|p: Bounds, q: Bounds|
        #![trigger tight(pixels, w, p), tight(pixels, w, q)]
        tight(pixels, w, p) && tight(pixels, w, q) implies p == q by {
        let i1 = choose|i: int| #[trigger] in_shape(pixels, n, i) && i % w == p.minx;
        let i2 = choose|i: int| #[trigger] in_shape(pixels, n, i) && i % w == p.maxx;
        let i3 = choose|i: int| #[trigger] in_shape(pixels, n, i) && i / w == p.miny;
        let i4 = choose|i: int| #[trigger] in_shape(pixels, n, i) && i / w == p.maxy;
        let j1 = choose|i: int| #[trigger] in_shape(pixels, n, i) && i % w == q.minx;
        let j2 = choose|i: int| #[trigger] in_shape(pixels, n, i) && i % w == q.maxx;
        let j3 = choose|i: int| #[trigger] in_shape(pixels, n, i) && i / w == q.miny;
        let j4 = choose|i: int| #[trigger] in_shape(pixels, n, i) && i / w == q.maxy;
        assert(p.minx == q.minx && p.maxx == q.maxx && p.miny == q.miny && p.maxy == q.maxy);
    }
    assert(tight(pixels, w, c));
}

/// A picture without opaque pixels has no box.
pub proof fn lemma_no_bounds(pixels: Seq<u32>, w: int)
    requires
        forall|i: int| 0 <= i < pixels.len() ==> !opaque(#[trigger] pixels[i]),
    ensures
        opaque_bounds(pixels, w) is None,
{
    assert forall|b: Bounds| !tight(pixels, w, b) by {
        if tight(pixels, w, b) {
            let i = choose|i: int| #[trigger] in_shape(pixels, pixels.len() as int, i) && i % w
                == b.minx;
            assert(opaque(pixels[i]));
        }
    }
}

/// The hotspot of a cursor. A reported one is taken as it is. Where none is reported, a
/// shape more than twice as high as wide (a text caret) has it in its middle, any other
/// shape in its upper left corner, and an empty one at the origin.
pub open spec fn hotspot(hot_x: i32, hot_y: i32, shape: Option<Bounds>) -> (i32, i32) {
    if hot_x != 0 || hot_y != 0 {
        (hot_x, hot_y)
    } else {
        match shape {
            Some(b) => if b.maxy - b.miny + 1 > (b.maxx - b.minx + 1) * 2 {
                (((b.minx + b.maxx) / 2) as i32, ((b.miny + b.maxy) / 2) as i32)
            } else {
                (b.minx, b.miny)
            },
            None => (0, 0),
        }
    }
}

/// The cursor that a usable plane shows.
pub open spec fn decoded(info: CursorInfo, pixels: Seq<u32>) -> CursorView {
    let hot = hotspot(info.hot_x, info.hot_y, opaque_bounds(pixels, info.width as int));
    CursorView {
        id: cursor_hash(pixels, info.width),
        width: info.width as i32,
        height: info.height as i32,
        hotx: hot.0,
        hoty: hot.1,
        colors: rgba(pixels),
    }
}

/// Adding a pixel that is not of the shape leaves the box as it is.
proof fn lemma_tight_skip(pixels: Seq<u32>, n: int, w: int, b: Bounds)
    requires
        0 <= n < pixels.len(),
        tight_upto(pixels, n, w, b),
        !opaque(pixels[n]),
    ensures
        tight_upto(pixels, n + 1, w, b),
{
    lemma_shape_grows(pixels, n, w, b);
    assert forall|i: int| #[trigger] in_shape(pixels, n + 1, i) implies b.minx <= i % w <= b.maxx
        && b.miny <= i / w <= b.maxy by {
        assert(in_shape(pixels, n, i));
    }
}

/// The witnesses of a box stay witnesses when more pixels are looked at.
proof fn lemma_shape_grows(pixels: Seq<u32>, n: int, w: int, b: Bounds)
    requires
        0 <= n < pixels.len(),
        tight_upto(pixels, n, w, b),
    ensures
        exists|i: int| #[trigger] in_shape(pixels, n + 1, i) && i % w == b.minx,
        exists|i: int| #[trigger] in_shape(pixels, n + 1, i) && i % w == b.maxx,
        exists|i: int| #[trigger] in_shape(pixels, n + 1, i) && i / w == b.miny,
        exists|i: int| #[trigger] in_shape(pixels, n + 1, i) && i / w == b.maxy,
{
    let i1 = choose|i: int| #[trigger] in_shape(pixels, n, i) && i % w == b.minx;
    let i2 = choose|i: int| #[trigger] in_shape(pixels, n, i) && i % w == b.maxx;
    let i3 = choose|i: int| #[trigger] in_shape(pixels, n, i) && i / w == b.miny;
    let i4 = choose|i: int| #[trigger] in_shape(pixels, n, i) && i / w == b.maxy;
    assert(in_shape(pixels, n + 1, i1));
    assert(in_shape(pixels, n + 1, i2));
    assert(in_shape(pixels, n + 1, i3));
    assert(in_shape(pixels, n + 1, i4));
}

/// Adding a pixel of the shape widens the box just enough.
proof fn lemma_tight_extend(pixels: Seq<u32>, n: int, w: int, b: Bounds, c: Bounds)
    requires
        0 <= n < pixels.len(),
        opaque(pixels[n]),
        tight_upto(pixels, n, w, b) || forall|i: int| !in_shape(pixels, n, i),
        tight_upto(pixels, n, w, b) ==> {
            &&& c.minx == if n % w < b.minx {
                n % w
            } else {
                b.minx as int
            }
            &&& c.maxx == if n % w > b.maxx {
                n % w
            } else {
                b.maxx as int
            }
            &&& c.miny == if n / w < b.miny {
                n / w
            } else {
                b.miny as int
            }
            &&& c.maxy == if n / w > b.maxy {
                n / w
            } else {
                b.maxy as int
            }
        },
        !tight_upto(pixels, n, w, b) ==> {
            &&& c.minx == n % w
            &&& c.maxx == n % w
            &&& c.miny == n / w
            &&& c.maxy == n / w
        },
    ensures
        tight_upto(pixels, n + 1, w, c),
{
    assert(in_shape(pixels, n + 1, n));
    if tight_upto(pixels, n, w, b) {
        lemma_shape_grows(pixels, n, w, b);
        assert forall|i: int| #[trigger] in_shape(pixels, n + 1, i) implies c.minx <= i % w
            <= c.maxx && c.miny <= i / w <= c.maxy by {
            if i < n {
                assert(in_shape(pixels, n, i));
            }
        }
    } else {
        assert forall|i: int| #[trigger] in_shape(pixels, n + 1, i) implies i == n by {
            assert(!in_shape(pixels, n, i));
        }
    }
}

/// The box around the opaque pixels of a picture in rows of `w`.
fn shape_bounds(pixels: &[u32], w: i32, h: i32) -> (r: Option<Bounds>)
    requires
        w > 0,
        h > 0,
        pixels@.len() == w * h,
        pixels@.len() <= MAX_CURSOR_PIXELS,
    ensures
        r == opaque_bounds(pixels@, w as int),
{
    let len: usize = pixels.len();
    let mut b = Bounds { minx: w, miny: h, maxx: -1, maxy: -1 };
    let mut i: usize = 0;
    proof {
        assert(w <= w * h && h <= w * h) by (nonlinear_arith)
            requires
                w > 0,
                h > 0,
        ;
    }
    while i < len
        invariant
            len == pixels@.len(),
            len == w * h,
            len <= MAX_CURSOR_PIXELS,
            0 < w <= len,
            0 < h <= len,
            0 <= i <= len,
            -1 <= b.minx <= len,
            -1 <= b.maxx <= len,
            -1 <= b.miny <= len,
            -1 <= b.maxy <= len,
            b.maxx >= b.minx && b.maxy >= b.miny ==> tight_upto(pixels@, i as int, w as int, b),
            !(b.maxx >= b.minx && b.maxy >= b.miny) ==> {
                &&& b.minx == w && b.miny == h && b.maxx == -1 && b.maxy == -1
                &&& forall|k: int| !in_shape(pixels@, i as int, k)
            },
        decreases len - i,
    {
        let p: u32 = pixels[i];
        let a: u8 = ((p >> 24) & 0xff) as u8;
        let ghost before = b;
        if a >= OPAQUE_ALPHA {
            let x: i32 = (i as i32) % w;
            let y: i32 = (i as i32) / w;
            proof {
                lemma_cell(i as int, w as int, h as int);
            }
            if x < b.minx {
                b.minx = x;
            }
            if x > b.maxx {
                b.maxx = x;
            }
            if y < b.miny {
                b.miny = y;
            }
            if y > b.maxy {
                b.maxy = y;
            }
            proof {
                if tight_upto(pixels@, i as int, w as int, before) {
                    let k = choose|k: int| #[trigger] in_shape(pixels@, i as int, k) && k % (w as int)
                        == before.minx;
                }
                lemma_tight_extend(pixels@, i as int, w as int, before, b);
            }
        } else {
            proof {
                if b.maxx >= b.minx && b.maxy >= b.miny {
                    lemma_tight_skip(pixels@, i as int, w as int, b);
                } else {
                    let next = i + 1;
                    assert forall|k: int| !in_shape(pixels@, next, k) by {
                        assert(!in_shape(pixels@, i as int, k));
                    }
                }
            }
        }
        i = i + 1;
    }
    if b.maxx >= b.minx && b.maxy >= b.miny {
        proof {
            lemma_tight_unique(pixels@, w as int, b, b);
        }
        Some(b)
    } else {
        proof {
            assert forall|k: int| 0 <= k < pixels@.len() implies !opaque(#[trigger] pixels@[k]) by {
                assert(!in_shape(pixels@, len as int, k));
            }
            lemma_no_bounds(pixels@, w as int);
        }
        None
    }
}

/// A pixel lies in a column and a row of the picture.
proof fn lemma_cell(i: int, w: int, h: int)
    requires
        w > 0,
        0 <= i < w * h,
    ensures
        0 <= i % w < w,
        0 <= i / w < h,
{
    vstd::arithmetic::div_mod::lemma_fundamental_div_mod(i, w);
    vstd::arithmetic::div_mod::lemma_mod_bound(i, w);
    assert(0 <= i / w < h) by (nonlinear_arith)
        requires
            i == w * (i / w) + i % w,
            0 <= i % w < w,
            0 <= i < w * h,
            w > 0,
    ;
}

/// The id of a picture.
fn hash_cursor(pixels: &[u32], width: u32) -> (r: u64)
    ensures
        r == cursor_hash(pixels@, width),
{
    let len: usize = pixels.len();
    let mut hash: u64 = HASH_BASIS;
    let mut i: usize = 0;
    while i < len
        invariant
            len == pixels@.len(),
            i <= len,
            hash == pixel_hash(pixels@.take(i as int)),
        decreases len - i,
    {
        let p: u32 = pixels[i];
        hash = hash ^ (p as u64);
        hash = hash.wrapping_mul(HASH_PRIME);
        assert(pixels@.take(i + 1).drop_last() =~= pixels@.take(i as int));
        i = i + 1;
    }
    assert(pixels@.take(len as int) =~= pixels@);
    (hash ^ (width as u64)).wrapping_mul(HASH_PRIME)
}

/// The RGBA bytes of a picture.
fn rgba_bytes(pixels: &[u32]) -> (r: Vec<u8>)
    requires
        pixels@.len() <= MAX_CURSOR_PIXELS,
    ensures
        r@ == rgba(pixels@),
{
    let len: usize = pixels.len();
    let mut colors: Vec<u8> = Vec::with_capacity(len * 4);
    let mut i: usize = 0;
    while i < len
        invariant
            len == pixels@.len(),
            i <= len,
            colors@ =~= rgba(pixels@.take(i as int)),
        decreases len - i,
    {
        let p: u32 = pixels[i];
        let ghost before = colors@;
        colors.push(((p >> 16) & 0xff) as u8);
        colors.push(((p >> 8) & 0xff) as u8);
        colors.push((p & 0xff) as u8);
        colors.push(((p >> 24) & 0xff) as u8);
        proof {
            let next = pixels@.take(i + 1);
            assert forall|k: int| 0 <= k < next.len() * 4 implies colors@[k] == rgba(next)[k] by {
                if k < i * 4 {
                    assert(before[k] == rgba(pixels@.take(i as int))[k]);
                }
            }
        }
        i = i + 1;
    }
    assert(pixels@.take(len as int) =~= pixels@);
    colors
}

/// Decodes the cursor that a usable plane shows.
pub fn decode_cursor(info: &CursorInfo, pixels: &[u32]) -> (r: DrmCursor)
    requires
        usable(0, *info),
        pixels@.len() == info.width * info.height,
    ensures
        r@ == decoded(*info, pixels@),
{
    proof {
        assert(info.width <= info.width * info.height && info.height <= info.width * info.height)
            by (nonlinear_arith)
            requires
                info.width > 0,
                info.height > 0,
        ;
    }
    let cw: i32 = info.width as i32;
    let ch: i32 = info.height as i32;
    let (hotx, hoty): (i32, i32) = if info.hot_x != 0 || info.hot_y != 0 {
        (info.hot_x, info.hot_y)
    } else {
        match shape_bounds(pixels, cw, ch) {
            Some(b) => {
                proof {
                    lemma_bounds_inside(pixels@, cw as int, ch as int, b);
                }
                let bw: i32 = b.maxx - b.minx + 1;
                let bh: i32 = b.maxy - b.miny + 1;
                if bh > bw * 2 {
                    ((b.minx + b.maxx) / 2, (b.miny + b.maxy) / 2)
                } else {
                    (b.minx, b.miny)
                }
            },
            None => (0, 0),
        }
    };
    DrmCursor {
        id: hash_cursor(pixels, info.width),
        width: cw,
        height: ch,
        hotx,
        hoty,
        colors: rgba_bytes(pixels),
    }
}

/// The box around the shape lies inside the picture.
pub proof fn lemma_bounds_inside(pixels: Seq<u32>, w: int, h: int, b: Bounds)
    requires
        w > 0,
        pixels.len() == w * h,
        opaque_bounds(pixels, w) == Some(b),
    ensures
        tight(pixels, w, b),
        0 <= b.minx <= b.maxx < w,
        0 <= b.miny <= b.maxy < h,
{
    let n = pixels.len() as int;
    let i1 = choose|i: int| #[trigger] in_shape(pixels, n, i) && i % w == b.minx;
    let i2 = choose|i: int| #[trigger] in_shape(pixels, n, i) && i % w == b.maxx;
    let i3 = choose|i: int| #[trigger] in_shape(pixels, n, i) && i / w == b.miny;
    let i4 = choose|i: int| #[trigger] in_shape(pixels, n, i) && i / w == b.maxy;
    lemma_cell(i1, w, h);
    lemma_cell(i2, w, h);
    lemma_cell(i3, w, h);
    lemma_cell(i4, w, h);
}

/// Where the plane reports no hotspot, the one that is inferred lies inside the picture.
pub proof fn lemma_inferred_hotspot_inside(info: CursorInfo, pixels: Seq<u32>)
    requires
        usable(0, info),
        pixels.len() == info.width * info.height,
        info.hot_x == 0,
        info.hot_y == 0,
    ensures
        0 <= decoded(info, pixels).hotx < decoded(info, pixels).width,
        0 <= decoded(info, pixels).hoty < decoded(info, pixels).height,
{
    let w = info.width as int;
    let h = info.height as int;
    assert(w <= w * h && h <= w * h) by (nonlinear_arith)
        requires
            w > 0,
            h > 0,
    ;
    match opaque_bounds(pixels, w) {
        Some(b) => {
            lemma_bounds_inside(pixels, w, h, b);
        },
        None => {},
    }
}

/// A decoded cursor has four bytes per pixel.
pub proof fn lemma_decoded_size(info: CursorInfo, pixels: Seq<u32>)
    requires
        usable(0, info),
        pixels.len() == info.width * info.height,
    ensures
        decoded(info, pixels).colors.len() == decoded(info, pixels).width * decoded(
            info,
            pixels,
        ).height * 4,
{
    assert(info.width <= info.width * info.height && info.height <= info.width * info.height)
        by (nonlinear_arith)
        requires
            info.width > 0,
            info.height > 0,
    ;
}

/// The colours of a pixel keep all of it.
pub proof fn lemma_channels_lossless(p: u32)
    ensures
        channel(p, 3) as u32 * 0x100_0000 + channel(p, 0) as u32 * 0x1_0000 + channel(p, 1) as u32
            * 0x100 + channel(p, 2) as u32 == p,
{
    assert((((p >> 24) & 0xff) as u8) as u32 * 0x100_0000 + (((p >> 16) & 0xff) as u8) as u32
        * 0x1_0000 + (((p >> 8) & 0xff) as u8) as u32 * 0x100 + ((p & 0xff) as u8) as u32 == p)
        by (bit_vector);
}

/// Numbers below the modulus whose products with an invertible factor leave the same
/// remainder are the same.
proof fn lemma_invertible_factor(
    a: int,
    b: int,
    factor: int,
    inverse: int,
    excess: int,
    m: int,
    ka: int,
    kb: int,
    rest: int,
)
    requires
        a * factor == m * ka + rest,
        b * factor == m * kb + rest,
        factor * inverse == excess * m + 1,
        0 <= a < m,
        0 <= b < m,
    ensures
        a == b,
{
    let d = a - b;
    let k = ka - kb;
    let t = k * inverse - d * excess;
    assert(d * factor == m * k) by (nonlinear_arith)
        requires
            a * factor == m * ka + rest,
            b * factor == m * kb + rest,
            d == a - b,
            k == ka - kb,
    ;
    assert(d * (factor * inverse) == m * (k * inverse)) by (nonlinear_arith)
        requires
            d * factor == m * k,
    ;
    assert(d * (excess * m + 1) == m * (d * excess) + d) by (nonlinear_arith);
    assert(m * (k * inverse) - m * (d * excess) == m * t) by (nonlinear_arith)
        requires
            t == k * inverse - d * excess,
    ;
    assert(t == 0) by (nonlinear_arith)
        requires
            d == m * t,
            -m < d < m,
    ;
    assert(m * t == 0) by (nonlinear_arith)
        requires
            t == 0,
    ;
}

/// A step of the hash loses nothing of the state before it: the prime is odd, so it has an
/// inverse modulo 2^64.
proof fn lemma_hash_step_injective(a: u64, b: u64)
    requires
        a.wrapping_mul(HASH_PRIME) == b.wrapping_mul(HASH_PRIME),
    ensures
        a == b,
{
    let m: int = 0x1_0000_0000_0000_0000;
    let x = a as int * HASH_PRIME as int;
    let y = b as int * HASH_PRIME as int;
    vstd::arithmetic::div_mod::lemma_fundamental_div_mod(x, m);
    vstd::arithmetic::div_mod::lemma_fundamental_div_mod(y, m);
    lemma_invertible_factor(
        a as int,
        b as int,
        HASH_PRIME as int,
        14886173955864302971,
        887285111055,
        m,
        x / m,
        y / m,
        x % m,
    );
}

/// Hashes that differ still differ after the same value was folded in.
proof fn lemma_fold_keeps_hashes_apart(a: u64, b: u64, value: u32)
    requires
        a != b,
    ensures
        folded(a, value) != folded(b, value),
{
    let x = value as u64;
    assert(a != b ==> a ^ x != b ^ x) by (bit_vector);
    if folded(a, value) == folded(b, value) {
        lemma_hash_step_injective(a ^ x, b ^ x);
    }
}

/// Different values folded into one hash give different hashes.
proof fn lemma_fold_keeps_values_apart(hash: u64, v: u32, w: u32)
    requires
        v != w,
    ensures
        folded(hash, v) != folded(hash, w),
{
    let x = v as u64;
    let y = w as u64;
    assert(x != y ==> hash ^ x != hash ^ y) by (bit_vector);
    if folded(hash, v) == folded(hash, w) {
        lemma_hash_step_injective(hash ^ x, hash ^ y);
    }
}

/// Pictures that differ in exactly one pixel have different hashes.
proof fn lemma_one_pixel_changes_hash(p: Seq<u32>, q: Seq<u32>, i: int)
    requires
        p.len() == q.len(),
        0 <= i < p.len(),
        p[i] != q[i],
        forall|j: int| 0 <= j < p.len() && j != i ==> p[j] == q[j],
    ensures
        pixel_hash(p) != pixel_hash(q),
    decreases p.len(),
{
    let a = p.drop_last();
    let b = q.drop_last();
    if i == p.len() - 1 {
        assert(a =~= b);
        lemma_fold_keeps_values_apart(pixel_hash(a), p.last(), q.last());
    } else {
        assert forall|j: int| 0 <= j < a.len() && j != i implies a[j] == b[j] by {
            assert(p[j] == q[j]);
        }
        assert(a[i] == p[i] && b[i] == q[i]);
        lemma_one_pixel_changes_hash(a, b, i);
        assert(p[p.len() - 1] == q[q.len() - 1]);
        lemma_fold_keeps_hashes_apart(pixel_hash(a), pixel_hash(b), p.last());
    }
}

/// Pictures of one width that differ in exactly one pixel have different ids.
pub proof fn lemma_one_pixel_changes_id(p: Seq<u32>, q: Seq<u32>, width: u32, i: int)
    requires
        p.len() == q.len(),
        0 <= i < p.len(),
        p[i] != q[i],
        forall|j: int| 0 <= j < p.len() && j != i ==> p[j] == q[j],
    ensures
        cursor_hash(p, width) != cursor_hash(q, width),
{
    lemma_one_pixel_changes_hash(p, q, i);
    lemma_fold_keeps_hashes_apart(pixel_hash(p), pixel_hash(q), width);
}

/// The same pixels in rows of another width have another id.
pub proof fn lemma_width_changes_id(p: Seq<u32>, w1: u32, w2: u32)
    requires
        w1 != w2,
    ensures
        cursor_hash(p, w1) != cursor_hash(p, w2),
{
    lemma_fold_keeps_values_apart(pixel_hash(p), w1, w2);
}

} // verus!
