//! Tight packing of a scanout whose rows may be padded.

use vstd::prelude::*;

verus! {

/// Bytes of one pixel (BGRA).
pub const BYTES_PER_PIXEL: usize = 4;

/// How many bytes a packed picture takes.
pub open spec fn packed_len(w: nat, h: nat) -> nat {
    w * 4 * h
}

/// The least number of source bytes that hold `h` rows of `w` pixels, `stride` bytes apart.
/// The last row needs no padding behind it.
pub open spec fn source_len(w: nat, h: nat, stride: nat) -> nat {
    if h == 0 {
        0
    } else {
        ((h - 1) * stride + w * 4) as nat
    }
}

/// The picture without the padding: byte `i` is byte `i % (w * 4)` of row `i / (w * 4)`.
pub open spec fn packed(data: Seq<u8>, w: nat, h: nat, stride: nat) -> Seq<u8> {
    Seq::new(
        packed_len(w, h),
        |i: int| data[(i / (w * 4) as int) * stride + i % ((w * 4) as int)],
    )
}

proof fn lemma_row_prefix(data: Seq<u8>, w: nat, h: nat, stride: nat, y: nat)
    requires
        w > 0,
        y < h,
        source_len(w, h, stride) <= data.len(),
    ensures
        y * stride + w * 4 <= source_len(w, h, stride),
        w * 4 * y + w * 4 == w * 4 * (y + 1),
        w * 4 * (y + 1) <= packed_len(w, h),
        packed(data, w, (y + 1) as nat, stride) =~= packed(data, w, y, stride) + data.subrange(
            (y * stride) as int,
            (y * stride + w * 4) as int,
        ),
{
    let row = (w * 4) as int;
    assert(y * stride <= (h - 1) * stride) by (nonlinear_arith)
        requires
            y <= h - 1,
            stride >= 0,
    ;
    assert(row * y + row == row * (y + 1)) by (nonlinear_arith);
    assert(row * (y + 1) <= row * h) by (nonlinear_arith)
        requires
            y + 1 <= h,
            row >= 0,
    ;
    assert(y * stride >= 0) by (nonlinear_arith)
        requires
            y >= 0,
            stride >= 0,
    ;
    assert(row * y >= 0) by (nonlinear_arith)
        requires
            y >= 0,
            row >= 0,
    ;
    let a = packed(data, w, (y + 1) as nat, stride);
    let b = packed(data, w, y, stride) + data.subrange((y * stride) as int, y * stride + row);
    assert(a.len() == b.len());
    assert forall|i: int| 0 <= i < a.len() implies a[i] == b[i] by {
        if i >= row * y {
            let k = i - row * y;
            assert(row * y == y * row) by (nonlinear_arith);
            vstd::arithmetic::div_mod::lemma_fundamental_div_mod_converse(i, row, y as int, k);
            assert(b[i] == data[y * stride + k]);
        }
    }
}

/// Fills `buf` with the picture in `data`, tightly packed. What `buf` has allocated is kept.
pub fn pack_rows(buf: &mut Vec<u8>, data: &[u8], w: usize, h: usize, stride: usize)
    requires
        w > 0,
        packed_len(w as nat, h as nat) <= usize::MAX,
        source_len(w as nat, h as nat, stride as nat) <= data@.len(),
    ensures
        final(buf)@ == packed(data@, w as nat, h as nat, stride as nat),
{
    buf.clear();
    if h == 0 {
        assert(buf@ =~= packed(data@, w as nat, h as nat, stride as nat)) by (nonlinear_arith)
            requires
                h == 0,
                buf@.len() == 0,
        ;
        return ;
    }
    proof {
        lemma_row_prefix(data@, w as nat, h as nat, stride as nat, 0);
    }
    let available: usize = data.len();
    let row: usize = w * BYTES_PER_PIXEL;
    let mut y: usize = 0;
    assert(buf@ =~= packed(data@, w as nat, 0, stride as nat)) by {
        assert(w * 4 * 0 == 0) by (nonlinear_arith);
    }
    while y < h
        invariant
            y <= h,
            w > 0,
            row == w * 4,
            available == data@.len(),
            source_len(w as nat, h as nat, stride as nat) <= data@.len(),
            buf@ == packed(data@, w as nat, y as nat, stride as nat),
        decreases h - y,
    {
        proof {
            lemma_row_prefix(data@, w as nat, h as nat, stride as nat, y as nat);
        }
        let at: usize = y * stride;
        buf.extend_from_slice(&data[at..at + row]);
        assert(buf@ =~= packed(data@, w as nat, y as nat, stride as nat) + data@.subrange(
            at as int,
            at + row,
        ));
        y = y + 1;
    }
}

/// Byte `x` of row `y` of the picture is byte `x` of row `y` of the source.
pub proof fn lemma_packed_byte(data: Seq<u8>, w: nat, h: nat, stride: nat, x: int, y: int)
    requires
        0 <= x < w * 4,
        0 <= y < h,
    ensures
        0 <= w * 4 * y + x < packed_len(w, h),
        packed(data, w, h, stride)[w * 4 * y + x] == data[y * stride + x],
{
    let row = (w * 4) as int;
    assert(row * y + row <= row * h) by (nonlinear_arith)
        requires
            y + 1 <= h,
            row >= 0,
    ;
    assert(row * y >= 0) by (nonlinear_arith)
        requires
            y >= 0,
            row >= 0,
    ;
    assert(row * y == y * row) by (nonlinear_arith);
    vstd::arithmetic::div_mod::lemma_fundamental_div_mod_converse(row * y + x, row, y, x);
}

/// A picture without padding is packed already.
pub proof fn lemma_packed_tight(data: Seq<u8>, w: nat, h: nat)
    requires
        w > 0,
        packed_len(w, h) <= data.len(),
    ensures
        packed(data, w, h, w * 4) == data.take(packed_len(w, h) as int),
        h > 0 ==> source_len(w, h, w * 4) == packed_len(w, h),
{
    let row = (w * 4) as int;
    assert((h - 1) * row + row == row * h) by (nonlinear_arith);
    let a = packed(data, w, h, w * 4);
    let b = data.take(packed_len(w, h) as int);
    assert forall|i: int| 0 <= i < a.len() implies a[i] == b[i] by {
        vstd::arithmetic::div_mod::lemma_fundamental_div_mod(i, row);
        assert((i / row) * row == row * (i / row)) by (nonlinear_arith);
    }
    assert(a =~= b);
}

} // verus!
