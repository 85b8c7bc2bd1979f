//! Text helpers: segments between dashes, decimal numbers, and the two std conversions
//! that connector names go through.

use vstd::prelude::*;
use vstd::string::*;

verus! {

/// The lowercase equivalent of a text, as `str::to_lowercase` gives it.
pub uninterp spec fn lowercase_of(s: Seq<char>) -> Seq<char>;

/// What `String::from_utf8_lossy` makes of some bytes.
pub uninterp spec fn utf8_lossy_of(bytes: Seq<u8>) -> Seq<char>;

/// `'A'..='Z'` become `'a'..='z'`, every other character stays.
pub open spec fn ascii_lower_char(c: char) -> char {
    if 'A' <= c && c <= 'Z' {
        ((c as u32) + 32) as char
    } else {
        c
    }
}

/// `ascii_lower_char` on every character.
pub open spec fn ascii_lower(s: Seq<char>) -> Seq<char> {
    Seq::new(s.len(), |i: int| ascii_lower_char(s[i]))
}

/// Calls `str::to_lowercase`. The result is a function of the text alone. Of a text in
/// ASCII it is the text with its ASCII letters in lower case.
#[verifier::external_body]
pub(crate) fn to_lowercase(s: &str) -> (r: String)
    ensures
        r@ == lowercase_of(s@),
        vstd::utf8::is_ascii_chars(s@) ==> r@ == ascii_lower(s@),
{
    s.to_lowercase()
}

/// Calls `String::from_utf8_lossy`. The result is a function of the bytes alone. Of valid
/// UTF-8 it is the text that the bytes encode.
#[verifier::external_body]
pub(crate) fn from_utf8_lossy(bytes: &[u8]) -> (r: String)
    ensures
        r@ == utf8_lossy_of(bytes@),
        vstd::utf8::valid_utf8(bytes@) ==> r@ == vstd::utf8::decode_utf8(bytes@),
{
    String::from_utf8_lossy(bytes).to_string()
}

/// The position of the first dash, or the length if there is none.
pub open spec fn first_dash(s: Seq<char>) -> int
    decreases s.len(),
{
    if s.len() == 0 || s[0] == '-' {
        0
    } else {
        1 + first_dash(s.drop_first())
    }
}

/// The texts between the dashes, in order. A text with `n` dashes has `n + 1` segments,
/// some of which may be empty.
pub open spec fn segments(s: Seq<char>) -> Seq<Seq<char>>
    decreases s.len(),
    via segments_decreases
{
    let i = first_dash(s);
    if i >= s.len() {
        seq![s]
    } else {
        seq![s.take(i)] + segments(s.skip(i + 1))
    }
}

#[via_fn]
proof fn segments_decreases(s: Seq<char>) {
    lemma_first_dash(s);
}

/// `first_dash` is the least position that holds a dash.
pub proof fn lemma_first_dash(s: Seq<char>)
    ensures
        0 <= first_dash(s) <= s.len(),
        forall|j: int| 0 <= j < first_dash(s) ==> s[j] != '-',
        first_dash(s) < s.len() ==> s[first_dash(s)] == '-',
    decreases s.len(),
{
    if s.len() > 0 && s[0] != '-' {
        let t = s.drop_first();
        lemma_first_dash(t);
        assert forall|j: int| 0 <= j < first_dash(s) implies s[j] != '-' by {
            if j > 0 {
                assert(s[j] == t[j - 1]);
            }
        }
    }
}

/// The position is determined by what it separates.
pub proof fn lemma_first_dash_is(s: Seq<char>, i: int)
    requires
        0 <= i <= s.len(),
        forall|j: int| 0 <= j < i ==> s[j] != '-',
        i < s.len() ==> s[i] == '-',
    ensures
        first_dash(s) == i,
{
    lemma_first_dash(s);
    if first_dash(s) < i {
        assert(s[first_dash(s)] != '-');
    }
}

/// The stretch of `s` that a pair of positions delimits.
pub open spec fn stretch(s: Seq<char>, range: (usize, usize)) -> Seq<char> {
    s.subrange(range.0 as int, range.1 as int)
}

/// The character positions of the segments of a text.
pub(crate) fn segment_ranges(name: &str) -> (r: Vec<(usize, usize)>)
    ensures
        r@.len() == segments(name@).len(),
        forall|k: int|
            0 <= k < r@.len() ==> 0 <= (#[trigger] r@[k]).0 <= r@[k].1 <= name@.len() && stretch(
                name@,
                r@[k],
            ) == segments(name@)[k],
{
    let len: usize = name.unicode_len();
    let ghost s = name@;
    let mut out: Vec<(usize, usize)> = Vec::new();
    let mut start: usize = 0;
    let mut i: usize = 0;
    assert(s.skip(0) =~= s);
    while i < len
        invariant
            s == name@,
            len == s.len(),
            start <= i <= len,
            forall|j: int| start <= j < i ==> s[j] != '-',
            segments(s).len() == out@.len() + segments(s.skip(start as int)).len(),
            segments(s).skip(out@.len() as int) =~= segments(s.skip(start as int)),
            forall|k: int|
                0 <= k < out@.len() ==> 0 <= (#[trigger] out@[k]).0 <= out@[k].1 <= s.len()
                    && stretch(s, out@[k]) == segments(s)[k],
        decreases len - i,
    {
        if name.get_char(i) == '-' {
            proof {
                let rest = s.skip(start as int);
                lemma_first_dash_is(rest, i - start);
                assert(rest.take(i - start) =~= s.subrange(start as int, i as int));
                assert(rest.skip(i - start + 1) =~= s.skip(i + 1));
                assert(segments(rest) =~= seq![rest.take(i - start)] + segments(s.skip(i + 1)));
                assert(segments(s)[out@.len() as int] == segments(s).skip(out@.len() as int)[0]);
                assert(segments(s).skip(out@.len() as int + 1) =~= segments(rest).skip(1));
                assert(segments(rest).skip(1) =~= segments(s.skip(i + 1)));
            }
            out.push((start, i));
            start = i + 1;
        }
        i = i + 1;
    }
    proof {
        let rest = s.skip(start as int);
        lemma_first_dash_is(rest, rest.len() as int);
        assert(rest =~= s.subrange(start as int, len as int));
        assert(segments(s)[out@.len() as int] == segments(s).skip(out@.len() as int)[0]);
    }
    out.push((start, len));
    out
}

/// A digit as a text of one character.
pub open spec fn digit_text(d: int) -> Seq<char> {
    seq![((d + 48) as u8) as char]
}

/// The decimal digits of a number, most significant first, without leading zeros.
pub open spec fn decimal(n: nat) -> Seq<char>
    decreases n,
{
    if n < 10 {
        digit_text(n as int)
    } else {
        decimal(n / 10) + digit_text((n % 10) as int)
    }
}

/// A number with a minus sign in front of it where it is negative.
pub open spec fn signed_decimal(n: int) -> Seq<char> {
    if n < 0 {
        seq!['-'] + decimal((-n) as nat)
    } else {
        decimal(n as nat)
    }
}

fn digit_str(d: u64) -> (r: &'static str)
    requires
        d < 10,
    ensures
        r@ == digit_text(d as int),
{
    proof {
        reveal_strlit("0");
        reveal_strlit("1");
        reveal_strlit("2");
        reveal_strlit("3");
        reveal_strlit("4");
        reveal_strlit("5");
        reveal_strlit("6");
        reveal_strlit("7");
        reveal_strlit("8");
        reveal_strlit("9");
    }
    let r: &'static str = if d == 0 {
        "0"
    } else if d == 1 {
        "1"
    } else if d == 2 {
        "2"
    } else if d == 3 {
        "3"
    } else if d == 4 {
        "4"
    } else if d == 5 {
        "5"
    } else if d == 6 {
        "6"
    } else if d == 7 {
        "7"
    } else if d == 8 {
        "8"
    } else {
        "9"
    };
    assert(r@ =~= digit_text(d as int));
    r
}

/// Appends the decimal digits of `n`.
pub(crate) fn push_decimal(out: &mut String, n: u64)
    ensures
        final(out)@ == old(out)@ + decimal(n as nat),
    decreases n,
{
    if n >= 10 {
        push_decimal(out, n / 10);
    }
    out.append(digit_str(n % 10));
    proof {
        if n >= 10 {
            assert(out@ =~= old(out)@ + (decimal((n / 10) as nat) + digit_text((n % 10) as int)));
        }
    }
}

/// Appends `n` in decimal.
pub(crate) fn push_signed_decimal(out: &mut String, n: i64)
    requires
        n > i64::MIN,
    ensures
        final(out)@ == old(out)@ + signed_decimal(n as int),
{
    if n < 0 {
        proof {
            reveal_strlit("-");
        }
        out.append("-");
        push_decimal(out, (-n) as u64);
        assert(out@ =~= old(out)@ + (seq!['-'] + decimal((-n) as nat)));
    } else {
        push_decimal(out, n as u64);
    }
}

} // verus!
