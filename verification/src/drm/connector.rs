//! Connector names. The kernel says "HDMI-A-1" where a compositor may say "HDMI-1".

use vstd::prelude::*;
use vstd::string::*;

verus! {

/// The texts that hold something.
pub open spec fn non_empty(parts: Seq<Seq<char>>) -> Seq<Seq<char>> {
    parts.filter(|p: Seq<char>| p.len() > 0)
}

/// The segments of a name that hold something.
pub open spec fn named_segments(name: Seq<char>) -> Seq<Seq<char>> {
    non_empty(crate::text::segments(name))
}

/// The name as type and index: the first and the last segment, without what stands between
/// them (the "A" of "HDMI-A-1").
pub open spec fn collapsed(name: Seq<char>) -> Seq<char> {
    let parts = named_segments(name);
    if parts.len() == 0 {
        name
    } else if parts.len() == 1 {
        parts[0]
    } else {
        parts.first() + seq!['-'] + parts.last()
    }
}

/// The form of a name that names of one connector share, whatever their source.
pub open spec fn normalized(name: Seq<char>) -> Seq<char> {
    crate::text::lowercase_of(collapsed(name))
}

/// Type and index of a connector name.
pub fn collapse_connector(name: &str) -> (r: String)
    ensures
        r@ == collapsed(name@),
{
    let ranges = crate::text::segment_ranges(name);
    let ghost parts = crate::text::segments(name@);
    let ghost holds = |p: Seq<char>| p.len() > 0;
    let mut first: usize = 0;
    let mut last: usize = 0;
    let mut count: usize = 0;
    let mut i: usize = 0;
    assert(parts.take(0).filter(holds) =~= Seq::empty()) by {
        reveal(Seq::filter);
    }
    while i < ranges.len()
        invariant
            parts == crate::text::segments(name@),
            holds == (|p: Seq<char>| p.len() > 0),
            ranges@.len() == parts.len(),
            forall|k: int|
                0 <= k < ranges@.len() ==> 0 <= (#[trigger] ranges@[k]).0 <= ranges@[k].1
                    <= name@.len() && crate::text::stretch(name@, ranges@[k]) == parts[k],
            i <= ranges@.len(),
            count <= i,
            parts.take(i as int).filter(holds).len() == count,
            count > 0 ==> {
                &&& first < i && last < i
                &&& parts.take(i as int).filter(holds)[0] == parts[first as int]
                &&& parts.take(i as int).filter(holds).last() == parts[last as int]
            },
        decreases ranges@.len() - i,
    {
        proof {
            assert(parts.take(i + 1).drop_last() =~= parts.take(i as int));
            assert(parts.take(i + 1).last() == parts[i as int]);
            assert(crate::text::stretch(name@, ranges@[i as int]) == parts[i as int]);
            reveal(Seq::filter);
        }
        let (from, to): (usize, usize) = ranges[i];
        if from < to {
            if count == 0 {
                first = i;
            }
            last = i;
            count = count + 1;
        }
        i = i + 1;
    }
    assert(parts.take(i as int) =~= parts);
    if count == 0 {
        return name.to_owned();
    }
    let (from, to): (usize, usize) = ranges[first];
    let head: &str = name.substring_char(from, to);
    let mut out: String = head.to_owned();
    if count > 1 {
        let (from2, to2): (usize, usize) = ranges[last];
        proof {
            reveal_strlit("-");
            assert(crate::text::stretch(name@, ranges@[last as int]) == parts[last as int]);
        }
        out.append("-");
        out.append(name.substring_char(from2, to2));
        assert("-"@ =~= seq!['-']);
    }
    assert(crate::text::stretch(name@, ranges@[first as int]) == parts[first as int]);
    out
}

/// Brings a connector name into the form in which names of different sources compare equal:
/// type and index, in lower case.
pub fn normalize_connector(name: &str) -> (r: String)
    ensures
        r@ == normalized(name@),
        vstd::utf8::is_ascii_chars(name@) ==> r@ == crate::text::ascii_lower(collapsed(name@)),
{
    let short: String = collapse_connector(name);
    proof {
        if vstd::utf8::is_ascii_chars(name@) {
            lemma_collapsed_ascii(name@);
        }
    }
    crate::text::to_lowercase(short.as_str())
}

/// Every segment is a stretch of the text, and none holds a dash.
pub proof fn lemma_segments_inside(s: Seq<char>)
    ensures
        crate::text::segments(s).len() >= 1,
        forall|k: int, j: int|
            0 <= k < crate::text::segments(s).len() && 0 <= j < crate::text::segments(s)[k].len()
                ==> s.contains(#[trigger] crate::text::segments(s)[k][j])
                && crate::text::segments(s)[k][j] != '-',
    decreases s.len(),
{
    crate::text::lemma_first_dash(s);
    let i = crate::text::first_dash(s);
    let parts = crate::text::segments(s);
    if i >= s.len() {
        assert(parts =~= seq![s]);
    } else {
        let rest = s.skip(i + 1);
        lemma_segments_inside(rest);
        assert forall|k: int, j: int|
            0 <= k < parts.len() && 0 <= j < parts[k].len() implies s.contains(
            #[trigger] parts[k][j],
        ) && parts[k][j] != '-' by {
            if k == 0 {
                assert(parts[k][j] == s[j]);
            } else {
                assert(parts[k] == crate::text::segments(rest)[k - 1]);
                assert(rest.contains(crate::text::segments(rest)[k - 1][j]));
                let m = choose|m: int| 0 <= m < rest.len() && rest[m] == parts[k][j];
                assert(s[m + i + 1] == parts[k][j]);
            }
        }
    }
}

/// What is kept of a name in ASCII is in ASCII.
proof fn lemma_collapsed_ascii(name: Seq<char>)
    requires
        vstd::utf8::is_ascii_chars(name),
    ensures
        vstd::utf8::is_ascii_chars(collapsed(name)),
{
    lemma_named_segments(name);
    lemma_segments_inside(name);
    let parts = named_segments(name);
    let c = collapsed(name);
    assert forall|i: int| 0 <= i < c.len() implies '\0' <= #[trigger] c[i] <= '\u{7f}' by {
        if parts.len() >= 1 {
            let at = if parts.len() == 1 || i < parts.first().len() {
                (0int, i)
            } else {
                (parts.len() - 1, i - parts.first().len() - 1)
            };
            if parts.len() > 1 && i == parts.first().len() {
                assert(c[i] == '-');
            } else {
                assert(c[i] == parts[at.0][at.1]);
                let k = choose|k: int|
                    0 <= k < crate::text::segments(name).len() && crate::text::segments(name)[k]
                        == parts[at.0];
                assert(name.contains(crate::text::segments(name)[k][at.1]));
            }
        }
    }
}

/// The segments that hold something are among the segments.
proof fn lemma_named_segments(name: Seq<char>)
    ensures
        forall|i: int|
            0 <= i < named_segments(name).len() ==> (#[trigger] named_segments(name)[i]).len() > 0
                && crate::text::segments(name).contains(named_segments(name)[i]),
{
    crate::common::lemma_filter_members(
        crate::text::segments(name),
        |p: Seq<char>| p.len() > 0,
    );
}

/// A text without dashes is its only segment.
pub proof fn lemma_one_segment(a: Seq<char>)
    requires
        !a.contains('-'),
    ensures
        crate::text::segments(a) == seq![a],
{
    assert forall|j: int| 0 <= j < a.len() implies a[j] != '-' by {
        assert(a.contains(a[j]));
    }
    crate::text::lemma_first_dash_is(a, a.len() as int);
}

/// A dash starts a new segment.
pub proof fn lemma_split_off(a: Seq<char>, b: Seq<char>)
    requires
        !a.contains('-'),
    ensures
        crate::text::segments(a + seq!['-'] + b) == seq![a] + crate::text::segments(b),
{
    let s = a + seq!['-'] + b;
    let i = a.len() as int;
    assert forall|j: int| 0 <= j < i implies s[j] != '-' by {
        assert(a.contains(a[j]));
    }
    crate::text::lemma_first_dash_is(s, i);
    assert(s.take(i) =~= a);
    assert(s.skip(i + 1) =~= b);
}

/// A name of type and index is its own collapsed form.
pub proof fn lemma_collapsed_pair(a: Seq<char>, b: Seq<char>)
    requires
        !a.contains('-'),
        !b.contains('-'),
        a.len() > 0,
        b.len() > 0,
    ensures
        collapsed(a + seq!['-'] + b) == a + seq!['-'] + b,
{
    lemma_split_off(a, b);
    lemma_one_segment(b);
    let holds = |p: Seq<char>| p.len() > 0;
    reveal_with_fuel(Seq::filter, 3);
    assert(seq![a] + seq![b] =~= seq![a, b]);
    assert(seq![a, b].drop_last() =~= seq![a]);
    assert(seq![a].drop_last() =~= Seq::empty());
    assert(seq![a, b].filter(holds) =~= seq![a, b]);
}

/// The sub-type between type and index does not matter: "HDMI-A-1" and "HDMI-1" have the
/// same normalized form.
pub proof fn lemma_subtype_is_dropped(kind: Seq<char>, sub: Seq<char>, index: Seq<char>)
    requires
        !kind.contains('-'),
        !index.contains('-'),
        kind.len() > 0,
        index.len() > 0,
    ensures
        collapsed(kind + seq!['-'] + (sub + seq!['-'] + index)) == collapsed(
            kind + seq!['-'] + index,
        ),
        normalized(kind + seq!['-'] + (sub + seq!['-'] + index)) == normalized(
            kind + seq!['-'] + index,
        ),
{
    let holds = |p: Seq<char>| p.len() > 0;
    lemma_collapsed_pair(kind, index);
    lemma_split_off(kind, sub + seq!['-'] + index);
    lemma_last_segment(sub, index);
    let tail = crate::text::segments(sub + seq!['-'] + index);
    let all = seq![kind] + tail;
    Seq::filter_distributes_over_add(seq![kind], tail, holds);
    assert(seq![kind].filter(holds) =~= seq![kind]) by {
        reveal_with_fuel(Seq::filter, 2);
        assert(seq![kind].drop_last() =~= Seq::empty());
    }
    assert(tail.filter(holds) =~= tail.drop_last().filter(holds).push(index)) by {
        reveal(Seq::filter);
    }
    let parts = all.filter(holds);
    assert(parts.first() == kind);
    assert(parts.last() == index);
}

/// What follows the last dash is the last segment.
proof fn lemma_last_segment(a: Seq<char>, b: Seq<char>)
    requires
        !b.contains('-'),
    ensures
        crate::text::segments(a + seq!['-'] + b).len() > 0,
        crate::text::segments(a + seq!['-'] + b).last() == b,
    decreases a.len(),
{
    let s = a + seq!['-'] + b;
    crate::text::lemma_first_dash(a);
    let i = crate::text::first_dash(a);
    if i >= a.len() {
        assert(!a.contains('-'));
        lemma_split_off(a, b);
        lemma_one_segment(b);
    } else {
        let head = a.take(i);
        let rest = a.skip(i + 1);
        assert(s =~= head + seq!['-'] + (rest + seq!['-'] + b));
        assert(!head.contains('-'));
        lemma_split_off(head, rest + seq!['-'] + b);
        lemma_last_segment(rest, b);
    }
}

/// Collapsing twice is collapsing once.
pub proof fn lemma_collapsed_idempotent(name: Seq<char>)
    ensures
        collapsed(collapsed(name)) == collapsed(name),
{
    let parts = named_segments(name);
    lemma_named_segments(name);
    lemma_segments_inside(name);
    assert forall|i: int| 0 <= i < parts.len() implies !(#[trigger] parts[i]).contains('-') by {
        let all = crate::text::segments(name);
        let k = choose|k: int| 0 <= k < all.len() && all[k] == parts[i];
        assert(all[k] == parts[i]);
        if parts[i].contains('-') {
            let j = choose|j: int| 0 <= j < all[k].len() && all[k][j] == '-';
            assert(all[k][j] != '-');
        }
    }
    if parts.len() == 1 {
        lemma_one_segment(parts[0]);
        reveal_with_fuel(Seq::filter, 2);
        assert(seq![parts[0]].drop_last() =~= Seq::empty());
        assert(named_segments(parts[0]) =~= seq![parts[0]]);
    } else if parts.len() > 1 {
        lemma_collapsed_pair(parts.first(), parts.last());
    }
}

/// Lowering the case of ASCII letters moves no dash.
proof fn lemma_lower_segments(s: Seq<char>)
    ensures
        crate::text::segments(crate::text::ascii_lower(s)).len() == crate::text::segments(s).len(),
        forall|k: int|
            0 <= k < crate::text::segments(s).len() ==> #[trigger] crate::text::segments(
                crate::text::ascii_lower(s),
            )[k] == crate::text::ascii_lower(crate::text::segments(s)[k]),
    decreases s.len(),
{
    let t = crate::text::ascii_lower(s);
    crate::text::lemma_first_dash(s);
    let i = crate::text::first_dash(s);
    crate::text::lemma_first_dash_is(t, i);
    if i >= s.len() {
        assert(crate::text::segments(t) =~= seq![t]);
    } else {
        lemma_lower_segments(s.skip(i + 1));
        assert(t.skip(i + 1) =~= crate::text::ascii_lower(s.skip(i + 1)));
        assert(t.take(i) =~= crate::text::ascii_lower(s.take(i)));
    }
}

/// Lowering the case of ASCII letters empties no segment.
proof fn lemma_lower_filter(a: Seq<Seq<char>>, b: Seq<Seq<char>>)
    requires
        a.len() == b.len(),
        forall|k: int| 0 <= k < a.len() ==> #[trigger] b[k] == crate::text::ascii_lower(a[k]),
    ensures
        non_empty(a).len() == non_empty(b).len(),
        forall|k: int|
            0 <= k < non_empty(a).len() ==> #[trigger] non_empty(b)[k] == crate::text::ascii_lower(
                non_empty(a)[k],
            ),
    decreases a.len(),
{
    reveal(Seq::filter);
    if a.len() > 0 {
        lemma_lower_filter(a.drop_last(), b.drop_last());
        assert(b.last() == crate::text::ascii_lower(a.last()));
    }
}

/// Names that differ only in the case of ASCII letters collapse to names that differ only in
/// it.
pub proof fn lemma_case_is_ignored(a: Seq<char>, b: Seq<char>)
    requires
        crate::text::ascii_lower(a) == crate::text::ascii_lower(b),
    ensures
        crate::text::ascii_lower(collapsed(a)) == crate::text::ascii_lower(collapsed(b)),
{
    lemma_lower_collapsed(a);
    lemma_lower_collapsed(b);
}

/// Collapsing and lowering ASCII letters can be done in either order.
proof fn lemma_lower_collapsed(name: Seq<char>)
    ensures
        crate::text::ascii_lower(collapsed(name)) == collapsed(crate::text::ascii_lower(name)),
{
    let low = crate::text::ascii_lower(name);
    lemma_lower_segments(name);
    lemma_lower_filter(crate::text::segments(name), crate::text::segments(low));
    let p = named_segments(name);
    let q = named_segments(low);
    if p.len() == 1 {
        assert(q[0] == crate::text::ascii_lower(p[0]));
    } else if p.len() > 1 {
        assert(q[0] == crate::text::ascii_lower(p[0]));
        assert(q[q.len() - 1] == crate::text::ascii_lower(p[p.len() - 1]));
        assert(crate::text::ascii_lower(collapsed(name)) =~= collapsed(low));
    }
}

} // verus!
