//! Laws of connector names, as the backend compares them.

use crate::common::Scale;
use crate::drm::connector::{collapse_connector, normalize_connector};
use crate::drm::display::{geometry_of, logical_geometry_for, match_names, Geometry};
use crate::wayland::WaylandDisplayInfo;
use vstd::prelude::*;
use vstd::string::*;

verus! {

/// A type and an index around anything else keep only type and index: "HDMI-A-1" and "HDMI-1"
/// collapse to "HDMI-1".
pub proof fn law_type_and_index_are_kept(
    name: &str,
    kind: Seq<char>,
    between: Seq<char>,
    index: Seq<char>,
    r: String,
)
    requires
        call_ensures(collapse_connector, (name,), r),
        kind.len() > 0,
        index.len() > 0,
        !kind.contains('-'),
        !index.contains('-'),
        name@ == kind + seq!['-'] + index || name@ == kind + seq!['-'] + (between + seq!['-']
            + index),
    ensures
        r@ == kind + seq!['-'] + index,
{
    crate::drm::connector::lemma_collapsed_pair(kind, index);
    crate::drm::connector::lemma_subtype_is_dropped(kind, between, index);
}

/// A name without a dash stays as it is.
pub proof fn law_single_part_is_kept(name: &str, r: String)
    requires
        call_ensures(collapse_connector, (name,), r),
        !name@.contains('-'),
    ensures
        r@ == name@,
{
    crate::drm::connector::lemma_one_segment(name@);
    reveal_with_fuel(Seq::filter, 2);
    assert(seq![name@].drop_last() =~= Seq::empty());
    if name@.len() > 0 {
        assert(crate::drm::connector::named_segments(name@) =~= seq![name@]);
    } else {
        assert(crate::drm::connector::named_segments(name@) =~= Seq::empty());
    }
}

proof fn lemma_trailing_dash(s: Seq<char>)
    ensures
        crate::text::segments(s + seq!['-']) == crate::text::segments(s).push(Seq::empty()),
    decreases s.len(),
{
    let t = s + seq!['-'];
    let empty = Seq::<char>::empty();
    crate::text::lemma_first_dash(s);
    let i = crate::text::first_dash(s);
    if i >= s.len() {
        if s.contains('-') {
            let j = choose|j: int| 0 <= j < s.len() && s[j] == '-';
            assert(s[j] != '-');
        }
        crate::drm::connector::lemma_split_off(s, empty);
        crate::drm::connector::lemma_one_segment(empty);
        crate::drm::connector::lemma_one_segment(s);
        assert(t =~= s + seq!['-'] + empty);
        assert(seq![s] + seq![empty] =~= seq![s].push(empty));
    } else {
        let head = s.take(i);
        let rest = s.skip(i + 1);
        if head.contains('-') {
            let j = choose|j: int| 0 <= j < head.len() && head[j] == '-';
            assert(s[j] != '-');
        }
        assert(s =~= head + seq!['-'] + rest);
        assert(t =~= head + seq!['-'] + (rest + seq!['-']));
        crate::drm::connector::lemma_split_off(head, rest);
        crate::drm::connector::lemma_split_off(head, rest + seq!['-']);
        lemma_trailing_dash(rest);
        assert(seq![head] + crate::text::segments(rest).push(empty) =~= (seq![head]
            + crate::text::segments(rest)).push(empty));
    }
}

/// A dash in front of a name or behind it makes no difference, where the name has anything but
/// dashes.
pub proof fn law_outer_dashes_do_not_count(name: &str, more: &str, a: String, b: String, i: int)
    requires
        call_ensures(collapse_connector, (name,), a),
        call_ensures(collapse_connector, (more,), b),
        0 <= i < name@.len(),
        name@[i] != '-',
        more@ == seq!['-'] + name@ || more@ == name@ + seq!['-'],
    ensures
        a@ == b@,
{
    let s = name@;
    let empty = Seq::<char>::empty();
    let holds = |p: Seq<char>| p.len() > 0;
    let parts = crate::text::segments(s);
    lemma_some_part(s, i);
    if more@ == seq!['-'] + s {
        crate::drm::connector::lemma_split_off(empty, s);
        assert(more@ =~= empty + seq!['-'] + s);
        Seq::filter_distributes_over_add(seq![empty], parts, holds);
        assert(seq![empty].filter(holds) =~= Seq::empty()) by {
            reveal_with_fuel(Seq::filter, 2);
            assert(seq![empty].drop_last() =~= Seq::empty());
        }
        assert((seq![empty] + parts).filter(holds) =~= parts.filter(holds));
    } else {
        lemma_trailing_dash(s);
        reveal(Seq::filter);
        assert(parts.push(empty).drop_last() =~= parts);
        assert(parts.push(empty).filter(holds) =~= parts.filter(holds));
    }
}

/// A text with anything but dashes has a segment that holds something.
proof fn lemma_some_part(s: Seq<char>, i: int)
    requires
        0 <= i < s.len(),
        s[i] != '-',
    ensures
        crate::drm::connector::named_segments(s).len() > 0,
    decreases s.len(),
{
    let holds = |p: Seq<char>| p.len() > 0;
    crate::text::lemma_first_dash(s);
    let n = crate::text::first_dash(s);
    let parts = crate::text::segments(s);
    if n > 0 || n >= s.len() {
        let first = parts[0];
        assert(first.len() > 0);
        assert(parts.filter(holds).contains(first)) by {
            broadcast use vstd::seq_lib::group_filter_ensures;

            assert(holds(parts[0]));
        }
    } else {
        let rest = s.skip(1);
        assert(rest[i - 1] == s[i]);
        lemma_some_part(rest, i - 1);
        let tail = crate::text::segments(rest);
        assert(parts =~= seq![s.take(0)] + tail);
        Seq::filter_distributes_over_add(seq![s.take(0)], tail, holds);
    }
}

/// Whether a character is the lower-case one of another, where both are in ASCII.
pub open spec fn lowered(low: char, c: char) -> bool {
    if 65 <= c as int <= 90 {
        low as int == c as int + 32
    } else {
        low == c
    }
}

/// The normalized form of a name in ASCII is its collapsed form with every letter in lower case
/// and every other character as it is.
pub proof fn law_normalized_is_collapsed_in_lower_case(name: &str, short: String, r: String)
    requires
        call_ensures(collapse_connector, (name,), short),
        call_ensures(normalize_connector, (name,), r),
        vstd::utf8::is_ascii_chars(name@),
    ensures
        r@.len() == short@.len(),
        forall|i: int| 0 <= i < r@.len() ==> lowered(#[trigger] r@[i], short@[i]),
{
}

/// Names that collapse alike are normalized alike, in ASCII or not.
pub proof fn law_normalized_depends_on_the_collapsed_form(
    a: &str,
    b: &str,
    short_a: String,
    short_b: String,
    ra: String,
    rb: String,
)
    requires
        call_ensures(collapse_connector, (a,), short_a),
        call_ensures(collapse_connector, (b,), short_b),
        call_ensures(normalize_connector, (a,), ra),
        call_ensures(normalize_connector, (b,), rb),
        short_a@ == short_b@,
    ensures
        ra@ == rb@,
{
}

/// A connector is found by its name first: the first of that name. Only where no name is it is
/// the first of the same key. Nothing is found exactly where neither is there.
pub proof fn law_names_come_before_keys(
    names: &Vec<String>,
    keys: &Vec<String>,
    name: &String,
    key: &String,
    r: Option<usize>,
)
    requires
        call_ensures(match_names, (names, keys, name, key), r),
    ensures
        match r {
            Some(i) => {
                ||| {
                    &&& i < names@.len()
                    &&& names@[i as int]@ == name@
                    &&& forall|j: int| 0 <= j < i ==> (#[trigger] names@[j])@ != name@
                }
                ||| {
                    &&& forall|j: int| 0 <= j < names@.len() ==> (#[trigger] names@[j])@ != name@
                    &&& i < keys@.len()
                    &&& keys@[i as int]@ == key@
                    &&& forall|j: int| 0 <= j < i ==> (#[trigger] keys@[j])@ != key@
                }
            },
            None => {
                &&& forall|j: int| 0 <= j < names@.len() ==> (#[trigger] names@[j])@ != name@
                &&& forall|j: int| 0 <= j < keys@.len() ==> (#[trigger] keys@[j])@ != key@
            },
        },
{
    let list = crate::drm::display::texts(names@);
    let others = crate::drm::display::texts(keys@);
    let p = crate::drm::display::is_text(name@);
    let q = crate::drm::display::is_text(key@);
    crate::common::lemma_find_first_none(list, p);
    crate::common::lemma_find_first_none(others, q);
    assert forall|j: int| 0 <= j < names@.len() implies p(#[trigger] list[j]) == (names@[j]@
        == name@) by {}
    assert forall|j: int| 0 <= j < keys@.len() implies q(#[trigger] others[j]) == (keys@[j]@
        == key@) by {}
    match crate::common::find_first(list, p) {
        Some(i) => {
            assert(p(list[i]));
            assert forall|j: int| 0 <= j < i implies (#[trigger] names@[j])@ != name@ by {
                assert(!p(list[j]));
            }
        },
        None => {
            assert forall|j: int| 0 <= j < names@.len() implies (#[trigger] names@[j])@
                != name@ by {
                assert(!p(list[j]));
            }
            match crate::common::find_first(others, q) {
                Some(i) => {
                    assert(q(others[i]));
                    assert forall|j: int| 0 <= j < i implies (#[trigger] keys@[j])@ != key@ by {
                        assert(!q(others[j]));
                    }
                },
                None => {
                    assert forall|j: int| 0 <= j < keys@.len() implies (#[trigger] keys@[j])@
                        != key@ by {
                        assert(!q(others[j]));
                    }
                },
            }
        },
    }
}

/// An output lies at its place, is of its logical size, or of its physical one where the logical
/// one is unknown, but never empty, and is scaled by the quotient of its widths.
pub proof fn law_place_of_an_output(o: &WaylandDisplayInfo, r: Geometry)
    requires
        call_ensures(geometry_of, (o,), r),
    ensures
        r.x == o.x,
        r.y == o.y,
        ({
            let size = if o.logical_size is Some {
                o.logical_size->0
            } else {
                (o.width, o.height)
            };
            &&& size.0 >= 1 ==> r.w == size.0
            &&& size.0 < 1 ==> r.w == 1
            &&& size.1 >= 1 ==> r.h == size.1
            &&& size.1 < 1 ==> r.h == 1
        }),
        r.scale matches Scale::Ratio { num, den } && den > 0 && if o.width > 0 {
            num == o.width && den == r.w
        } else {
            num == den
        },
{
}

/// A connector without a matching output lies where it physically is; with one, where the output
/// of that position does.
pub proof fn law_place_of_a_connector(
    outputs: &Vec<WaylandDisplayInfo>,
    name: &str,
    x: i32,
    y: i32,
    w: usize,
    h: usize,
    r: Geometry,
    k: int,
    at: Geometry,
)
    requires
        call_ensures(logical_geometry_for, (outputs, name, x, y, w, h), r),
        0 <= k < outputs@.len(),
        call_ensures(geometry_of, (&outputs@[k],), at),
    ensures
        (outputs@[k].name@ == name@ && forall|j: int|
            0 <= j < k ==> (#[trigger] outputs@[j]).name@ != name@) ==> r == at,
        (forall|j: int|
            0 <= j < outputs@.len() ==> crate::drm::connector::normalized(
                (#[trigger] outputs@[j]).name@,
            ) != crate::drm::connector::normalized(name@)) ==> r.x == x && r.y == y && r.w == w
            && r.h == h,
{
    let list = crate::drm::display::output_names(outputs@);
    crate::drm::display::lemma_matched_in_range(list, name@);
    let p = crate::drm::display::is_text(name@);
    crate::common::lemma_find_first_none(list, p);
    if outputs@[k].name@ == name@ && forall|j: int|
        0 <= j < k ==> (#[trigger] outputs@[j]).name@ != name@ {
        assert(list[k] == name@);
        assert forall|j: int| 0 <= j < k implies !p(#[trigger] list[j]) by {
            assert(outputs@[j].name@ != name@);
        }
        assert(p(list[k]));
        crate::common::lemma_find_first_some(list, p, k);
    }
    if forall|j: int|
        0 <= j < outputs@.len() ==> crate::drm::connector::normalized(
            (#[trigger] outputs@[j]).name@,
        ) != crate::drm::connector::normalized(name@) {
        if let Some(i) = crate::drm::display::matched(list, name@) {
            assert(list[i] == outputs@[i].name@);
        }
    }
}

} // verus!
