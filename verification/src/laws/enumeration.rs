//! Laws of the displays that are offered.

use crate::common::{ErrorKind, IoError, Scale};
use crate::drm::display::{Display, Listing, RawDisplay};
use crate::drm::enumerate::{display_from_raw, primary_display_index};
use crate::drm::state::DrmState;
use crate::wayland::WaylandDisplayInfo;
use vstd::prelude::*;

verus! {

/// How many connectors of a listing were filled in.
pub open spec fn filled(l: Listing) -> int {
    if l.found < l.entries@.len() {
        l.found as int
    } else {
        l.entries@.len() as int
    }
}

/// Whether a connector is captured: it scans out, or no connector of the listing does.
pub open spec fn captured(l: Listing, k: int) -> bool {
    &&& 0 <= k < filled(l)
    &&& l.entries@[k].active != 0 || forall|j: int|
        0 <= j < filled(l) ==> (#[trigger] l.entries@[j]).active == 0
}

/// Whether `n` is where a text ends that a zero byte closes, or that fills its field.
pub open spec fn ends_at(bytes: Seq<u8>, n: int) -> bool {
    &&& 0 <= n <= bytes.len()
    &&& forall|j: int| 0 <= j < n ==> bytes[j] != 0
    &&& n < bytes.len() ==> bytes[n] == 0
}

/// Whether a text is the name of a connector: what its bytes say, up to the first zero byte.
pub open spec fn names(text: Seq<char>, e: RawDisplay) -> bool {
    exists|n: int| #[trigger]
        ends_at(e.name@, n) && text == crate::text::utf8_lossy_of(e.name@.take(n))
}

/// Whether an output is the one of a connector name: the first of exactly that name, or where
/// there is none, the first whose normalized name is the same.
pub open spec fn output_of(
    name: Seq<char>,
    outputs: Seq<WaylandDisplayInfo>,
    k: int,
) -> bool {
    &&& 0 <= k < outputs.len()
    &&& {
        ||| outputs[k].name@ == name && forall|j: int|
            0 <= j < k ==> (#[trigger] outputs[j]).name@ != name
        ||| {
            &&& forall|j: int| 0 <= j < outputs.len() ==> (#[trigger] outputs[j]).name@ != name
            &&& crate::drm::connector::normalized(outputs[k].name@)
                == crate::drm::connector::normalized(name)
            &&& forall|j: int|
                0 <= j < k ==> crate::drm::connector::normalized((#[trigger] outputs[j]).name@)
                    != crate::drm::connector::normalized(name)
        }
    }
}

/// Whether a display lies where an output does: at its place, of its logical size, or of its
/// physical one where the logical one is unknown, but never empty; and scaled by the quotient of
/// the widths.
pub open spec fn lies_where(d: Display, o: WaylandDisplayInfo) -> bool {
    let size = if o.logical_size is Some {
        o.logical_size->0
    } else {
        (o.width, o.height)
    };
    &&& d.x == o.x
    &&& d.y == o.y
    &&& d.logical_w >= 1
    &&& d.logical_h >= 1
    &&& size.0 >= 1 ==> d.logical_w == size.0
    &&& size.0 < 1 ==> d.logical_w == 1
    &&& size.1 >= 1 ==> d.logical_h == size.1
    &&& size.1 < 1 ==> d.logical_h == 1
    &&& (d.scale matches Scale::Ratio { num, den } && if o.width > 0 {
        num == o.width && den == d.logical_w
    } else {
        num == den && den > 0
    })
}

/// Whether a display lies where its connector does, in physical pixels.
pub open spec fn lies_physically(d: Display, e: RawDisplay) -> bool {
    &&& d.x == e.x as i32
    &&& d.y == e.y as i32
    &&& d.logical_w == e.width
    &&& d.logical_h == e.height
    &&& (d.scale matches Scale::Ratio { num, den } && num == den && den > 0)
}

/// Whether a display is that of a connector: of its name, size and CRTC, at the place of the
/// output of that name, or at its own where there is no such output.
pub open spec fn shows(
    d: Display,
    e: RawDisplay,
    outputs: Seq<WaylandDisplayInfo>,
) -> bool {
    &&& names(d.name@, e)
    &&& d.crtc_id == e.crtc_id
    &&& d.w == e.width
    &&& d.h == e.height
    &&& forall|k: int| #[trigger]
        output_of(d.name@, outputs, k) ==> lies_where(d, outputs[k])
    &&& (forall|k: int| !#[trigger] output_of(d.name@, outputs, k)) ==> lies_physically(d, e)
}

/// Whether positions rise.
pub open spec fn rising(at: Seq<int>) -> bool {
    forall|i: int, j: int| 0 <= i < j < at.len() ==> #[trigger] at[i] < #[trigger] at[j]
}

/// Whether a list of outputs has one of this name and CRTC.
pub open spec fn lists(keys: Seq<(String, u32)>, name: Seq<char>, crtc_id: u32) -> bool {
    exists|b: int| 0 <= b < keys.len() && (#[trigger] keys[b]).0@ == name && keys[b].1 == crtc_id
}

/// Whether two lists of outputs are the same.
pub open spec fn same_outputs(a: Seq<(String, u32)>, b: Seq<(String, u32)>) -> bool {
    &&& a.len() == b.len()
    &&& forall|i: int| 0 <= i < a.len() ==> (#[trigger] a[i]).0@ == b[i].0@ && a[i].1 == b[i].1
}

proof fn lemma_names(e: RawDisplay, text: Seq<char>)
    ensures
        names(text, e) <==> text == crate::drm::enumerate::raw_name(e),
{
    let bytes = e.name@;
    let p = |b: u8| b == 0;
    crate::common::lemma_find_first_none(bytes, p);
    let end = match crate::common::find_first(bytes, p) {
        Some(i) => i,
        None => bytes.len() as int,
    };
    assert(ends_at(bytes, end)) by {
        assert forall|j: int| 0 <= j < end implies bytes[j] != 0 by {
            assert(!p(bytes[j]));
        }
        if end < bytes.len() {
            assert(p(bytes[end]));
        }
    }
    assert(bytes.take(bytes.len() as int) =~= bytes);
    assert(crate::drm::enumerate::c_text(bytes) == bytes.take(end));
    if names(text, e) {
        let n = choose|n: int| #[trigger]
            ends_at(bytes, n) && text == crate::text::utf8_lossy_of(bytes.take(n));
        if n < end {
            assert(bytes[n] != 0);
        } else if end < n {
            assert(bytes[end] != 0);
        }
    }
}

proof fn lemma_output_of(name: Seq<char>, outputs: Seq<WaylandDisplayInfo>)
    ensures
        match crate::drm::display::matched(crate::drm::display::output_names(outputs), name) {
            Some(i) => output_of(name, outputs, i) && forall|k: int| #[trigger]
                output_of(name, outputs, k) ==> k == i,
            None => forall|k: int| !#[trigger] output_of(name, outputs, k),
        },
{
    let list = crate::drm::display::output_names(outputs);
    let keys = crate::drm::display::normalized_all(list);
    let key = crate::drm::connector::normalized(name);
    let p = crate::drm::display::is_text(name);
    let q = crate::drm::display::is_text(key);
    crate::common::lemma_find_first_none(list, p);
    crate::common::lemma_find_first_none(keys, q);
    assert forall|j: int| 0 <= j < outputs.len() implies p(#[trigger] list[j]) == (outputs[j].name@
        == name) && q(keys[j]) == (crate::drm::connector::normalized(outputs[j].name@) == key) by {
        assert(list[j] == outputs[j].name@);
        assert(keys[j] == crate::drm::connector::normalized(list[j]));
    }
    match crate::common::find_first(list, p) {
        Some(i) => {
            assert(p(list[i]));
            assert forall|j: int| 0 <= j < i implies (#[trigger] outputs[j]).name@ != name by {
                assert(!p(list[j]));
            }
            assert forall|k: int| #[trigger] output_of(name, outputs, k) implies k == i by {
                assert(outputs[i].name@ == name);
                if k < i {
                    assert(outputs[k].name@ != name);
                }
            }
        },
        None => {
            assert forall|j: int| 0 <= j < outputs.len() implies (#[trigger] outputs[j]).name@
                != name by {
                assert(!p(list[j]));
            }
            match crate::common::find_first(keys, q) {
                Some(i) => {
                    assert(q(keys[i]));
                    assert(p(list[i]) == (outputs[i].name@ == name));
                    assert forall|j: int| 0 <= j < i implies crate::drm::connector::normalized(
                        (#[trigger] outputs[j]).name@,
                    ) != key by {
                        assert(!q(keys[j]));
                        assert(p(list[j]) == (outputs[j].name@ == name));
                    }
                    assert forall|k: int| #[trigger] output_of(name, outputs, k) implies k == i by {
                        if k < i {
                            assert(!q(keys[k]));
                            assert(p(list[k]) == (outputs[k].name@ == name));
                        } else if i < k {
                            assert(crate::drm::connector::normalized(outputs[i].name@) == key);
                        }
                    }
                },
                None => {
                    assert forall|k: int| !#[trigger] output_of(name, outputs, k) by {
                        if output_of(name, outputs, k) {
                            assert(!q(keys[k]));
                            assert(p(list[k]) == (outputs[k].name@ == name));
                        }
                    }
                },
            }
        },
    }
}

proof fn lemma_shows(d: Display, e: RawDisplay, outputs: Seq<WaylandDisplayInfo>)
    requires
        d@ == crate::drm::enumerate::display_of(e, outputs) || d@ == (
        crate::drm::display::DisplayView {
            primary: true,
            ..crate::drm::enumerate::display_of(e, outputs)
        }),
    ensures
        shows(d, e, outputs),
{
    lemma_names(e, d.name@);
    lemma_output_of(d.name@, outputs);
}

/// A filter keeps, in order, just the elements at some rising positions: those that pass.
proof fn lemma_filter_positions<T>(s: Seq<T>, p: spec_fn(T) -> bool) -> (at: Seq<int>)
    ensures
        at.len() == s.filter(p).len(),
        rising(at),
        forall|i: int|
            0 <= i < at.len() ==> 0 <= #[trigger] at[i] < s.len() && p(s[at[i]]) && s.filter(p)[i]
                == s[at[i]],
        forall|k: int| 0 <= k < s.len() && p(#[trigger] s[k]) ==> at.contains(k),
    decreases s.len(),
{
    reveal(Seq::filter);
    if s.len() == 0 {
        Seq::empty()
    } else {
        let t = s.drop_last();
        let before = lemma_filter_positions(t, p);
        let last = s.len() - 1;
        assert forall|k: int| 0 <= k < t.len() && p(#[trigger] s[k]) implies before.contains(k) by {
            assert(t[k] == s[k]);
        }
        if p(s.last()) {
            let at = before.push(last);
            assert forall|k: int| 0 <= k < s.len() && p(#[trigger] s[k]) implies at.contains(
                k,
            ) by {
                if k < last {
                    let i = choose|i: int| 0 <= i < before.len() && before[i] == k;
                    assert(at[i] == k);
                } else {
                    assert(at[before.len() as int] == k);
                }
            }
            assert forall|i: int| 0 <= i < at.len() implies 0 <= #[trigger] at[i] < s.len() && p(
                s[at[i]],
            ) && s.filter(p)[i] == s[at[i]] by {
                if i < before.len() {
                    assert(before[i] == at[i]);
                }
            }
            at
        } else {
            assert forall|i: int| 0 <= i < before.len() implies 0 <= #[trigger] before[i] < s.len()
                && p(s[before[i]]) && s.filter(p)[i] == s[before[i]] by {}
            before
        }
    }
}

/// The connectors that are captured stand at some rising positions: at those, and no others.
proof fn lemma_captured_positions(l: Listing) -> (at: Seq<int>)
    requires
        l.found > 0,
    ensures
        rising(at),
        at.len() == crate::drm::enumerate::chosen(
            crate::drm::enumerate::listed(l.found as int, l.entries@),
        ).len(),
        forall|i: int|
            0 <= i < at.len() ==> captured(l, #[trigger] at[i]) && crate::drm::enumerate::chosen(
                crate::drm::enumerate::listed(l.found as int, l.entries@),
            )[i] == l.entries@[at[i]],
        forall|k: int| #[trigger] captured(l, k) ==> at.contains(k),
{
    let list = crate::drm::enumerate::listed(l.found as int, l.entries@);
    let p = |r: RawDisplay| r.active != 0;
    let pos = lemma_filter_positions(list, p);
    assert(list.len() == filled(l));
    assert forall|k: int| 0 <= k < list.len() implies #[trigger] list[k] == l.entries@[k] by {}
    if list.filter(p).len() == 0 {
        let at = Seq::new(list.len(), |i: int| i);
        assert forall|j: int| 0 <= j < filled(l) implies (#[trigger] l.entries@[j]).active == 0 by {
            if l.entries@[j].active != 0 {
                assert(p(list[j]));
                assert(pos.contains(j));
            }
        }
        assert forall|k: int| #[trigger] captured(l, k) implies at.contains(k) by {
            assert(at[k] == k);
        }
        at
    } else {
        let first = pos[0];
        assert(p(list[first]));
        assert(l.entries@[first].active != 0);
        assert forall|i: int| 0 <= i < pos.len() implies captured(l, #[trigger] pos[i]) by {
            assert(p(list[pos[i]]));
        }
        assert forall|k: int| #[trigger] captured(l, k) implies pos.contains(k) by {
            assert(l.entries@[k].active != 0) by {
                if l.entries@[k].active == 0 {
                    assert(l.entries@[first].active == 0);
                }
            }
            assert(p(list[k]));
        }
        pos
    }
}

/// The displays that are offered are those of the captured connectors, in the order of the
/// listing, each once, and none that is known to be ungrabbable. If a listed connector scans
/// out, only connectors that scan out are captured; the others are where none does. What is
/// captured and not offered is known to be ungrabbable.
pub proof fn law_captured_connectors_are_offered(
    st: &mut DrmState,
    l: &Listing,
    outputs: &Vec<WaylandDisplayInfo>,
    primary: Option<&str>,
    v: Vec<Display>,
) -> (at: Seq<int>)
    requires
        call_ensures(
            Display::all,
            (st, Some(l), outputs, primary),
            Ok::<Vec<Display>, IoError>(v),
        ),
    ensures
        v@.len() > 0,
        at.len() == v@.len(),
        rising(at),
        forall|i: int|
            0 <= i < v@.len() ==> {
                &&& captured(*l, #[trigger] at[i])
                &&& shows(v@[i], l.entries@[at[i]], outputs@)
                &&& !lists(final(st).bad_crtcs@, v@[i].name@, v@[i].crtc_id)
            },
        forall|k: int| #[trigger]
            captured(*l, k) ==> at.contains(k) || exists|text: Seq<char>| #[trigger]
                names(text, l.entries@[k]) && lists(
                    final(st).bad_crtcs@,
                    text,
                    l.entries@[k].crtc_id,
                ),
{
    let s = old(st)@;
    let all = crate::drm::enumerate::candidates(l.found as int, l.entries@, outputs@);
    let entries = crate::drm::enumerate::chosen(
        crate::drm::enumerate::listed(l.found as int, l.entries@),
    );
    let bad = s.seen(crate::drm::enumerate::topology(all)).bad_crtcs;
    let p = |d: crate::drm::display::DisplayView| !bad.contains(crate::drm::enumerate::key_of(d));
    let kept = crate::drm::enumerate::grabbable(all, bad);
    let text = crate::drm::enumerate::text_of(primary);
    let mark = crate::drm::enumerate::primary_index(kept, text);
    let outer = lemma_captured_positions(*l);
    let inner = lemma_filter_positions(all, p);
    let at = Seq::new(v@.len(), |i: int| outer[inner[i]]);
    let views = crate::drm::enumerate::views(v@);
    assert(views == crate::drm::enumerate::with_primary(kept, mark));
    assert(views.len() == kept.len());
    assert(final(st)@.bad_crtcs == bad);
    lemma_bad(final(st).bad_crtcs@);
    assert forall|i: int| 0 <= i < v@.len() implies {
        &&& captured(*l, #[trigger] at[i])
        &&& shows(v@[i], l.entries@[at[i]], outputs@)
        &&& !lists(final(st).bad_crtcs@, v@[i].name@, v@[i].crtc_id)
    } by {
        let k = inner[i];
        assert(captured(*l, outer[k]));
        assert(entries[k] == l.entries@[outer[k]]);
        assert(all[k] == crate::drm::enumerate::display_of(entries[k], outputs@));
        assert(kept[i] == all[k]);
        assert(views[i] == v@[i]@);
        lemma_shows(v@[i], l.entries@[at[i]], outputs@);
        assert(p(all[k]));
    }
    assert forall|i: int, j: int| 0 <= i < j < at.len() implies #[trigger] at[i] < #[trigger] at[j] by {
        assert(inner[i] < inner[j]);
        assert(outer[inner[i]] < outer[inner[j]]);
    }
    assert forall|k: int| #[trigger] captured(*l, k) implies at.contains(k) || exists|
        text: Seq<char>,
    | #[trigger]
        names(text, l.entries@[k]) && lists(
            final(st).bad_crtcs@,
            text,
            l.entries@[k].crtc_id,
        ) by {
        let m = choose|m: int| 0 <= m < outer.len() && outer[m] == k;
        assert(entries[m] == l.entries@[outer[m]]);
        assert(all[m] == crate::drm::enumerate::display_of(entries[m], outputs@));
        if p(all[m]) {
            let i = choose|i: int| 0 <= i < inner.len() && inner[i] == m;
            assert(at[i] == k);
        } else {
            let name = crate::drm::enumerate::raw_name(l.entries@[k]);
            lemma_names(l.entries@[k], name);
            assert(names(name, l.entries@[k]));
            assert(lists(final(st).bad_crtcs@, name, l.entries@[k].crtc_id));
        }
    }
    at
}

proof fn lemma_bad(keys: Seq<(String, u32)>)
    ensures
        forall|name: Seq<char>, crtc_id: u32| #[trigger]
            lists(keys, name, crtc_id) <==> crate::drm::state::crtc_keys(keys).contains(
                (name, crtc_id),
            ),
{
    let all = crate::drm::state::crtc_keys(keys);
    assert forall|name: Seq<char>, crtc_id: u32| #[trigger]
        lists(keys, name, crtc_id) <==> all.contains((name, crtc_id)) by {
        if lists(keys, name, crtc_id) {
            let b = choose|b: int|
                0 <= b < keys.len() && (#[trigger] keys[b]).0@ == name && keys[b].1 == crtc_id;
            assert(all[b] == (name, crtc_id));
        }
        if all.contains((name, crtc_id)) {
            let b = choose|b: int| 0 <= b < all.len() && all[b] == (name, crtc_id);
            assert(keys[b].0@ == name && keys[b].1 == crtc_id);
        }
    }
}

/// Whether a display is the one that a name of the compositor means: the first of exactly that
/// name, or where there is none, the first whose normalized name is the same.
pub open spec fn meant(v: Seq<Display>, name: Seq<char>, i: int) -> bool {
    &&& 0 <= i < v.len()
    &&& {
        ||| v[i].name@ == name && forall|j: int| 0 <= j < i ==> (#[trigger] v[j]).name@ != name
        ||| {
            &&& forall|j: int| 0 <= j < v.len() ==> (#[trigger] v[j]).name@ != name
            &&& crate::drm::connector::normalized(v[i].name@)
                == crate::drm::connector::normalized(name)
            &&& forall|j: int|
                0 <= j < i ==> crate::drm::connector::normalized((#[trigger] v[j]).name@)
                    != crate::drm::connector::normalized(name)
        }
    }
}

proof fn lemma_meant(v: Seq<Display>, list: Seq<Seq<char>>, name: Seq<char>)
    requires
        list.len() == v.len(),
        forall|j: int| 0 <= j < v.len() ==> #[trigger] list[j] == v[j].name@,
    ensures
        match crate::drm::display::matched(list, name) {
            Some(i) => meant(v, name, i),
            None => forall|k: int| !#[trigger] meant(v, name, k),
        },
{
    let keys = crate::drm::display::normalized_all(list);
    let key = crate::drm::connector::normalized(name);
    let p = crate::drm::display::is_text(name);
    let q = crate::drm::display::is_text(key);
    crate::common::lemma_find_first_none(list, p);
    crate::common::lemma_find_first_none(keys, q);
    match crate::common::find_first(list, p) {
        Some(i) => {
            assert(p(list[i]));
            assert forall|j: int| 0 <= j < i implies (#[trigger] v[j]).name@ != name by {
                assert(!p(list[j]));
            }
        },
        None => {
            assert forall|j: int| 0 <= j < v.len() implies (#[trigger] v[j]).name@ != name by {
                assert(!p(list[j]));
            }
            match crate::common::find_first(keys, q) {
                Some(i) => {
                    assert(q(keys[i]));
                    assert(keys[i] == crate::drm::connector::normalized(list[i]));
                    assert forall|j: int| 0 <= j < i implies crate::drm::connector::normalized(
                        (#[trigger] v[j]).name@,
                    ) != key by {
                        assert(!q(keys[j]));
                        assert(keys[j] == crate::drm::connector::normalized(list[j]));
                    }
                },
                None => {
                    assert forall|k: int| !#[trigger] meant(v, name, k) by {
                        if meant(v, name, k) {
                            assert(!q(keys[k]));
                            assert(keys[k] == crate::drm::connector::normalized(list[k]));
                        }
                    }
                },
            }
        },
    }
}

/// Exactly one display that is offered is primary: the one that the compositor's primary output
/// means, or the first where that output is unknown or means none.
pub proof fn law_one_display_is_primary(
    st: &mut DrmState,
    l: &Listing,
    outputs: &Vec<WaylandDisplayInfo>,
    primary: Option<&str>,
    v: Vec<Display>,
) -> (at: int)
    requires
        call_ensures(
            Display::all,
            (st, Some(l), outputs, primary),
            Ok::<Vec<Display>, IoError>(v),
        ),
    ensures
        0 <= at < v@.len(),
        forall|i: int| 0 <= i < v@.len() ==> ((#[trigger] v@[i]).primary <==> i == at),
        primary is None ==> at == 0,
        primary matches Some(name) ==> {
            ||| meant(v@, name@, at)
            ||| at == 0 && forall|k: int| !#[trigger] meant(v@, name@, k)
        },
{
    let s = old(st)@;
    let text = crate::drm::enumerate::text_of(primary);
    let all = crate::drm::enumerate::candidates(l.found as int, l.entries@, outputs@);
    let bad = s.seen(crate::drm::enumerate::topology(all)).bad_crtcs;
    let kept = crate::drm::enumerate::grabbable(all, bad);
    let at = crate::drm::enumerate::primary_index(kept, text);
    let views = crate::drm::enumerate::views(v@);
    assert(views == crate::drm::enumerate::with_primary(kept, at));
    assert(views.len() == v@.len());
    crate::drm::enumerate::lemma_offered(s, Some(*l), outputs@, text);
    let list = crate::drm::enumerate::display_names(kept);
    assert forall|j: int| 0 <= j < v@.len() implies #[trigger] list[j] == v@[j].name@ by {
        assert(views[j] == v@[j]@);
    }
    if let Some(name) = primary {
        crate::drm::display::lemma_matched_in_range(list, name@);
        lemma_meant(v@, list, name@);
    }
    assert(views[at].primary);
    assert(at == crate::drm::enumerate::marked_index(views));
    assert forall|i: int| 0 <= i < v@.len() implies ((#[trigger] v@[i]).primary <==> i == at) by {
        assert(views[i] == v@[i]@);
    }
    at
}

/// The primary display is the one that is marked among all displays, asked in the same
/// situation; and there is none exactly where there are no displays, for the same reason.
pub proof fn law_primary_is_one_of_all(
    a: &mut DrmState,
    b: &mut DrmState,
    listing: Option<&Listing>,
    outputs: &Vec<WaylandDisplayInfo>,
    primary: Option<&str>,
    all: Result<Vec<Display>, IoError>,
    one: Result<Display, IoError>,
)
    requires
        *old(a) == *old(b),
        call_ensures(Display::all, (a, listing, outputs, primary), all),
        call_ensures(Display::primary, (b, listing, outputs, primary), one),
    ensures
        match (all, one) {
            (Ok(v), Ok(d)) => d.primary && exists|i: int|
                0 <= i < v@.len() && (#[trigger] v@[i]).primary && v@[i].name@ == d.name@
                    && v@[i].crtc_id == d.crtc_id && v@[i].x == d.x && v@[i].y == d.y && v@[i].w
                    == d.w && v@[i].h == d.h && v@[i].logical_w == d.logical_w && v@[i].logical_h
                    == d.logical_h && v@[i].scale == d.scale,
            (Err(e), Err(f)) => e.kind == f.kind && e.message@ == f.message@,
            _ => false,
        },
        final(a)@ == final(b)@,
{
    let l = crate::drm::enumerate::listing_of(listing);
    let text = crate::drm::enumerate::text_of(primary);
    crate::drm::enumerate::lemma_offered(old(a)@, l, outputs@, text);
    if let Ok(v) = all {
        let views = crate::drm::enumerate::views(v@);
        let i = crate::drm::enumerate::marked_index(views);
        assert(views[i] == v@[i]@);
        assert(one is Ok);
        assert(v@[i].primary);
    }
}

/// An enumeration fails exactly where the device could not be opened, lists nothing, or lists
/// only outputs that are known to be ungrabbable; always as something that is not there.
pub proof fn law_when_nothing_is_offered(
    st: &mut DrmState,
    listing: Option<&Listing>,
    outputs: &Vec<WaylandDisplayInfo>,
    primary: Option<&str>,
    r: Result<Vec<Display>, IoError>,
)
    requires
        call_ensures(Display::all, (st, listing, outputs, primary), r),
    ensures
        r matches Err(e) ==> e.kind == ErrorKind::NotFound,
        listing is None ==> (r matches Err(e) && e.message@ == "drmtap_open failed"@),
        listing matches Some(l) ==> {
            &&& l.found <= 0 ==> (r matches Err(e) && e.message@ == "No DRM displays found"@)
            &&& l.found > 0 && filled(*l) == 0 ==> (r matches Err(e) && e.message@
                == "No active DRM displays"@)
            &&& l.found > 0 && filled(*l) > 0 && r is Err ==> {
                &&& r->Err_0.message@ == "All DRM CRTCs ungrabbable; falling back to PipeWire"@
                &&& forall|k: int| #[trigger]
                    captured(*l, k) ==> exists|text: Seq<char>| #[trigger]
                        names(text, l.entries@[k]) && lists(
                            final(st).bad_crtcs@,
                            text,
                            l.entries@[k].crtc_id,
                        )
            }
        },
{
    if let Some(l) = listing {
        if l.found > 0 {
            let s = old(st)@;
            let all = crate::drm::enumerate::candidates(l.found as int, l.entries@, outputs@);
            let entries = crate::drm::enumerate::chosen(
                crate::drm::enumerate::listed(l.found as int, l.entries@),
            );
            let bad = s.seen(crate::drm::enumerate::topology(all)).bad_crtcs;
            let p = |d: crate::drm::display::DisplayView|
                !bad.contains(crate::drm::enumerate::key_of(d));
            let outer = lemma_captured_positions(*l);
            let inner = lemma_filter_positions(all, p);
            lemma_bad(final(st).bad_crtcs@);
            if filled(*l) == 0 {
                assert(outer.len() == 0) by {
                    if outer.len() > 0 {
                        assert(captured(*l, outer[0]));
                    }
                }
            } else {
                assert(outer.len() > 0) by {
                    if outer.len() == 0 {
                        assert(captured(*l, 0)) by {
                            assert forall|j: int| 0 <= j < filled(*l) implies (
                            #[trigger] l.entries@[j]).active == 0 by {
                                if l.entries@[j].active != 0 {
                                    assert(captured(*l, j));
                                    assert(outer.contains(j));
                                }
                            }
                        }
                        assert(outer.contains(0));
                    }
                }
                if r is Err {
                    assert forall|k: int| #[trigger] captured(*l, k) implies exists|
                        text: Seq<char>,
                    | #[trigger]
                        names(text, l.entries@[k]) && lists(
                            final(st).bad_crtcs@,
                            text,
                            l.entries@[k].crtc_id,
                        ) by {
                        let m = choose|m: int| 0 <= m < outer.len() && outer[m] == k;
                        assert(entries[m] == l.entries@[outer[m]]);
                        assert(all[m] == crate::drm::enumerate::display_of(entries[m], outputs@));
                        if p(all[m]) {
                            assert(inner.contains(m));
                        }
                        let name = crate::drm::enumerate::raw_name(l.entries@[k]);
                        lemma_names(l.entries@[k], name);
                        assert(names(name, l.entries@[k]));
                        assert(lists(final(st).bad_crtcs@, name, l.entries@[k].crtc_id));
                    }
                }
            }
        }
    }
}

/// An enumeration that finds connectors remembers the captured ones, in order. What was known
/// to be ungrabbable stays known while they are the same as the last time, and is forgotten
/// otherwise. Nothing else that is remembered changes.
pub proof fn law_outputs_are_remembered(
    st: &mut DrmState,
    l: &Listing,
    outputs: &Vec<WaylandDisplayInfo>,
    primary: Option<&str>,
    r: Result<Vec<Display>, IoError>,
) -> (at: Seq<int>)
    requires
        call_ensures(Display::all, (st, Some(l), outputs, primary), r),
        l.found > 0,
        filled(*l) > 0,
    ensures
        rising(at),
        at.len() == final(st).last_topology@.len(),
        forall|k: int| #[trigger] captured(*l, k) <==> at.contains(k),
        forall|i: int|
            0 <= i < at.len() ==> {
                &&& names(final(st).last_topology@[i].0@, l.entries@[#[trigger] at[i]])
                &&& final(st).last_topology@[i].1 == l.entries@[at[i]].crtc_id
            },
        same_outputs(old(st).last_topology@, final(st).last_topology@) ==> same_outputs(
            old(st).bad_crtcs@,
            final(st).bad_crtcs@,
        ),
        !same_outputs(old(st).last_topology@, final(st).last_topology@)
            ==> final(st).bad_crtcs@.len() == 0,
        final(st).probe == old(st).probe,
        final(st)@.cursor == old(st)@.cursor,
{
    let s = old(st)@;
    let all = crate::drm::enumerate::candidates(l.found as int, l.entries@, outputs@);
    let entries = crate::drm::enumerate::chosen(
        crate::drm::enumerate::listed(l.found as int, l.entries@),
    );
    let topology = crate::drm::enumerate::topology(all);
    let at = lemma_captured_positions(*l);
    if at.len() == 0 {
        assert(captured(*l, 0)) by {
            assert forall|j: int| 0 <= j < filled(*l) implies (#[trigger] l.entries@[j]).active
                == 0 by {
                if l.entries@[j].active != 0 {
                    assert(captured(*l, j));
                    assert(at.contains(j));
                }
            }
        }
        assert(at.contains(0));
    }
    let now = crate::drm::state::crtc_keys(final(st).last_topology@);
    let before = crate::drm::state::crtc_keys(old(st).last_topology@);
    assert(now == topology);
    assert(now.len() == at.len());
    assert forall|i: int| 0 <= i < at.len() implies {
        &&& names(final(st).last_topology@[i].0@, l.entries@[#[trigger] at[i]])
        &&& final(st).last_topology@[i].1 == l.entries@[at[i]].crtc_id
    } by {
        assert(entries[i] == l.entries@[at[i]]);
        assert(all[i] == crate::drm::enumerate::display_of(entries[i], outputs@));
        assert(now[i] == crate::drm::enumerate::key_of(all[i]));
        assert(now[i] == (final(st).last_topology@[i].0@, final(st).last_topology@[i].1));
        lemma_names(l.entries@[at[i]], final(st).last_topology@[i].0@);
    }
    lemma_same_outputs(old(st).last_topology@, final(st).last_topology@);
    lemma_same_outputs(old(st).bad_crtcs@, final(st).bad_crtcs@);
    assert forall|k: int| at.contains(k) implies #[trigger] captured(*l, k) by {
        let i = choose|i: int| 0 <= i < at.len() && at[i] == k;
        assert(captured(*l, at[i]));
    }
    assert(crate::drm::state::crtc_keys(final(st).bad_crtcs@).len()
        == final(st).bad_crtcs@.len());
    at
}

proof fn lemma_same_outputs(a: Seq<(String, u32)>, b: Seq<(String, u32)>)
    ensures
        same_outputs(a, b) <==> crate::drm::state::crtc_keys(a) == crate::drm::state::crtc_keys(b),
{
    let x = crate::drm::state::crtc_keys(a);
    let y = crate::drm::state::crtc_keys(b);
    if same_outputs(a, b) {
        assert(x =~= y);
    }
    if x == y {
        assert(x.len() == a.len() && y.len() == b.len());
        assert forall|i: int| 0 <= i < a.len() implies (#[trigger] a[i]).0@ == b[i].0@ && a[i].1
            == b[i].1 by {
            assert(x[i] == y[i]);
        }
    }
}

/// An enumeration that finds nothing changes nothing that is remembered.
pub proof fn law_nothing_found_changes_nothing(
    st: &mut DrmState,
    listing: Option<&Listing>,
    outputs: &Vec<WaylandDisplayInfo>,
    primary: Option<&str>,
    r: Result<Vec<Display>, IoError>,
)
    requires
        call_ensures(Display::all, (st, listing, outputs, primary), r),
        listing matches Some(l) ==> l.found <= 0 || filled(*l) == 0,
    ensures
        same_outputs(old(st).bad_crtcs@, final(st).bad_crtcs@),
        same_outputs(old(st).last_topology@, final(st).last_topology@),
        final(st).probe == old(st).probe,
        final(st)@.cursor == old(st)@.cursor,
{
    lemma_same_outputs(old(st).bad_crtcs@, final(st).bad_crtcs@);
    lemma_same_outputs(old(st).last_topology@, final(st).last_topology@);
    if let Some(l) = listing {
        if l.found > 0 {
            let outer = lemma_captured_positions(*l);
            if outer.len() > 0 {
                assert(captured(*l, outer[0]));
            }
        }
    }
}

/// The display of a connector shows it, and is not marked as primary.
pub proof fn law_display_of_a_connector(
    e: &RawDisplay,
    outputs: &Vec<WaylandDisplayInfo>,
    d: Display,
)
    requires
        call_ensures(display_from_raw, (e, outputs), d),
    ensures
        shows(d, *e, outputs@),
        !d.primary,
{
    lemma_shows(d, *e, outputs@);
}

/// The position of the primary display is that of the one that the compositor's name means, or
/// the first where there is no such one.
pub proof fn law_position_of_the_primary(v: &Vec<Display>, primary: Option<&str>, at: usize)
    requires
        call_ensures(primary_display_index, (v, primary), at),
    ensures
        primary is None ==> at == 0,
        primary matches Some(name) ==> {
            ||| meant(v@, name@, at as int)
            ||| at == 0 && forall|k: int| !#[trigger] meant(v@, name@, k)
        },
{
    if let Some(name) = primary {
        let views = crate::drm::enumerate::views(v@);
        let list = crate::drm::enumerate::display_names(views);
        assert forall|j: int| 0 <= j < v@.len() implies #[trigger] list[j] == v@[j].name@ by {
            assert(views[j] == v@[j]@);
        }
        lemma_meant(v@, list, name@);
    }
}

} // verus!
