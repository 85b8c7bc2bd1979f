//! Laws of the displays as clients see them.

use crate::drm_capturer::availability::{DrmServer, ProbeState};
use crate::drm_capturer::layout::{
    display_info_from_drm, get_display_infos, get_primary_index, match_wayland_display,
    normalize_connector, DisplayInfo,
};
use crate::common::Scale;
use crate::ipc::DrmDisplayInfo;
use crate::wayland::{Displays, WaylandDisplayInfo};
use vstd::prelude::*;

verus! {

/// Whether two connector names are of one connector: their short names are the same.
pub open spec fn same_connector(a: Seq<char>, b: Seq<char>) -> bool {
    crate::drm_capturer::layout::short_name(a) == crate::drm_capturer::layout::short_name(b)
}

/// The initial display is the compositor's primary output. If a display of the service is of
/// the same connector as that output, the first such display is picked; the first of the list
/// is picked only where there is none.
pub proof fn law_primary_is_the_compositors(
    srv: &DrmServer,
    wl: &Displays,
    list: Vec<DrmDisplayInfo>,
    r: usize,
)
    requires
        call_ensures(get_primary_index, (srv, wl), r),
        srv.state == ProbeState::Available(list),
    ensures
        wl.primary < wl.displays@.len() ==> {
            let wanted = wl.displays@[wl.primary as int].name@;
            &&& (exists|k: int|
                0 <= k < list@.len() && #[trigger] same_connector(list@[k].name@, wanted)) ==> {
                &&& r < list@.len()
                &&& same_connector(list@[r as int].name@, wanted)
                &&& forall|k: int|
                    0 <= k < r ==> !#[trigger] same_connector(list@[k].name@, wanted)
            }
            &&& (forall|k: int|
                0 <= k < list@.len() ==> !#[trigger] same_connector(list@[k].name@, wanted)) ==> r
                == 0
        },
        wl.primary >= wl.displays@.len() ==> r == 0,
{
    if wl.primary < wl.displays@.len() {
        let wanted = wl.displays@[wl.primary as int].name@;
        let p = crate::drm_capturer::layout::drm_of_name(wanted);
        crate::common::lemma_find_first_none(list@, p);
        if exists|k: int|
            0 <= k < list@.len() && #[trigger] same_connector(list@[k].name@, wanted) {
            let k = choose|k: int|
                0 <= k < list@.len() && #[trigger] same_connector(list@[k].name@, wanted);
            assert(p(list@[k]));
            assert(p(list@[r as int]));
            assert forall|j: int| 0 <= j < r implies !#[trigger] same_connector(
                list@[j].name@,
                wanted,
            ) by {
                assert(!p(list@[j]));
            }
        } else {
            assert forall|j: int| 0 <= j < list@.len() implies !p(#[trigger] list@[j]) by {
                assert(!same_connector(list@[j].name@, wanted));
            }
        }
    }
}

/// Which output is primary, and in which order the outputs come, matters only through the
/// connector of the primary one.
pub proof fn law_primary_depends_on_the_connector(
    srv: &DrmServer,
    a: &Displays,
    b: &Displays,
    ra: usize,
    rb: usize,
)
    requires
        call_ensures(get_primary_index, (srv, a), ra),
        call_ensures(get_primary_index, (srv, b), rb),
        a.primary < a.displays@.len(),
        b.primary < b.displays@.len(),
        same_connector(a.displays@[a.primary as int].name@, b.displays@[b.primary as int].name@),
    ensures
        ra == rb,
{
    if let ProbeState::Available(list) = srv.state {
        law_primary_is_the_compositors(srv, a, list, ra);
        law_primary_is_the_compositors(srv, b, list, rb);
        let wa = a.displays@[a.primary as int].name@;
        let wb = b.displays@[b.primary as int].name@;
        assert forall|k: int| same_connector(#[trigger] list@[k].name@, wa) == same_connector(
            list@[k].name@,
            wb,
        ) by {}
        if exists|k: int| 0 <= k < list@.len() && #[trigger] same_connector(list@[k].name@, wa) {
            let k = choose|k: int|
                0 <= k < list@.len() && #[trigger] same_connector(list@[k].name@, wa);
            assert(same_connector(list@[k].name@, wb));
            assert(same_connector(list@[ra as int].name@, wb));
            assert(same_connector(list@[rb as int].name@, wa));
        } else {
            assert forall|k: int| 0 <= k < list@.len() implies !#[trigger] same_connector(
                list@[k].name@,
                wb,
            ) by {
                assert(!same_connector(list@[k].name@, wa));
            }
        }
    }
}

/// Whether an output has the physical size of a display.
pub open spec fn of_size(w: WaylandDisplayInfo, d: DrmDisplayInfo) -> bool {
    w.width == d.width as i32 && w.height == d.height as i32
}

/// The output of a display is the first one of the same connector. Only where there is none is
/// it one of the same size, and only if no second output has that size.
pub proof fn law_output_of_a_display(
    d: &DrmDisplayInfo,
    wl: &Vec<WaylandDisplayInfo>,
    r: Option<&WaylandDisplayInfo>,
)
    requires
        call_ensures(match_wayland_display, (d, wl), r),
    ensures
        match r {
            Some(w) => exists|i: int|
                0 <= i < wl@.len() && *w == #[trigger] wl@[i] && ({
                    ||| same_connector(w.name@, d.name@) && forall|j: int|
                        0 <= j < i ==> !same_connector(#[trigger] wl@[j].name@, d.name@)
                    ||| of_size(*w, *d) && (forall|j: int|
                        0 <= j < wl@.len() ==> !same_connector(#[trigger] wl@[j].name@, d.name@))
                        && forall|j: int|
                        0 <= j < wl@.len() && j != i ==> !of_size(#[trigger] wl@[j], *d)
                }),
            None => {
                &&& forall|j: int|
                    0 <= j < wl@.len() ==> !same_connector(#[trigger] wl@[j].name@, d.name@)
                &&& forall|i: int|
                    0 <= i < wl@.len() && of_size(#[trigger] wl@[i], *d) ==> exists|j: int|
                        0 <= j < wl@.len() && j != i && of_size(#[trigger] wl@[j], *d)
            },
        },
{
    let p = crate::drm_capturer::layout::of_name(d.name@);
    let q = crate::drm_capturer::layout::same_size(*d);
    crate::common::lemma_find_first_none(wl@, p);
    assert forall|j: int| 0 <= j < wl@.len() implies p(#[trigger] wl@[j]) == same_connector(
        wl@[j].name@,
        d.name@,
    ) && q(wl@[j]) == of_size(wl@[j], *d) by {}
    match crate::common::find_first(wl@, p) {
        Some(i) => {
            assert(p(wl@[i]));
            assert forall|j: int| 0 <= j < i implies !same_connector(
                #[trigger] wl@[j].name@,
                d.name@,
            ) by {
                assert(!p(wl@[j]));
            }
            assert(*r->0 == wl@[i]);
        },
        None => {
            assert forall|j: int| 0 <= j < wl@.len() implies !same_connector(
                #[trigger] wl@[j].name@,
                d.name@,
            ) by {
                assert(!p(wl@[j]));
            }
            match crate::drm_capturer::layout::find_only(wl@, q) {
                Some(i) => {
                    let k = choose|k: int| crate::drm_capturer::layout::is_only(wl@, q, k);
                    assert(crate::drm_capturer::layout::is_only(wl@, q, k));
                    assert(i == k);
                    assert(q(wl@[i]));
                    assert forall|j: int| 0 <= j < wl@.len() && j != i implies !of_size(
                        #[trigger] wl@[j],
                        *d,
                    ) by {
                        assert(q(wl@[j]) == of_size(wl@[j], *d));
                    }
                    assert(*r->0 == wl@[i]);
                },
                None => {
                    assert forall|i: int| 0 <= i < wl@.len() && of_size(#[trigger] wl@[i], *d) implies
                        exists|j: int|
                        0 <= j < wl@.len() && j != i && of_size(#[trigger] wl@[j], *d) by {
                        assert(q(wl@[i]));
                        assert(!crate::drm_capturer::layout::is_only(wl@, q, i));
                        let j = choose|j: int| 0 <= j < wl@.len() && q(#[trigger] wl@[j]) && j != i;
                        assert(of_size(wl@[j], *d));
                    }
                },
            }
        },
    }
}

/// What the service says of a display, unchanged.
pub open spec fn describes(v: DisplayInfo, d: DrmDisplayInfo) -> bool {
    &&& v.name@ == d.name@
    &&& v.width == d.width as i32
    &&& v.height == d.height as i32
    &&& v.online == d.active
    &&& !v.cursor_embedded
}

/// Whether a display lies where the service says, in physical pixels.
pub open spec fn lies_by_itself(v: DisplayInfo, d: DrmDisplayInfo) -> bool {
    &&& v.x == d.x
    &&& v.y == d.y
    &&& v.original_size == (d.width as usize, d.height as usize)
    &&& (v.scale matches Scale::Ratio { num, den } && num == 1 && den == 1)
}

/// Whether a display lies where an output does, with the output's logical size.
pub open spec fn lies_at(v: DisplayInfo, d: DrmDisplayInfo, w: WaylandDisplayInfo) -> bool {
    &&& v.x == w.x
    &&& v.y == w.y
    &&& match w.logical_size {
        Some(size) if size.0 > 0 && size.1 > 0 => {
            &&& v.original_size == (size.0 as usize, size.1 as usize)
            &&& (v.scale matches Scale::Ratio { num, den } && num == d.width && den == size.0)
        },
        _ => {
            &&& v.original_size == (d.width as usize, d.height as usize)
            &&& (v.scale matches Scale::Ratio { num, den } && num == 1 && den == 1)
        },
    }
}

/// A display on its own is described as the service describes it.
pub proof fn law_display_on_its_own(d: &DrmDisplayInfo, v: DisplayInfo)
    requires
        call_ensures(display_info_from_drm, (d,), v),
    ensures
        describes(v, *d),
        lies_by_itself(v, *d),
{
}

/// Every display of the service is shown, in the order of the list. Among several displays and
/// several outputs it lies where its output does, if it has one; else it lies by itself.
pub proof fn law_displays_are_placed(
    srv: &DrmServer,
    wl: &Displays,
    list: Vec<DrmDisplayInfo>,
    r: Option<Vec<DisplayInfo>>,
    i: int,
    output: Option<&WaylandDisplayInfo>,
)
    requires
        call_ensures(get_display_infos, (srv, wl), r),
        srv.state == ProbeState::Available(list),
        0 <= i < list@.len(),
        call_ensures(match_wayland_display, (&list@[i], &wl.displays), output),
    ensures
        r matches Some(v) && {
            &&& v@.len() == list@.len()
            &&& describes(v@[i], list@[i])
            &&& list@.len() >= 2 && wl.displays@.len() >= 2 ==> match output {
                Some(w) => lies_at(v@[i], list@[i], *w),
                None => lies_by_itself(v@[i], list@[i]),
            }
            &&& list@.len() < 2 || wl.displays@.len() < 2 ==> lies_by_itself(v@[i], list@[i])
        },
{
    let v = r->0;
    let views = crate::drm_capturer::layout::info_views(v@);
    assert(views.len() == list@.len());
    assert(views[i] == v@[i]@);
    assert(views[i] == crate::drm_capturer::layout::layout(list@, wl.displays@)[i]);
}

/// No displays are shown, and none is picked, until the service is known to offer some.
pub proof fn law_nothing_before_an_answer(
    srv: &DrmServer,
    wl: &Displays,
    shown: Option<Vec<DisplayInfo>>,
    at: usize,
)
    requires
        !(srv.state is Available),
        call_ensures(get_display_infos, (srv, wl), shown),
        call_ensures(get_primary_index, (srv, wl), at),
    ensures
        shown is None,
        at == 0,
{
}

/// Whether a character is one of the 52 letters of ASCII, by its number.
pub open spec fn ascii_letter(c: char) -> bool {
    65 <= c as int <= 90 || 97 <= c as int <= 122
}

/// The form in which names are compared leaves out a single letter between two parts, and that
/// only: "HDMI-A-1" becomes "HDMI-1".
pub proof fn law_single_letter_is_left_out(
    name: &str,
    kind: Seq<char>,
    letter: char,
    index: Seq<char>,
    r: String,
)
    requires
        call_ensures(normalize_connector, (name,), r),
        !kind.contains('-'),
        !index.contains('-'),
        ascii_letter(letter),
        name@ == kind + seq!['-'] + (seq![letter] + seq!['-'] + index),
    ensures
        r@ == kind + seq!['-'] + index,
{
    assert(crate::drm_capturer::layout::is_letter(letter));
    crate::drm_capturer::layout::lemma_letter_is_dropped(kind, letter, index);
}

/// How many dashes a text has.
pub open spec fn dashes(s: Seq<char>) -> nat
    decreases s.len(),
{
    if s.len() == 0 {
        0
    } else {
        dashes(s.drop_last()) + (if s.last() == '-' {
            1nat
        } else {
            0
        })
    }
}

proof fn lemma_dashes_split(a: Seq<char>, b: Seq<char>)
    ensures
        dashes(a + b) == dashes(a) + dashes(b),
    decreases b.len(),
{
    if b.len() == 0 {
        assert(a + b =~= a);
    } else {
        lemma_dashes_split(a, b.drop_last());
        assert((a + b).drop_last() =~= a + b.drop_last());
    }
}

proof fn lemma_no_dashes(a: Seq<char>)
    ensures
        dashes(a) == 0 <==> !a.contains('-'),
    decreases a.len(),
{
    if a.len() > 0 {
        lemma_no_dashes(a.drop_last());
        if a.contains('-') {
            let i = choose|i: int| 0 <= i < a.len() && a[i] == '-';
            if i < a.len() - 1 {
                assert(a.drop_last()[i] == '-');
            }
        }
        if a.drop_last().contains('-') {
            let i = choose|i: int| 0 <= i < a.len() - 1 && a.drop_last()[i] == '-';
            assert(a[i] == '-');
        }
        assert(a.last() == a[a.len() - 1]);
    }
}

/// A text has one segment more than it has dashes.
proof fn lemma_segment_count(s: Seq<char>)
    ensures
        crate::text::segments(s).len() == dashes(s) + 1,
    decreases s.len(),
{
    crate::text::lemma_first_dash(s);
    let i = crate::text::first_dash(s);
    if i >= s.len() {
        if s.contains('-') {
            let j = choose|j: int| 0 <= j < s.len() && s[j] == '-';
            assert(s[j] != '-');
        }
        lemma_no_dashes(s);
    } else {
        lemma_segment_count(s.skip(i + 1));
        let head = s.take(i);
        if head.contains('-') {
            let j = choose|j: int| 0 <= j < head.len() && head[j] == '-';
            assert(s[j] != '-');
        }
        lemma_no_dashes(head);
        assert(s =~= (head + seq!['-']) + s.skip(i + 1));
        lemma_dashes_split(head + seq!['-'], s.skip(i + 1));
        lemma_dashes_split(head, seq!['-']);
        assert(dashes(seq!['-']) == 1) by {
            reveal_with_fuel(dashes, 2);
            assert(seq!['-'].drop_last() =~= Seq::empty());
        }
    }
}

/// A name without exactly two dashes is compared as it is.
pub proof fn law_other_names_stay(name: &str, r: String)
    requires
        call_ensures(normalize_connector, (name,), r),
        dashes(name@) != 2,
    ensures
        r@ == name@,
{
    lemma_segment_count(name@);
}

/// A name of three parts whose middle one is no single letter is compared as it is: "DP-1-2"
/// stays, and so does "DP-MST-1".
pub proof fn law_middle_part_stays(
    name: &str,
    kind: Seq<char>,
    middle: Seq<char>,
    index: Seq<char>,
    r: String,
)
    requires
        call_ensures(normalize_connector, (name,), r),
        !kind.contains('-'),
        !middle.contains('-'),
        !index.contains('-'),
        middle.len() != 1 || !ascii_letter(middle[0]),
        name@ == kind + seq!['-'] + (middle + seq!['-'] + index),
    ensures
        r@ == name@,
{
    crate::drm::connector::lemma_split_off(kind, middle + seq!['-'] + index);
    crate::drm::connector::lemma_split_off(middle, index);
    crate::drm::connector::lemma_one_segment(index);
    assert(seq![kind] + (seq![middle] + seq![index]) =~= seq![kind, middle, index]);
}

} // verus!
