//! The displays as clients see them. The service knows only physical sizes, so the place of a
//! display on the desktop comes from the compositor.

use crate::common::Scale;
use crate::drm_capturer::availability::{DrmServer, ProbeState};
use crate::ipc::DrmDisplayInfo;
use crate::wayland::{Displays, WaylandDisplayInfo};
use vstd::prelude::*;
use vstd::string::*;

verus! {

/// A display as a client sees it.
#[derive(Debug)]
pub struct DisplayInfo {
    pub x: i32,
    pub y: i32,
    pub width: i32,
    pub height: i32,
    pub name: String,
    pub online: bool,
    pub cursor_embedded: bool,
    /// The size under which the display's original resolution is looked up.
    pub original_size: (usize, usize),
    pub scale: Scale,
}

/// The contents of a display as a client sees it.
pub struct InfoView {
    pub x: i32,
    pub y: i32,
    pub width: i32,
    pub height: i32,
    pub name: Seq<char>,
    pub online: bool,
    pub cursor_embedded: bool,
    pub original_size: (usize, usize),
    pub scale: Scale,
}

impl View for DisplayInfo {
    type V = InfoView;

    open spec fn view(&self) -> InfoView {
        InfoView {
            x: self.x,
            y: self.y,
            width: self.width,
            height: self.height,
            name: self.name@,
            online: self.online,
            cursor_embedded: self.cursor_embedded,
            original_size: self.original_size,
            scale: self.scale,
        }
    }
}

/// Whether a character is a letter of ASCII.
pub open spec fn is_letter(c: char) -> bool {
    ('a' <= c && c <= 'z') || ('A' <= c && c <= 'Z')
}

/// Whether a part of a name is a sub-type: a single letter.
pub open spec fn is_subtype(part: Seq<char>) -> bool {
    part.len() == 1 && is_letter(part[0])
}

/// The name without the one-letter sub-type that the kernel puts between type and index
/// ("HDMI-A-1" is "HDMI-1"); any other name as it is, "DP-1-2" among them.
pub open spec fn short_name(name: Seq<char>) -> Seq<char> {
    let parts = crate::text::segments(name);
    if parts.len() == 3 && is_subtype(parts[1]) {
        parts[0] + seq!['-'] + parts[2]
    } else {
        name
    }
}

fn letter(c: char) -> (r: bool)
    ensures
        r == is_letter(c),
{
    ('a' <= c && c <= 'z') || ('A' <= c && c <= 'Z')
}

/// Brings a connector name into the form in which it is compared.
pub fn normalize_connector(name: &str) -> (r: String)
    ensures
        r@ == short_name(name@),
{
    let ranges = crate::text::segment_ranges(name);
    if ranges.len() == 3 {
        let ghost parts = crate::text::segments(name@);
        let (from, to): (usize, usize) = ranges[1];
        assert(crate::text::stretch(name@, ranges@[1]) == parts[1]);
        if to - from == 1 && letter(name.get_char(from)) {
            let (from0, to0): (usize, usize) = ranges[0];
            let (from2, to2): (usize, usize) = ranges[2];
            proof {
                reveal_strlit("-");
                assert("-"@ =~= seq!['-']);
                assert(crate::text::stretch(name@, ranges@[0]) == parts[0]);
                assert(crate::text::stretch(name@, ranges@[2]) == parts[2]);
            }
            let mut out: String = name.substring_char(from0, to0).to_owned();
            out.append("-");
            out.append(name.substring_char(from2, to2));
            return out;
        }
    }
    name.to_owned()
}

/// Whether an output has the size of a display.
pub open spec fn same_size(d: DrmDisplayInfo) -> spec_fn(WaylandDisplayInfo) -> bool {
    |w: WaylandDisplayInfo| w.width == d.width as i32 && w.height == d.height as i32
}

/// Whether an output is of a certain short name.
pub open spec fn of_name(name: Seq<char>) -> spec_fn(WaylandDisplayInfo) -> bool {
    |w: WaylandDisplayInfo| short_name(w.name@) == short_name(name)
}

/// `i` is the only position of `s` that satisfies `p`.
pub open spec fn is_only<T>(s: Seq<T>, p: spec_fn(T) -> bool, i: int) -> bool {
    &&& 0 <= i < s.len()
    &&& p(s[i])
    &&& forall|j: int| 0 <= j < s.len() && p(#[trigger] s[j]) ==> j == i
}

/// The only position of `s` that satisfies `p`, if there is exactly one.
pub open spec fn find_only<T>(s: Seq<T>, p: spec_fn(T) -> bool) -> Option<int> {
    if exists|i: int| is_only(s, p, i) {
        Some(choose|i: int| is_only(s, p, i))
    } else {
        None
    }
}

/// The output of a display: the first of the same name, else the only one of the same size.
pub open spec fn matched_output(d: DrmDisplayInfo, wl: Seq<WaylandDisplayInfo>) -> Option<int> {
    match crate::common::find_first(wl, of_name(d.name@)) {
        Some(i) => Some(i),
        None => find_only(wl, same_size(d)),
    }
}

/// A display on its own: at the place and of the size that the service gives, not scaled.
pub open spec fn info_of(d: DrmDisplayInfo) -> InfoView {
    InfoView {
        x: d.x,
        y: d.y,
        width: d.width as i32,
        height: d.height as i32,
        name: d.name@,
        online: d.active,
        cursor_embedded: false,
        original_size: (d.width as usize, d.height as usize),
        scale: Scale::one(),
    }
}

/// A display where the compositor puts it.
pub open spec fn placed(d: DrmDisplayInfo, w: WaylandDisplayInfo) -> InfoView {
    let info = InfoView { x: w.x, y: w.y, ..info_of(d) };
    match w.logical_size {
        Some((lw, lh)) => if lw > 0 && lh > 0 {
            InfoView {
                scale: Scale::Ratio { num: d.width as u64, den: lw as u64 },
                original_size: (lw as usize, lh as usize),
                ..info
            }
        } else {
            info
        },
        None => info,
    }
}

/// A display among several: where the compositor puts it, if it knows the display.
pub open spec fn augmented(
    d: DrmDisplayInfo,
    wl: Seq<WaylandDisplayInfo>,
    multi: bool,
) -> InfoView {
    if multi {
        match matched_output(d, wl) {
            Some(i) => placed(d, wl[i]),
            None => info_of(d),
        }
    } else {
        info_of(d)
    }
}

/// A list of displays as their contents.
pub open spec fn info_views(v: Seq<DisplayInfo>) -> Seq<InfoView> {
    Seq::new(v.len(), |i: int| v[i]@)
}

/// The displays of the service as clients see them. A single display needs no placing.
pub open spec fn layout(drm: Seq<DrmDisplayInfo>, wl: Seq<WaylandDisplayInfo>) -> Seq<InfoView> {
    Seq::new(drm.len(), |i: int| augmented(drm[i], wl, drm.len() > 1 && wl.len() > 1))
}

/// The compositor output of a display, if it is known.
pub fn match_wayland_display<'a>(d: &DrmDisplayInfo, wl: &'a Vec<WaylandDisplayInfo>) -> (r:
    Option<&'a WaylandDisplayInfo>)
    ensures
        match r {
            Some(w) => matched_output(*d, wl@) matches Some(i) && 0 <= i < wl@.len() && *w
                == wl@[i],
            None => matched_output(*d, wl@) is None,
        },
{
    let wanted: String = normalize_connector(d.name.as_str());
    let ghost p = of_name(d.name@);
    let ghost q = same_size(*d);
    let mut i: usize = 0;
    while i < wl.len()
        invariant
            i <= wl@.len(),
            wanted@ == short_name(d.name@),
            p == of_name(d.name@),
            forall|j: int| 0 <= j < i ==> !p(#[trigger] wl@[j]),
        decreases wl@.len() - i,
    {
        let name: String = normalize_connector(wl[i].name.as_str());
        if name == wanted {
            proof {
                crate::common::lemma_find_first_some(wl@, p, i as int);
            }
            return Some(&wl[i]);
        }
        i = i + 1;
    }
    proof {
        crate::common::lemma_find_first_none(wl@, p);
    }
    let mut found: Option<usize> = None;
    let mut many: bool = false;
    let mut k: usize = 0;
    while k < wl.len()
        invariant
            k <= wl@.len(),
            q == same_size(*d),
            match found {
                Some(a) => a < k && q(wl@[a as int]) && (!many ==> forall|j: int|
                    0 <= j < k && q(#[trigger] wl@[j]) ==> j == a),
                None => !many && forall|j: int| 0 <= j < k ==> !q(#[trigger] wl@[j]),
            },
            many ==> exists|a: int, b: int|
                0 <= a < b < k && q(#[trigger] wl@[a]) && q(#[trigger] wl@[b]),
        decreases wl@.len() - k,
    {
        if wl[k].width == d.width as i32 && wl[k].height == d.height as i32 {
            assert(q(wl@[k as int]));
            if found.is_some() {
                assert(exists|a: int, b: int|
                    0 <= a < b < k + 1 && q(#[trigger] wl@[a]) && q(#[trigger] wl@[b])) by {
                    let a = found->0 as int;
                    assert(q(wl@[a]) && q(wl@[k as int]));
                }
                many = true;
            } else {
                found = Some(k);
            }
        }
        k = k + 1;
    }
    match found {
        Some(a) => {
            if many {
                proof {
                    lemma_not_only(wl@, q);
                }
                None
            } else {
                proof {
                    lemma_only(wl@, q, a as int);
                }
                Some(&wl[a])
            }
        },
        None => {
            proof {
                assert forall|x: int| !is_only(wl@, q, x) by {
                    if is_only(wl@, q, x) {
                        assert(!q(wl@[x]));
                    }
                }
            }
            None
        },
    }
}

proof fn lemma_only<T>(s: Seq<T>, p: spec_fn(T) -> bool, i: int)
    requires
        is_only(s, p, i),
    ensures
        find_only(s, p) == Some(i),
{
    let k = choose|k: int| is_only(s, p, k);
    assert(is_only(s, p, k));
    assert(p(s[i]));
}

proof fn lemma_not_only<T>(s: Seq<T>, p: spec_fn(T) -> bool)
    requires
        exists|a: int, b: int| 0 <= a < b < s.len() && p(#[trigger] s[a]) && p(#[trigger] s[b]),
    ensures
        find_only(s, p) is None,
{
    let (a, b) = choose|a: int, b: int|
        0 <= a < b < s.len() && p(#[trigger] s[a]) && p(#[trigger] s[b]);
    assert forall|x: int| !is_only(s, p, x) by {
        if is_only(s, p, x) {
            assert(p(s[a]) && p(s[b]));
        }
    }
}

/// A display on its own, as a client sees it.
pub fn display_info_from_drm(d: &DrmDisplayInfo) -> (r: DisplayInfo)
    ensures
        r@ == info_of(*d),
{
    DisplayInfo {
        x: d.x,
        y: d.y,
        width: d.width as i32,
        height: d.height as i32,
        name: d.name.clone(),
        online: d.active,
        cursor_embedded: false,
        original_size: (d.width as usize, d.height as usize),
        scale: Scale::unscaled(),
    }
}

/// The displays of the service where the compositor puts them.
pub fn augment_with_wayland_geometry(
    drm: &Vec<DrmDisplayInfo>,
    wl: &Vec<WaylandDisplayInfo>,
) -> (r: Vec<DisplayInfo>)
    ensures
        info_views(r@) == layout(drm@, wl@),
{
    let multi: bool = drm.len() > 1 && wl.len() > 1;
    let mut out: Vec<DisplayInfo> = Vec::new();
    let mut i: usize = 0;
    while i < drm.len()
        invariant
            i <= drm@.len(),
            multi == (drm@.len() > 1 && wl@.len() > 1),
            out@.len() == i,
            forall|j: int| 0 <= j < i ==> (#[trigger] out@[j])@ == augmented(drm@[j], wl@, multi),
        decreases drm@.len() - i,
    {
        let d = &drm[i];
        let mut info = display_info_from_drm(d);
        if multi {
            if let Some(w) = match_wayland_display(d, wl) {
                info.x = w.x;
                info.y = w.y;
                if let Some((lw, lh)) = w.logical_size {
                    if lw > 0 && lh > 0 {
                        info.scale = Scale::Ratio { num: d.width as u64, den: lw as u64 };
                        info.original_size = (lw as usize, lh as usize);
                    }
                }
            }
        }
        out.push(info);
        i = i + 1;
    }
    assert(info_views(out@) =~= layout(drm@, wl@));
    out
}

/// The displays as clients see them, if the service is known to offer any.
pub fn get_display_infos(srv: &DrmServer, wl: &Displays) -> (r: Option<Vec<DisplayInfo>>)
    ensures
        match srv.state {
            ProbeState::Available(list) => r matches Some(v) && info_views(v@) == layout(
                list@,
                wl.displays@,
            ),
            _ => r is None,
        },
{
    match &srv.state {
        ProbeState::Available(list) => Some(augment_with_wayland_geometry(list, &wl.displays)),
        _ => None,
    }
}

/// Whether a display of the service is of a certain short name.
pub open spec fn drm_of_name(name: Seq<char>) -> spec_fn(DrmDisplayInfo) -> bool {
    |d: DrmDisplayInfo| short_name(d.name@) == short_name(name)
}

/// The position of the compositor's primary output among the displays of the service, or 0
/// where it is unknown.
pub open spec fn primary_position(list: Seq<DrmDisplayInfo>, wl: Displays) -> int {
    if wl.primary < wl.displays@.len() {
        match crate::common::find_first(
            list,
            drm_of_name(wl.displays@[wl.primary as int].name@),
        ) {
            Some(i) => i,
            None => 0,
        }
    } else {
        0
    }
}

/// The position of the compositor's primary output among the displays of the service. The
/// order of the connectors says nothing about it.
pub fn get_primary_index(srv: &DrmServer, wl: &Displays) -> (r: usize)
    ensures
        r == match srv.state {
            ProbeState::Available(list) => primary_position(list@, *wl),
            _ => 0,
        },
{
    let list = match &srv.state {
        ProbeState::Available(list) => list,
        _ => {
            return 0;
        },
    };
    if wl.primary < wl.displays.len() {
        let wanted: String = normalize_connector(wl.displays[wl.primary].name.as_str());
        let ghost p = drm_of_name(wl.displays@[wl.primary as int].name@);
        let mut i: usize = 0;
        while i < list.len()
            invariant
                i <= list@.len(),
                wl.primary < wl.displays@.len(),
                srv.state == ProbeState::Available(*list),
                wanted@ == short_name(wl.displays@[wl.primary as int].name@),
                p == drm_of_name(wl.displays@[wl.primary as int].name@),
                forall|j: int| 0 <= j < i ==> !p(#[trigger] list@[j]),
            decreases list@.len() - i,
        {
            let name: String = normalize_connector(list[i].name.as_str());
            if name == wanted {
                proof {
                    crate::common::lemma_find_first_some(list@, p, i as int);
                }
                return i;
            }
            i = i + 1;
        }
        proof {
            crate::common::lemma_find_first_none(list@, p);
        }
    }
    0
}

/// A one-letter sub-type is dropped: "HDMI-A-1" and "HDMI-1" compare equal.
pub proof fn lemma_letter_is_dropped(kind: Seq<char>, letter: char, index: Seq<char>)
    requires
        !kind.contains('-'),
        !index.contains('-'),
        is_letter(letter),
    ensures
        short_name(kind + seq!['-'] + (seq![letter] + seq!['-'] + index)) == kind + seq!['-']
            + index,
        short_name(kind + seq!['-'] + index) == kind + seq!['-'] + index,
{
    let mid = seq![letter];
    assert(!mid.contains('-'));
    crate::drm::connector::lemma_split_off(kind, mid + seq!['-'] + index);
    crate::drm::connector::lemma_split_off(mid, index);
    crate::drm::connector::lemma_split_off(kind, index);
    crate::drm::connector::lemma_one_segment(index);
    assert(seq![kind] + (seq![mid] + seq![index]) =~= seq![kind, mid, index]);
    assert(seq![kind] + seq![index] =~= seq![kind, index]);
}

/// Shortening twice is shortening once.
pub proof fn lemma_short_name_idempotent(name: Seq<char>)
    ensures
        short_name(short_name(name)) == short_name(name),
{
    let parts = crate::text::segments(name);
    if parts.len() == 3 && is_subtype(parts[1]) {
        crate::drm::connector::lemma_segments_inside(name);
        assert forall|k: int| 0 <= k < 3 implies !(#[trigger] parts[k]).contains('-') by {
            if parts[k].contains('-') {
                let j = choose|j: int| 0 <= j < parts[k].len() && parts[k][j] == '-';
                assert(parts[k][j] != '-');
            }
        }
        crate::drm::connector::lemma_split_off(parts[0], parts[2]);
        crate::drm::connector::lemma_one_segment(parts[2]);
    }
}

/// The output of a display is an output of the compositor: one of the same short name, or,
/// where there is none of that name, the only one of the same size.
pub proof fn lemma_matched_output(d: DrmDisplayInfo, wl: Seq<WaylandDisplayInfo>)
    ensures
        matched_output(d, wl) matches Some(i) ==> {
            &&& 0 <= i < wl.len()
            &&& short_name(wl[i].name@) == short_name(d.name@) || (is_only(wl, same_size(d), i)
                && forall|j: int|
                0 <= j < wl.len() ==> short_name(#[trigger] wl[j].name@) != short_name(d.name@))
        },
{
    let p = of_name(d.name@);
    crate::common::lemma_find_first_none(wl, p);
    if let Some(i) = crate::common::find_first(wl, p) {
        assert(p(wl[i]));
    } else {
        assert forall|j: int| 0 <= j < wl.len() implies short_name(#[trigger] wl[j].name@)
            != short_name(d.name@) by {
            assert(!p(wl[j]));
        }
    }
}

/// Placing a display moves and scales it, and changes nothing else. It happens only among
/// several displays and several outputs.
pub proof fn lemma_layout(drm: Seq<DrmDisplayInfo>, wl: Seq<WaylandDisplayInfo>, i: int)
    requires
        0 <= i < drm.len(),
    ensures
        layout(drm, wl).len() == drm.len(),
        layout(drm, wl)[i].name == drm[i].name@,
        layout(drm, wl)[i].width == drm[i].width as i32,
        layout(drm, wl)[i].height == drm[i].height as i32,
        layout(drm, wl)[i].online == drm[i].active,
        !layout(drm, wl)[i].cursor_embedded,
        layout(drm, wl)[i].scale matches Scale::Ratio { num, den } && den > 0,
        drm.len() <= 1 || wl.len() <= 1 || matched_output(drm[i], wl) is None ==> layout(
            drm,
            wl,
        )[i] == info_of(drm[i]),
{
}

/// The primary position is one of the list, if the list has any.
pub proof fn lemma_primary_position(list: Seq<DrmDisplayInfo>, wl: Displays)
    ensures
        primary_position(list, wl) >= 0,
        list.len() > 0 ==> primary_position(list, wl) < list.len(),
{
    if wl.primary < wl.displays@.len() {
        crate::common::lemma_find_first_none(
            list,
            drm_of_name(wl.displays@[wl.primary as int].name@),
        );
    }
}

} // verus!
