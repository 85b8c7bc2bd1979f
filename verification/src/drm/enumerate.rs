//! Enumeration: from a listing of connectors to the displays that are offered.

use crate::common::{ErrorKind, IoError, Scale};
use crate::drm::display::{
    logical_geometry_for, match_connector, Display, DisplayView, Listing, RawDisplay,
};
use crate::drm::state::{
    is_bad_crtc, reset_bad_crtcs_on_topology_change, CrtcKey, DrmState, StateView,
};
use crate::wayland::WaylandDisplayInfo;
use vstd::prelude::*;

verus! {

/// The bytes before the first zero byte.
pub open spec fn c_text(name: Seq<u8>) -> Seq<u8> {
    match crate::common::find_first(name, |b: u8| b == 0) {
        Some(i) => name.take(i),
        None => name,
    }
}

/// The name of a connector.
pub open spec fn raw_name(r: RawDisplay) -> Seq<char> {
    crate::text::utf8_lossy_of(c_text(r.name@))
}

/// Whether the name of a connector is the text that its bytes encode, if they are UTF-8.
pub open spec fn name_decoded(r: RawDisplay) -> bool {
    vstd::utf8::valid_utf8(c_text(r.name@)) ==> raw_name(r) == vstd::utf8::decode_utf8(
        c_text(r.name@),
    )
}

/// Whether that holds of the name of every connector that an enumeration captures.
pub open spec fn names_decoded(listing: Option<Listing>) -> bool {
    match listing {
        Some(l) => l.found > 0 ==> forall|k: int|
            0 <= k < chosen(listed(l.found as int, l.entries@)).len() ==> name_decoded(
                #[trigger] chosen(listed(l.found as int, l.entries@))[k],
            ),
        None => true,
    }
}

/// The display of a connector.
pub open spec fn display_of(r: RawDisplay, outputs: Seq<WaylandDisplayInfo>) -> DisplayView {
    let name = raw_name(r);
    let g = crate::drm::display::logical_geometry(
        outputs,
        name,
        r.x as i32,
        r.y as i32,
        r.width as usize,
        r.height as usize,
    );
    DisplayView {
        name,
        x: g.x,
        y: g.y,
        w: r.width as usize,
        h: r.height as usize,
        logical_w: g.w,
        logical_h: g.h,
        scale: g.scale,
        crtc_id: r.crtc_id,
        primary: false,
    }
}

/// The entries that were filled in.
pub open spec fn listed(found: int, entries: Seq<RawDisplay>) -> Seq<RawDisplay> {
    if found < entries.len() {
        entries.take(found)
    } else {
        entries
    }
}

/// The connectors that are captured: those that scan out, or all of them where the driver
/// flags none.
pub open spec fn chosen(entries: Seq<RawDisplay>) -> Seq<RawDisplay> {
    let active = entries.filter(|r: RawDisplay| r.active != 0);
    if active.len() == 0 {
        entries
    } else {
        active
    }
}

/// The displays of some connectors.
pub open spec fn displays_of(
    entries: Seq<RawDisplay>,
    outputs: Seq<WaylandDisplayInfo>,
) -> Seq<DisplayView> {
    Seq::new(entries.len(), |i: int| display_of(entries[i], outputs))
}

/// What identifies a display.
pub open spec fn key_of(d: DisplayView) -> CrtcKey {
    (d.name, d.crtc_id)
}

/// The outputs of an enumeration.
pub open spec fn topology(displays: Seq<DisplayView>) -> Seq<CrtcKey> {
    Seq::new(displays.len(), |i: int| key_of(displays[i]))
}

/// The displays that are not known to be ungrabbable.
pub open spec fn grabbable(displays: Seq<DisplayView>, bad: Seq<CrtcKey>) -> Seq<DisplayView> {
    displays.filter(|d: DisplayView| !bad.contains(key_of(d)))
}

/// The names of some displays.
pub open spec fn display_names(displays: Seq<DisplayView>) -> Seq<Seq<char>> {
    Seq::new(displays.len(), |i: int| displays[i].name)
}

/// The position of the compositor's primary output, or 0 where it is unknown.
pub open spec fn primary_index(displays: Seq<DisplayView>, primary: Option<Seq<char>>) -> int {
    match primary {
        Some(name) => match crate::drm::display::matched(display_names(displays), name) {
            Some(i) => i,
            None => 0,
        },
        None => 0,
    }
}

/// The displays with one of them marked as the primary one.
pub open spec fn with_primary(displays: Seq<DisplayView>, i: int) -> Seq<DisplayView> {
    displays.update(i, DisplayView { primary: true, ..displays[i] })
}

/// The displays that the outputs of an opened device give, before any is dropped.
pub open spec fn candidates(
    found: int,
    entries: Seq<RawDisplay>,
    outputs: Seq<WaylandDisplayInfo>,
) -> Seq<DisplayView> {
    displays_of(chosen(listed(found, entries)), outputs)
}

/// The memory after an enumeration.
pub open spec fn state_after(
    s: StateView,
    listing: Option<Listing>,
    outputs: Seq<WaylandDisplayInfo>,
) -> StateView {
    match listing {
        Some(l) => {
            let all = candidates(l.found as int, l.entries@, outputs);
            if l.found <= 0 || all.len() == 0 {
                s
            } else {
                s.seen(topology(all))
            }
        },
        None => s,
    }
}

/// What an enumeration gives.
pub open spec fn enumerated(
    s: StateView,
    listing: Option<Listing>,
    outputs: Seq<WaylandDisplayInfo>,
    primary: Option<Seq<char>>,
) -> Result<Seq<DisplayView>, (ErrorKind, Seq<char>)> {
    match listing {
        None => Err((ErrorKind::NotFound, "drmtap_open failed"@)),
        Some(l) => {
            let all = candidates(l.found as int, l.entries@, outputs);
            let kept = grabbable(all, s.seen(topology(all)).bad_crtcs);
            if l.found <= 0 {
                Err((ErrorKind::NotFound, "No DRM displays found"@))
            } else if all.len() == 0 {
                Err((ErrorKind::NotFound, "No active DRM displays"@))
            } else if kept.len() == 0 {
                Err(
                    (
                        ErrorKind::NotFound,
                        "All DRM CRTCs ungrabbable; falling back to PipeWire"@,
                    ),
                )
            } else {
                Ok(with_primary(kept, primary_index(kept, primary)))
            }
        },
    }
}

/// The listing behind a reference.
pub open spec fn listing_of(listing: Option<&Listing>) -> Option<Listing> {
    match listing {
        Some(l) => Some(*l),
        None => None,
    }
}

/// The text behind a reference.
pub open spec fn text_of(name: Option<&str>) -> Option<Seq<char>> {
    match name {
        Some(n) => Some(n@),
        None => None,
    }
}

/// A list of displays as their contents.
pub open spec fn views(v: Seq<Display>) -> Seq<DisplayView> {
    Seq::new(v.len(), |i: int| v[i]@)
}

/// The outcome of an enumeration as its contents.
pub open spec fn outcome(r: Result<Vec<Display>, IoError>) -> Result<
    Seq<DisplayView>,
    (ErrorKind, Seq<char>),
> {
    match r {
        Ok(v) => Ok(views(v@)),
        Err(e) => Err(e@),
    }
}

fn name_bytes(name: &Vec<u8>) -> (r: Vec<u8>)
    ensures
        r@ == c_text(name@),
{
    let ghost p = |b: u8| b == 0;
    let mut out: Vec<u8> = Vec::new();
    let mut i: usize = 0;
    while i < name.len()
        invariant
            i <= name@.len(),
            p == (|b: u8| b == 0),
            out@ =~= name@.take(i as int),
            forall|j: int| 0 <= j < i ==> !p(#[trigger] name@[j]),
        decreases name@.len() - i,
    {
        if name[i] == 0 {
            proof {
                crate::common::lemma_find_first_some(name@, p, i as int);
            }
            return out;
        }
        out.push(name[i]);
        i = i + 1;
    }
    proof {
        crate::common::lemma_find_first_none(name@, p);
        assert(name@.take(i as int) =~= name@);
    }
    out
}

/// The display of a connector. Its name is the text that the connector's bytes encode.
pub fn display_from_raw(r: &RawDisplay, outputs: &Vec<WaylandDisplayInfo>) -> (d: Display)
    ensures
        d@ == display_of(*r, outputs@),
        vstd::utf8::valid_utf8(c_text(r.name@)) ==> d@.name == vstd::utf8::decode_utf8(
            c_text(r.name@),
        ),
{
    let bytes = name_bytes(&r.name);
    let name: String = crate::text::from_utf8_lossy(bytes.as_slice());
    let w: usize = r.width as usize;
    let h: usize = r.height as usize;
    let g = logical_geometry_for(outputs, name.as_str(), r.x as i32, r.y as i32, w, h);
    Display {
        name,
        x: g.x,
        y: g.y,
        w,
        h,
        logical_w: g.w,
        logical_h: g.h,
        scale: g.scale,
        crtc_id: r.crtc_id,
        primary: false,
    }
}

/// Where every element passes, a filter keeps them all.
proof fn lemma_filter_all<T>(s: Seq<T>, p: spec_fn(T) -> bool)
    requires
        forall|i: int| 0 <= i < s.len() ==> p(#[trigger] s[i]),
    ensures
        s.filter(p) == s,
    decreases s.len(),
{
    reveal(Seq::filter);
    if s.len() > 0 {
        let t = s.drop_last();
        assert forall|i: int| 0 <= i < t.len() implies p(#[trigger] t[i]) by {
            assert(t[i] == s[i]);
        }
        lemma_filter_all(t, p);
        assert(t.push(s.last()) =~= s);
    }
}

/// Filters whose predicates agree keep the same elements.
proof fn lemma_filter_agree<T>(s: Seq<T>, p: spec_fn(T) -> bool, q: spec_fn(T) -> bool)
    requires
        forall|i: int| 0 <= i < s.len() ==> p(#[trigger] s[i]) == q(s[i]),
    ensures
        s.filter(p) == s.filter(q),
    decreases s.len(),
{
    reveal(Seq::filter);
    if s.len() > 0 {
        let t = s.drop_last();
        assert forall|i: int| 0 <= i < t.len() implies p(#[trigger] t[i]) == q(t[i]) by {
            assert(t[i] == s[i]);
        }
        lemma_filter_agree(t, p, q);
        assert(p(s[s.len() - 1]) == q(s.last()));
    }
}

/// Whether any of the first entries scans out.
fn any_active(entries: &Vec<RawDisplay>, count: usize) -> (r: bool)
    requires
        count <= entries@.len(),
    ensures
        r == (entries@.take(count as int).filter(|e: RawDisplay| e.active != 0).len() > 0),
{
    let ghost p = |e: RawDisplay| e.active != 0;
    let ghost list = entries@.take(count as int);
    let mut i: usize = 0;
    while i < count
        invariant
            i <= count <= entries@.len(),
            list == entries@.take(count as int),
            p == (|e: RawDisplay| e.active != 0),
            forall|j: int| 0 <= j < i ==> !p(#[trigger] list[j]),
        decreases count - i,
    {
        if entries[i].active != 0 {
            proof {
                assert(p(list[i as int]));
                assert(list.filter(p).contains(list[i as int])) by {
                    broadcast use vstd::seq_lib::group_filter_ensures;

                }
            }
            return true;
        }
        i = i + 1;
    }
    proof {
        crate::common::lemma_filter_members(list, p);
        if list.filter(p).len() > 0 {
            let e = list.filter(p)[0];
            let k = choose|k: int| 0 <= k < list.len() && list[k] == e;
            assert(!p(list[k]));
        }
    }
    false
}

/// The displays of the connectors that are captured.
fn candidate_displays(
    entries: &Vec<RawDisplay>,
    count: usize,
    outputs: &Vec<WaylandDisplayInfo>,
) -> (r: Vec<Display>)
    requires
        count <= entries@.len(),
    ensures
        views(r@) == displays_of(chosen(entries@.take(count as int)), outputs@),
        forall|k: int|
            0 <= k < chosen(entries@.take(count as int)).len() ==> name_decoded(
                #[trigger] chosen(entries@.take(count as int))[k],
            ),
{
    let some_active = any_active(entries, count);
    let ghost list = entries@.take(count as int);
    let ghost p = |e: RawDisplay| e.active != 0 || !some_active;
    let mut out: Vec<Display> = Vec::new();
    let mut i: usize = 0;
    proof {
        reveal(Seq::filter);
        assert(list.take(0).filter(p) =~= Seq::empty());
        assert(views(out@) =~= displays_of(list.take(0).filter(p), outputs@));
    }
    while i < count
        invariant
            i <= count <= entries@.len(),
            list == entries@.take(count as int),
            p == (|e: RawDisplay| e.active != 0 || !some_active),
            views(out@) == displays_of(list.take(i as int).filter(p), outputs@),
            forall|k: int|
                0 <= k < list.take(i as int).filter(p).len() ==> name_decoded(
                    #[trigger] list.take(i as int).filter(p)[k],
                ),
        decreases count - i,
    {
        let ghost before = out@;
        let ghost prev = list.take(i as int).filter(p);
        proof {
            reveal(Seq::filter);
            assert(list.take(i + 1).drop_last() =~= list.take(i as int));
            assert(list.take(i + 1).last() == list[i as int]);
        }
        if !some_active || entries[i].active != 0 {
            out.push(display_from_raw(&entries[i], outputs));
            proof {
                assert(views(out@) =~= views(before).push(display_of(list[i as int], outputs@)));
                assert(displays_of(prev.push(list[i as int]), outputs@) =~= displays_of(
                    prev,
                    outputs@,
                ).push(display_of(list[i as int], outputs@)));
            }
        }
        i = i + 1;
    }
    proof {
        assert(list.take(i as int) =~= list);
        let active = |e: RawDisplay| e.active != 0;
        if some_active {
            lemma_filter_agree(list, p, active);
        } else {
            lemma_filter_all(list, p);
        }
    }
    out
}

/// Drops the displays that are known to be ungrabbable.
fn retain_grabbable(st: &DrmState, displays: Vec<Display>) -> (r: Vec<Display>)
    ensures
        views(r@) == grabbable(views(displays@), st@.bad_crtcs),
{
    let ghost all = views(displays@);
    let ghost bad = st@.bad_crtcs;
    let ghost p = |d: DisplayView| !bad.contains(key_of(d));
    let ghost mut done: int = 0;
    let mut list: Vec<Display> = displays;
    let mut i: usize = 0;
    proof {
        reveal(Seq::filter);
        assert(all.take(0).filter(p) =~= Seq::empty());
        assert(views(list@.take(0)) =~= all.take(0).filter(p));
        assert(views(list@.skip(0)) =~= all.skip(0));
    }
    while i < list.len()
        invariant
            bad == st@.bad_crtcs,
            p == (|d: DisplayView| !bad.contains(key_of(d))),
            0 <= done <= all.len(),
            i <= list@.len(),
            list@.len() - i == all.len() - done,
            views(list@.take(i as int)) == all.take(done).filter(p),
            views(list@.skip(i as int)) == all.skip(done),
        decreases list@.len() - i,
    {
        let ghost before = list@;
        proof {
            reveal(Seq::filter);
            assert(all.take(done + 1).drop_last() =~= all.take(done));
            assert(all.take(done + 1).last() == all[done]);
            assert(views(before.skip(i as int))[0] == all.skip(done)[0]);
            assert(before[i as int]@ == all[done]);
        }
        if is_bad_crtc(st, list[i].name.as_str(), list[i].crtc_id) {
            list.remove(i);
            proof {
                assert(list@.take(i as int) =~= before.take(i as int));
                assert(list@.skip(i as int) =~= before.skip(i + 1));
            }
        } else {
            proof {
                assert(views(before.take(i + 1)) =~= views(before.take(i as int)).push(
                    before[i as int]@,
                ));
            }
            i = i + 1;
        }
        proof {
            assert forall|k: int| 0 <= k < all.len() - done - 1 implies views(list@.skip(i as int))[k]
                == all.skip(done + 1)[k] by {
                let at = before.len() - (all.len() - done);
                assert(views(before.skip(at))[k + 1] == all.skip(done)[k + 1]);
            }
            assert(views(list@.skip(i as int)) =~= all.skip(done + 1));
            done = done + 1;
        }
    }
    proof {
        assert(list@.take(i as int) =~= list@);
        assert(all.take(done) =~= all);
    }
    list
}

/// The position of the display that is the compositor's primary output, or 0 where that is
/// unknown or matches no connector.
pub fn primary_display_index(displays: &Vec<Display>, primary: Option<&str>) -> (r: usize)
    ensures
        r == primary_index(views(displays@), text_of(primary)),
        displays@.len() > 0 ==> r < displays@.len(),
{
    match primary {
        Some(name) => {
            let mut names: Vec<String> = Vec::new();
            let mut i: usize = 0;
            while i < displays.len()
                invariant
                    i <= displays@.len(),
                    names@.len() == i,
                    forall|j: int| 0 <= j < i ==> (#[trigger] names@[j])@ == displays@[j].name@,
                decreases displays@.len() - i,
            {
                names.push(displays[i].name.clone());
                i = i + 1;
            }
            proof {
                assert(crate::drm::display::texts(names@) =~= display_names(views(displays@)));
                crate::drm::display::lemma_matched_in_range(
                    display_names(views(displays@)),
                    name@,
                );
            }
            let wanted: String = name.to_owned();
            match match_connector(&names, &wanted) {
                Some(k) => k,
                None => 0,
            }
        },
        None => 0,
    }
}

impl Display {
    /// The displays to offer. `listing` is what the device lists, `None` where it could not
    /// be opened; `outputs` and `primary` are what the compositor says. A name in UTF-8 is the
    /// text that its bytes encode.
    pub fn all(
        st: &mut DrmState,
        listing: Option<&Listing>,
        outputs: &Vec<WaylandDisplayInfo>,
        primary: Option<&str>,
    ) -> (r: Result<Vec<Display>, IoError>)
        ensures
            final(st)@ == state_after(old(st)@, listing_of(listing), outputs@),
            outcome(r) == enumerated(
                old(st)@,
                listing_of(listing),
                outputs@,
                text_of(primary),
            ),
            names_decoded(listing_of(listing)),
    {
        let l = match listing {
            Some(l) => l,
            None => {
                return Err(IoError::new(ErrorKind::NotFound, "drmtap_open failed"));
            },
        };
        if l.found <= 0 {
            return Err(IoError::new(ErrorKind::NotFound, "No DRM displays found"));
        }
        let found: usize = l.found as usize;
        let count: usize = if found < l.entries.len() {
            found
        } else {
            l.entries.len()
        };
        assert(l.entries@.take(count as int) =~= listed(l.found as int, l.entries@));
        let displays = candidate_displays(&l.entries, count, outputs);
        if displays.len() == 0 {
            return Err(IoError::new(ErrorKind::NotFound, "No active DRM displays"));
        }
        let mut keys: Vec<(String, u32)> = Vec::new();
        let mut i: usize = 0;
        while i < displays.len()
            invariant
                i <= displays@.len(),
                keys@.len() == i,
                forall|j: int|
                    0 <= j < i ==> (#[trigger] keys@[j]).0@ == displays@[j].name@ && keys@[j].1
                        == displays@[j].crtc_id,
            decreases displays@.len() - i,
        {
            keys.push((displays[i].name.clone(), displays[i].crtc_id));
            i = i + 1;
        }
        assert(crate::drm::state::crtc_keys(keys@) =~= topology(views(displays@)));
        reset_bad_crtcs_on_topology_change(st, keys.as_slice());
        let mut kept = retain_grabbable(st, displays);
        if kept.len() == 0 {
            return Err(
                IoError::new(
                    ErrorKind::NotFound,
                    "All DRM CRTCs ungrabbable; falling back to PipeWire",
                ),
            );
        }
        let at: usize = primary_display_index(&kept, primary);
        let ghost before = kept@;
        kept[at].primary = true;
        assert(views(kept@) =~= with_primary(views(before), at as int));
        Ok(kept)
    }

    /// The primary display: the one so marked.
    pub fn primary(
        st: &mut DrmState,
        listing: Option<&Listing>,
        outputs: &Vec<WaylandDisplayInfo>,
        primary: Option<&str>,
    ) -> (r: Result<Display, IoError>)
        ensures
            final(st)@ == state_after(old(st)@, listing_of(listing), outputs@),
            match enumerated(
                old(st)@,
                listing_of(listing),
                outputs@,
                text_of(primary),
            ) {
                Ok(all) => match r {
                    Ok(d) => d@ == all[marked_index(all)] && d@.primary,
                    Err(_) => false,
                },
                Err(e) => match r {
                    Ok(_) => false,
                    Err(f) => f@ == e,
                },
            },
            names_decoded(listing_of(listing)),
    {
        let mut all: Vec<Display> = match Self::all(st, listing, outputs, primary) {
            Ok(all) => all,
            Err(e) => {
                return Err(e);
            },
        };
        let ghost p = |d: DisplayView| d.primary;
        let ghost seen = views(all@);
        let mut at: usize = 0;
        let mut i: usize = 0;
        let mut found: bool = false;
        while i < all.len() && !found
            invariant
                seen == views(all@),
                p == (|d: DisplayView| d.primary),
                i <= all@.len(),
                !found ==> at == 0 && forall|j: int| 0 <= j < i ==> !p(#[trigger] seen[j]),
                found ==> at < all@.len() && crate::common::is_first(seen, p, at as int),
            decreases all@.len() - i,
        {
            if all[i].primary {
                assert(p(seen[i as int]));
                at = i;
                found = true;
            }
            i = i + 1;
        }
        proof {
            if found {
                crate::common::lemma_find_first_some(seen, p, at as int);
            } else {
                crate::common::lemma_find_first_none(seen, p);
            }
            lemma_offered(old(st)@, listing_of(listing), outputs@, text_of(primary));
        }
        Ok(all.remove(at))
    }

    /// Width in pixels of what is captured.
    pub fn width(&self) -> (r: usize)
        ensures
            r == self@.w,
    {
        self.w
    }

    /// Height in pixels of what is captured.
    pub fn height(&self) -> (r: usize)
        ensures
            r == self@.h,
    {
        self.h
    }

    /// Physical over logical size.
    pub fn scale(&self) -> (r: Scale)
        ensures
            r == self@.scale,
    {
        self.scale
    }

    /// Width in the compositor's coordinate space.
    pub fn logical_width(&self) -> (r: usize)
        ensures
            r == self@.logical_w,
    {
        self.logical_w
    }

    /// Height in the compositor's coordinate space.
    pub fn logical_height(&self) -> (r: usize)
        ensures
            r == self@.logical_h,
    {
        self.logical_h
    }

    /// Upper left corner in the compositor's coordinate space.
    pub fn origin(&self) -> (r: (i32, i32))
        ensures
            r == (self@.x, self@.y),
    {
        (self.x, self.y)
    }

    /// A display that was enumerated is online.
    pub fn is_online(&self) -> (r: bool)
        ensures
            r,
    {
        true
    }

    /// Whether this is the primary display.
    pub fn is_primary(&self) -> (r: bool)
        ensures
            r == self@.primary,
    {
        self.primary
    }

    /// The connector name.
    pub fn name(&self) -> (r: String)
        ensures
            r@ == self@.name,
    {
        self.name.clone()
    }
}

/// The position of the display that is marked as primary, or 0 if none is.
pub open spec fn marked_index(displays: Seq<DisplayView>) -> int {
    match crate::common::find_first(displays, |d: DisplayView| d.primary) {
        Some(i) => i,
        None => 0,
    }
}

/// What an enumeration offers: at least one display, exactly one of them primary, and none
/// that is known to be ungrabbable.
pub proof fn lemma_offered(
    s: StateView,
    listing: Option<Listing>,
    outputs: Seq<WaylandDisplayInfo>,
    primary: Option<Seq<char>>,
)
    ensures
        enumerated(s, listing, outputs, primary) matches Ok(v) ==> {
            &&& v.len() > 0
            &&& 0 <= marked_index(v) < v.len()
            &&& forall|i: int|
                0 <= i < v.len() ==> ((#[trigger] v[i]).primary <==> i == marked_index(v))
            &&& forall|i: int|
                0 <= i < v.len() ==> !state_after(s, listing, outputs).bad_crtcs.contains(
                    key_of(#[trigger] v[i]),
                )
        },
{
    if let Ok(v) = enumerated(s, listing, outputs, primary) {
        let l = listing->0;
        let all = candidates(l.found as int, l.entries@, outputs);
        let bad = s.seen(topology(all)).bad_crtcs;
        let p = |d: DisplayView| !bad.contains(key_of(d));
        let kept = grabbable(all, bad);
        let at = primary_index(kept, primary);
        crate::common::lemma_filter_members(all, p);
        if let Some(name) = primary {
            crate::drm::display::lemma_matched_in_range(display_names(kept), name);
        }
        assert forall|i: int| 0 <= i < kept.len() implies !(#[trigger] kept[i]).primary
            && !bad.contains(key_of(kept[i])) by {
            assert(p(kept[i]));
            let k = choose|k: int| 0 <= k < all.len() && all[k] == kept[i];
            assert(!all[k].primary);
        }
        let q = |d: DisplayView| d.primary;
        assert(crate::common::is_first(v, q, at)) by {
            assert(q(v[at]));
            assert forall|j: int| 0 <= j < at implies !q(#[trigger] v[j]) by {
                assert(v[j] == kept[j]);
            }
        }
        crate::common::lemma_find_first_some(v, q, at);
        assert forall|i: int| 0 <= i < v.len() implies ((#[trigger] v[i]).primary <==> i == at)
            && !bad.contains(key_of(v[i])) by {
            if i != at {
                assert(v[i] == kept[i]);
            } else {
                assert(key_of(v[i]) == key_of(kept[i]));
            }
        }
    }
}

/// A filter by two conditions is one filter after the other.
proof fn lemma_filter_both<T>(
    s: Seq<T>,
    p: spec_fn(T) -> bool,
    q: spec_fn(T) -> bool,
    both: spec_fn(T) -> bool,
)
    requires
        forall|t: T| #[trigger] both(t) == (p(t) && q(t)),
    ensures
        s.filter(both) == s.filter(p).filter(q),
    decreases s.len(),
{
    reveal(Seq::filter);
    if s.len() > 0 {
        lemma_filter_both(s.drop_last(), p, q, both);
        assert(both(s.last()) == (p(s.last()) && q(s.last())));
        if p(s.last()) {
            let a = s.drop_last().filter(p);
            assert(a.push(s.last()).drop_last() =~= a);
        }
    }
}

/// Marking an output drops the displays of that output and no other.
pub proof fn lemma_mark_drops_one(s: StateView, key: CrtcKey, displays: Seq<DisplayView>)
    ensures
        grabbable(displays, s.marked(key).bad_crtcs) == grabbable(displays, s.bad_crtcs).filter(
            |d: DisplayView| key_of(d) != key,
        ),
{
    crate::drm::state::lemma_marked(s, key);
    let bad = s.bad_crtcs;
    let more = s.marked(key).bad_crtcs;
    lemma_filter_both(
        displays,
        |d: DisplayView| !bad.contains(key_of(d)),
        |d: DisplayView| key_of(d) != key,
        |d: DisplayView| !more.contains(key_of(d)),
    );
}

/// Other outputs than the last time are all tried again, whatever was marked before.
pub proof fn lemma_new_topology_is_retested(
    s: StateView,
    found: int,
    entries: Seq<RawDisplay>,
    outputs: Seq<WaylandDisplayInfo>,
)
    requires
        topology(candidates(found, entries, outputs)) != s.last_topology,
    ensures
        grabbable(
            candidates(found, entries, outputs),
            s.seen(topology(candidates(found, entries, outputs))).bad_crtcs,
        ) == candidates(found, entries, outputs),
{
    let all = candidates(found, entries, outputs);
    let bad = s.seen(topology(all)).bad_crtcs;
    lemma_filter_all(all, |d: DisplayView| !bad.contains(key_of(d)));
}

/// Enumerating again without a change in between gives the same displays and leaves the
/// memory as it is.
pub proof fn lemma_enumeration_is_stable(
    s: StateView,
    listing: Option<Listing>,
    outputs: Seq<WaylandDisplayInfo>,
    primary: Option<Seq<char>>,
)
    ensures
        state_after(state_after(s, listing, outputs), listing, outputs) == state_after(
            s,
            listing,
            outputs,
        ),
        enumerated(state_after(s, listing, outputs), listing, outputs, primary) == enumerated(
            s,
            listing,
            outputs,
            primary,
        ),
{
}

/// An enumeration fails with "nothing there" whenever it fails.
pub proof fn lemma_enumeration_error_kind(
    s: StateView,
    listing: Option<Listing>,
    outputs: Seq<WaylandDisplayInfo>,
    primary: Option<Seq<char>>,
)
    ensures
        enumerated(s, listing, outputs, primary) matches Err(e) ==> e.0 == ErrorKind::NotFound,
{
}

/// An enumeration keeps the memory well-formed.
pub proof fn lemma_state_after_well_formed(
    s: StateView,
    listing: Option<Listing>,
    outputs: Seq<WaylandDisplayInfo>,
)
    requires
        s.well_formed(),
    ensures
        state_after(s, listing, outputs).well_formed(),
        state_after(s, listing, outputs).probe == s.probe,
        state_after(s, listing, outputs).cursor == s.cursor,
{
}

/// The primary display is the compositor's: if a display of its primary output's name is
/// offered, such a display is marked.
pub proof fn lemma_primary_follows_compositor(
    s: StateView,
    listing: Option<Listing>,
    outputs: Seq<WaylandDisplayInfo>,
    primary: Seq<char>,
)
    ensures
        enumerated(s, listing, outputs, Some(primary)) matches Ok(v) ==> {
            &&& display_names(v).contains(primary) ==> v[marked_index(v)].name == primary
            &&& (exists|i: int|
                0 <= i < v.len() && crate::drm::connector::normalized((#[trigger] v[i]).name)
                    == crate::drm::connector::normalized(primary))
                ==> crate::drm::connector::normalized(v[marked_index(v)].name)
                == crate::drm::connector::normalized(primary)
        },
{
    if let Ok(v) = enumerated(s, listing, outputs, Some(primary)) {
        lemma_offered(s, listing, outputs, Some(primary));
        let l = listing->0;
        let all = candidates(l.found as int, l.entries@, outputs);
        let kept = grabbable(all, s.seen(topology(all)).bad_crtcs);
        let at = primary_index(kept, Some(primary));
        let names = display_names(kept);
        crate::drm::display::lemma_matched_in_range(names, primary);
        assert(v[at].primary);
        assert(at == marked_index(v));
        assert(display_names(v) =~= names);
        if exists|i: int|
            0 <= i < v.len() && crate::drm::connector::normalized((#[trigger] v[i]).name)
                == crate::drm::connector::normalized(primary) {
            let i = choose|i: int|
                0 <= i < v.len() && crate::drm::connector::normalized((#[trigger] v[i]).name)
                    == crate::drm::connector::normalized(primary);
            assert(names[i] == display_names(v)[i]);
        }
    }
}

} // verus!
