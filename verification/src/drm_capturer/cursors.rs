//! The cursors of the streams. Each stream reports the cursor of its own display, and only
//! the display under the pointer shows one; the others report a hidden cursor.

use crate::drm::cursor::CursorView;
use std::collections::BTreeMap;
use vstd::prelude::*;

verus! {

/// A cursor as a stream reports it.
#[derive(Debug)]
pub struct DrmCursorData {
    pub id: u64,
    pub width: i32,
    pub height: i32,
    pub hotx: i32,
    pub hoty: i32,
    /// RGBA8888.
    pub colors: Vec<u8>,
}

impl View for DrmCursorData {
    type V = CursorView;

    open spec fn view(&self) -> CursorView {
        CursorView {
            id: self.id,
            width: self.width,
            height: self.height,
            hotx: self.hotx,
            hoty: self.hoty,
            colors: self.colors@,
        }
    }
}

impl Clone for DrmCursorData {
    fn clone(&self) -> (r: DrmCursorData)
        ensures
            r@ == self@,
    {
        let colors = self.colors.clone();
        assert(colors@ =~= self.colors@);
        DrmCursorData {
            id: self.id,
            width: self.width,
            height: self.height,
            hotx: self.hotx,
            hoty: self.hoty,
            colors,
        }
    }
}

/// The cursor of each stream, by display index. Keeping them apart stops the hidden cursor
/// of one stream from replacing the visible one of another.
#[derive(Debug)]
pub struct DrmCursors {
    pub by_display: BTreeMap<i32, DrmCursorData>,
}

impl View for DrmCursors {
    type V = Map<i32, CursorView>;

    open spec fn view(&self) -> Map<i32, CursorView> {
        Map::new(
            |k: i32| self.by_display@.contains_key(k),
            |k: i32| self.by_display@[k]@,
        )
    }
}

/// `k` is the least display whose cursor satisfies `p`.
pub open spec fn is_least(m: Map<i32, CursorView>, p: spec_fn(CursorView) -> bool, k: i32) -> bool {
    &&& m.contains_key(k)
    &&& p(m[k])
    &&& forall|j: i32| #[trigger] m.contains_key(j) && p(m[j]) ==> k <= j
}

/// The least display whose cursor satisfies `p`, if there is one.
pub open spec fn least(m: Map<i32, CursorView>, p: spec_fn(CursorView) -> bool) -> Option<i32> {
    if exists|k: i32| is_least(m, p, k) {
        Some(choose|k: i32| is_least(m, p, k))
    } else {
        None
    }
}

/// A cursor that is not the hidden one.
pub open spec fn visible(hidden: u64) -> spec_fn(CursorView) -> bool {
    |c: CursorView| c.id != hidden
}

/// Any cursor.
pub open spec fn any() -> spec_fn(CursorView) -> bool {
    |c: CursorView| true
}

/// The cursor to present: a visible one if there is any, else a hidden one, so that the
/// client still learns that the pointer is elsewhere; of the least display in either case.
pub open spec fn picked(m: Map<i32, CursorView>, hidden: u64) -> Option<CursorView> {
    match least(m, visible(hidden)) {
        Some(k) => Some(m[k]),
        None => match least(m, any()) {
            Some(k) => Some(m[k]),
            None => None,
        },
    }
}

impl DrmCursors {
    /// No stream.
    pub fn new() -> (r: DrmCursors)
        ensures
            r@ == Map::<i32, CursorView>::empty(),
    {
        let r = DrmCursors { by_display: BTreeMap::new() };
        assert(r@ =~= Map::<i32, CursorView>::empty());
        r
    }
}

/// Takes in the cursor of a stream.
pub fn set_drm_cursor(cursors: &mut DrmCursors, display: i32, c: DrmCursorData)
    ensures
        final(cursors)@ == old(cursors)@.insert(display, c@),
{
    broadcast use vstd::laws_cmp::group_laws_cmp;

    cursors.by_display.insert(display, c);
    assert(cursors@ =~= old(cursors)@.insert(display, c@));
}

/// Drops the cursor of a stream that ended, and no other.
pub fn remove_drm_cursor(cursors: &mut DrmCursors, display: i32)
    ensures
        final(cursors)@ == old(cursors)@.remove(display),
{
    broadcast use vstd::laws_cmp::group_laws_cmp;

    cursors.by_display.remove(&display);
    assert(cursors@ =~= old(cursors)@.remove(display));
}

/// A least display is the only one.
pub proof fn lemma_least_some(m: Map<i32, CursorView>, p: spec_fn(CursorView) -> bool, k: i32)
    requires
        is_least(m, p, k),
    ensures
        least(m, p) == Some(k),
{
    let j = choose|j: i32| is_least(m, p, j);
    assert(is_least(m, p, j));
    assert(m.contains_key(k) && m.contains_key(j));
}

/// Where no cursor satisfies `p` there is no least display.
pub proof fn lemma_least_none(m: Map<i32, CursorView>, p: spec_fn(CursorView) -> bool)
    requires
        forall|j: i32| #[trigger] m.contains_key(j) ==> !p(m[j]),
    ensures
        least(m, p) is None,
{
    assert forall|k: i32| !is_least(m, p, k) by {
        if is_least(m, p, k) {
            assert(m.contains_key(k));
        }
    }
}

/// The display of the cursor to present.
fn pick_display(cursors: &DrmCursors, hidden: u64) -> (r: Option<i32>)
    ensures
        r == match least(cursors@, visible(hidden)) {
            Some(k) => Some(k),
            None => least(cursors@, any()),
        },
{
    broadcast use vstd::laws_cmp::group_laws_cmp;

    let ghost m = cursors.by_display@;
    let mut seen: Option<i32> = None;
    let mut shown: Option<i32> = None;
    let entries = cursors.by_display.iter();
    let ghost all = vstd::std_specs::iter::IteratorSpec::remaining(&entries);
    assert forall|k: i32| #[trigger] m.contains_key(k) implies all.contains((&k, &m[k])) by {}
    for (k, c) in it: entries
        invariant
            m == cursors.by_display@,
            it.seq() == all,
            forall|i: int|
                0 <= i < it.seq().len() ==> m.contains_key(*(#[trigger] it.seq()[i]).0)
                    && m[*it.seq()[i].0] == *it.seq()[i].1,
            match seen {
                Some(a) => m.contains_key(a) && forall|i: int|
                    0 <= i < it.index() ==> a <= *(#[trigger] it.seq()[i]).0,
                None => it.index() == 0,
            },
            match shown {
                Some(a) => m.contains_key(a) && m[a]@.id != hidden && forall|i: int|
                    0 <= i < it.index() && (#[trigger] it.seq()[i]).1@.id != hidden ==> a
                        <= *it.seq()[i].0,
                None => forall|i: int|
                    0 <= i < it.index() ==> (#[trigger] it.seq()[i]).1@.id == hidden,
            },
    {
        match seen {
            Some(a) => {
                if *k < a {
                    seen = Some(*k);
                }
            },
            None => {
                seen = Some(*k);
            },
        }
        if c.id != hidden {
            match shown {
                Some(a) => {
                    if *k < a {
                        shown = Some(*k);
                    }
                },
                None => {
                    shown = Some(*k);
                },
            }
        }
    }
    proof {
        let v = cursors@;
        assert forall|k: i32| #[trigger] v.contains_key(k) implies {
            &&& (seen matches Some(a) && a <= k)
            &&& v[k].id != hidden ==> (shown matches Some(b) && b <= k)
        } by {
            assert(m.contains_key(k));
            let i = choose|i: int| 0 <= i < all.len() && all[i] == (&k, &m[k]);
            assert(*all[i].0 == k);
            assert(all[i].1@ == v[k]);
        }
        match shown {
            Some(b) => {
                assert(v.contains_key(b));
                assert(is_least(v, visible(hidden), b));
                lemma_least_some(v, visible(hidden), b);
            },
            None => {
                lemma_least_none(v, visible(hidden));
            },
        }
        match seen {
            Some(a) => {
                assert(v.contains_key(a));
                assert(is_least(v, any(), a));
                lemma_least_some(v, any(), a);
            },
            None => {
                lemma_least_none(v, any());
            },
        }
    }
    if shown.is_some() {
        shown
    } else {
        seen
    }
}

/// The cursor to present; `hidden` is the id of the hidden cursor. There is none only where
/// there is no stream.
pub fn pick_drm_cursor(cursors: &DrmCursors, hidden: u64) -> (r: Option<DrmCursorData>)
    ensures
        match r {
            Some(c) => picked(cursors@, hidden) == Some(c@),
            None => picked(cursors@, hidden) is None,
        },
{
    broadcast use vstd::laws_cmp::group_laws_cmp;

    match pick_display(cursors, hidden) {
        Some(k) => {
            proof {
                lemma_least(cursors@, visible(hidden));
                lemma_least(cursors@, any());
            }
            match cursors.by_display.get(&k) {
                Some(c) => {
                    assert(c@ == cursors@[k]);
                    Some(c.clone())
                },
                None => None,
            }
        },
        None => None,
    }
}

/// The id of the cursor to present, to tell whether it changed.
pub fn drm_cursor_id(cursors: &DrmCursors, hidden: u64) -> (r: Option<u64>)
    ensures
        r == match picked(cursors@, hidden) {
            Some(c) => Some(c.id),
            None => None,
        },
{
    match pick_drm_cursor(cursors, hidden) {
        Some(c) => Some(c.id),
        None => None,
    }
}

/// The cursor to present.
pub fn drm_cursor(cursors: &DrmCursors, hidden: u64) -> (r: Option<DrmCursorData>)
    ensures
        match r {
            Some(c) => picked(cursors@, hidden) == Some(c@),
            None => picked(cursors@, hidden) is None,
        },
{
    pick_drm_cursor(cursors, hidden)
}

/// There is a least display exactly where some cursor satisfies the condition.
pub proof fn lemma_least(m: Map<i32, CursorView>, p: spec_fn(CursorView) -> bool)
    ensures
        least(m, p) is Some <==> exists|k: i32| #[trigger] m.contains_key(k) && p(m[k]),
        least(m, p) matches Some(k) ==> is_least(m, p, k),
{
    if exists|k: i32| #[trigger] m.contains_key(k) && p(m[k]) {
        let k = choose|k: i32| #[trigger] m.contains_key(k) && p(m[k]);
        lemma_least_below(m, p, k);
    }
    if let Some(k) = least(m, p) {
        assert(is_least(m, p, k));
        assert(m.contains_key(k));
    }
}

proof fn lemma_least_below(m: Map<i32, CursorView>, p: spec_fn(CursorView) -> bool, k: i32)
    requires
        m.contains_key(k),
        p(m[k]),
    ensures
        exists|j: i32| is_least(m, p, j),
    decreases k - i32::MIN,
{
    if exists|j: i32| #[trigger] m.contains_key(j) && p(m[j]) && j < k {
        let j = choose|j: i32| #[trigger] m.contains_key(j) && p(m[j]) && j < k;
        lemma_least_below(m, p, j);
    } else {
        assert(is_least(m, p, k));
    }
}

/// A cursor is presented exactly while there is a stream, a visible one exactly while some
/// stream has one, and it is always the cursor of some stream.
pub proof fn lemma_picked(m: Map<i32, CursorView>, hidden: u64)
    ensures
        picked(m, hidden) is None <==> forall|k: i32| !#[trigger] m.contains_key(k),
        picked(m, hidden) matches Some(c) ==> {
            &&& exists|k: i32| #[trigger] m.contains_key(k) && m[k] == c
            &&& c.id != hidden <==> exists|k: i32| #[trigger]
                m.contains_key(k) && m[k].id != hidden
        },
{
    lemma_least(m, visible(hidden));
    lemma_least(m, any());
    if exists|k: i32| #[trigger] m.contains_key(k) && m[k].id != hidden {
        let k = choose|k: i32| #[trigger] m.contains_key(k) && m[k].id != hidden;
        assert(visible(hidden)(m[k]));
    }
    if exists|k: i32| #[trigger] m.contains_key(k) {
        let k = choose|k: i32| #[trigger] m.contains_key(k);
        assert(any()(m[k]));
    }
    if let Some(k) = least(m, visible(hidden)) {
        assert(visible(hidden)(m[k]));
    }
}

/// What one stream reports, or its end, does not hide the visible cursor of another.
pub proof fn lemma_streams_do_not_interfere(
    m: Map<i32, CursorView>,
    hidden: u64,
    display: i32,
    c: CursorView,
    other: i32,
)
    requires
        display != other,
        m.contains_key(other),
        m[other].id != hidden,
    ensures
        picked(m.insert(display, c), hidden) matches Some(x) && x.id != hidden,
        picked(m.remove(display), hidden) matches Some(x) && x.id != hidden,
        m.insert(display, c)[other] == m[other],
        m.remove(display)[other] == m[other],
{
    let a = m.insert(display, c);
    let b = m.remove(display);
    lemma_picked(a, hidden);
    lemma_picked(b, hidden);
    assert(a.contains_key(other) && a[other].id != hidden);
    assert(b.contains_key(other) && b[other].id != hidden);
}

} // verus!
