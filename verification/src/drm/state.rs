//! What the backend remembers between calls: whether capture works, which outputs cannot
//! be grabbed, and the last cursor.

use crate::drm::cursor::DrmCursor;
use vstd::prelude::*;

verus! {

/// What is known about whether capture works on this host.
#[derive(Clone, Copy, Debug, PartialEq, Eq, Structural)]
pub enum ProbeCache {
    /// Not probed, or no longer trusted.
    Unknown,
    /// A grab succeeded.
    Working,
    /// The helper cannot run.
    Unavailable,
}

/// A connector name and a CRTC id. A CRTC id alone is not stable across a replug.
pub type CrtcKey = (Seq<char>, u32);

/// The process-wide memory of the backend.
pub struct DrmState {
    /// The cursor captured last.
    pub cursor: Option<DrmCursor>,
    /// Whether capture works.
    pub probe: ProbeCache,
    /// The outputs whose grab failed for good, each once.
    pub bad_crtcs: Vec<(String, u32)>,
    /// The outputs of the last enumeration.
    pub last_topology: Vec<(String, u32)>,
}

/// The contents of the memory.
pub struct StateView {
    pub cursor: Option<crate::drm::cursor::CursorView>,
    pub probe: ProbeCache,
    pub bad_crtcs: Seq<CrtcKey>,
    pub last_topology: Seq<CrtcKey>,
}

/// A list of outputs as keys.
pub open spec fn crtc_keys(v: Seq<(String, u32)>) -> Seq<CrtcKey> {
    Seq::new(v.len(), |i: int| (v[i].0@, v[i].1))
}

impl View for DrmState {
    type V = StateView;

    open spec fn view(&self) -> StateView {
        StateView {
            cursor: match self.cursor {
                Some(c) => Some(c@),
                None => None,
            },
            probe: self.probe,
            bad_crtcs: crtc_keys(self.bad_crtcs@),
            last_topology: crtc_keys(self.last_topology@),
        }
    }
}

impl StateView {
    /// No output is listed twice as bad, and none without a name of its own: a CRTC id of 0
    /// means "pick one" and identifies no output.
    pub open spec fn well_formed(self) -> bool {
        &&& self.bad_crtcs.no_duplicates()
        &&& forall|i: int| 0 <= i < self.bad_crtcs.len() ==> (#[trigger] self.bad_crtcs[i]).1 != 0
    }

    /// The memory after an output was marked bad.
    pub open spec fn marked(self, key: CrtcKey) -> StateView {
        if self.bad_crtcs.contains(key) {
            self
        } else {
            StateView { bad_crtcs: self.bad_crtcs.push(key), ..self }
        }
    }

    /// The memory after an enumeration found these outputs.
    pub open spec fn seen(self, topology: Seq<CrtcKey>) -> StateView {
        if self.last_topology == topology {
            self
        } else {
            StateView { bad_crtcs: Seq::empty(), last_topology: topology, ..self }
        }
    }
}

impl DrmState {
    /// Nothing known yet.
    pub fn new() -> (r: DrmState)
        ensures
            r@.cursor is None,
            r@.probe == ProbeCache::Unknown,
            r@.bad_crtcs == Seq::<CrtcKey>::empty(),
            r@.last_topology == Seq::<CrtcKey>::empty(),
            r@.well_formed(),
    {
        DrmState {
            cursor: None,
            probe: ProbeCache::Unknown,
            bad_crtcs: Vec::new(),
            last_topology: Vec::new(),
        }
    }
}

/// The current hardware cursor, if any.
pub fn drm_cursor(st: &DrmState) -> (r: Option<DrmCursor>)
    ensures
        match r {
            Some(c) => st@.cursor == Some(c@),
            None => st@.cursor is None,
        },
{
    match &st.cursor {
        Some(c) => Some(c.clone()),
        None => None,
    }
}

/// The id of the current hardware cursor, without its pixels.
pub fn drm_cursor_id(st: &DrmState) -> (r: Option<u64>)
    ensures
        r == match st@.cursor {
            Some(c) => Some(c.id),
            None => None,
        },
{
    match &st.cursor {
        Some(c) => Some(c.id),
        None => None,
    }
}

fn contains_key(list: &Vec<(String, u32)>, name: &str, crtc_id: u32) -> (r: bool)
    ensures
        r == crtc_keys(list@).contains((name@, crtc_id)),
{
    let wanted: String = name.to_owned();
    let ghost keys = crtc_keys(list@);
    let mut i: usize = 0;
    while i < list.len()
        invariant
            i <= list@.len(),
            wanted@ == name@,
            keys == crtc_keys(list@),
            forall|j: int| 0 <= j < i ==> #[trigger] keys[j] != (name@, crtc_id),
        decreases list@.len() - i,
    {
        if list[i].1 == crtc_id && list[i].0 == wanted {
            assert(keys[i as int] == (name@, crtc_id));
            return true;
        }
        i = i + 1;
    }
    false
}

/// Remembers that an output cannot be grabbed.
pub fn mark_bad_crtc(st: &mut DrmState, name: &str, crtc_id: u32)
    ensures
        final(st)@ == old(st)@.marked((name@, crtc_id)),
{
    if !contains_key(&st.bad_crtcs, name, crtc_id) {
        let ghost before = st.bad_crtcs@;
        st.bad_crtcs.push((name.to_owned(), crtc_id));
        assert(crtc_keys(st.bad_crtcs@) =~= crtc_keys(before).push((name@, crtc_id)));
    }
}

/// Whether an output is known not to be grabbable.
pub fn is_bad_crtc(st: &DrmState, name: &str, crtc_id: u32) -> (r: bool)
    ensures
        r == st@.bad_crtcs.contains((name@, crtc_id)),
{
    contains_key(&st.bad_crtcs, name, crtc_id)
}

fn same_keys(a: &Vec<(String, u32)>, b: &[(String, u32)]) -> (r: bool)
    ensures
        r == (crtc_keys(a@) == crtc_keys(b@)),
{
    let ghost ka = crtc_keys(a@);
    let ghost kb = crtc_keys(b@);
    if a.len() != b.len() {
        assert(ka.len() != kb.len());
        return false;
    }
    let mut i: usize = 0;
    while i < a.len()
        invariant
            a@.len() == b@.len(),
            i <= a@.len(),
            ka == crtc_keys(a@),
            kb == crtc_keys(b@),
            forall|j: int| 0 <= j < i ==> ka[j] == kb[j],
        decreases a@.len() - i,
    {
        if a[i].1 != b[i].1 || a[i].0 != b[i].0 {
            assert(ka[i as int] != kb[i as int]);
            return false;
        }
        i = i + 1;
    }
    assert(ka =~= kb);
    true
}

fn copy_keys(list: &[(String, u32)]) -> (r: Vec<(String, u32)>)
    ensures
        crtc_keys(r@) == crtc_keys(list@),
{
    let len: usize = list.len();
    let mut out: Vec<(String, u32)> = Vec::new();
    let mut i: usize = 0;
    while i < len
        invariant
            len == list@.len(),
            i <= len,
            out@.len() == i,
            forall|j: int| 0 <= j < i ==> crtc_keys(out@)[j] == #[trigger] crtc_keys(list@)[j],
        decreases len - i,
    {
        let ghost before = out@;
        out.push((list[i].0.clone(), list[i].1));
        assert(crtc_keys(out@) =~= crtc_keys(before).push(crtc_keys(list@)[i as int]));
        i = i + 1;
    }
    assert(crtc_keys(out@) =~= crtc_keys(list@));
    out
}

/// Forgets the bad outputs when the enumerated outputs are not those of the last time, so
/// that a replug or a wake tests everything again.
pub fn reset_bad_crtcs_on_topology_change(st: &mut DrmState, current: &[(String, u32)])
    ensures
        final(st)@ == old(st)@.seen(crtc_keys(current@)),
{
    if !same_keys(&st.last_topology, current) {
        st.bad_crtcs.clear();
        st.last_topology = copy_keys(current);
        assert(crtc_keys(st.bad_crtcs@) =~= Seq::<CrtcKey>::empty());
    }
}

/// Marking keeps the list of bad outputs free of duplicates, remembers the output, and is
/// idempotent.
pub proof fn lemma_marked(s: StateView, key: CrtcKey)
    ensures
        s.marked(key).bad_crtcs.contains(key),
        s.marked(key).marked(key) == s.marked(key),
        forall|k: CrtcKey| s.bad_crtcs.contains(k) ==> s.marked(key).bad_crtcs.contains(k),
        forall|k: CrtcKey| s.marked(key).bad_crtcs.contains(k) ==> k == key || s.bad_crtcs.contains(k),
        s.bad_crtcs.no_duplicates() ==> s.marked(key).bad_crtcs.no_duplicates(),
        s.well_formed() && key.1 != 0 ==> s.marked(key).well_formed(),
{
    let t = s.marked(key);
    if !s.bad_crtcs.contains(key) {
        assert(t.bad_crtcs[t.bad_crtcs.len() - 1] == key);
        assert forall|k: CrtcKey| s.bad_crtcs.contains(k) implies t.bad_crtcs.contains(k) by {
            let i = choose|i: int| 0 <= i < s.bad_crtcs.len() && s.bad_crtcs[i] == k;
            assert(t.bad_crtcs[i] == k);
        }
    }
}

/// An enumeration of the same outputs keeps every mark; one of other outputs drops them all.
pub proof fn lemma_seen(s: StateView, topology: Seq<CrtcKey>)
    ensures
        s.seen(topology).last_topology == topology,
        s.last_topology == topology ==> s.seen(topology).bad_crtcs == s.bad_crtcs,
        s.last_topology != topology ==> s.seen(topology).bad_crtcs.len() == 0,
        s.seen(topology).seen(topology) == s.seen(topology),
        s.well_formed() ==> s.seen(topology).well_formed(),
{
}

} // verus!
