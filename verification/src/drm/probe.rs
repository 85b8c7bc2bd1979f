//! Whether capture works at all: a trial grab, and what is remembered of it.
//!
//! Listing displays needs no privilege, so a list of displays is no proof that a grab will
//! work.

use crate::drm::state::{DrmState, ProbeCache, StateView};
use crate::errno::{is_setup_errno, is_transient_errno};
use vstd::prelude::*;

verus! {

/// How often a probe tries to grab.
pub const PROBE_ATTEMPTS: usize = 8;

/// How long a probe waits after a transient failure, in milliseconds.
pub const PROBE_PAUSE_MS: u64 = 10;

/// The outcome of a probe.
#[derive(Clone, Copy, Debug, PartialEq, Eq, Structural)]
pub enum ProbeResult {
    /// A grab succeeded.
    Success,
    /// The helper cannot run; this will not change.
    Permanent,
    /// Busy, no frame yet, or the display is asleep; try again later.
    Transient,
}

/// What one grab of a probe settles; nothing if it is worth another try.
pub open spec fn verdict(ret: int) -> Option<ProbeResult> {
    if ret == 0 {
        Some(ProbeResult::Success)
    } else if crate::errno::transient(ret) {
        None
    } else if crate::errno::setup(ret) {
        Some(ProbeResult::Permanent)
    } else {
        Some(ProbeResult::Transient)
    }
}

/// What one grab of a probe settles. Only a helper that cannot run is final: a display that
/// is merely asleep must not switch capture off for good.
pub fn probe_verdict(ret: i32) -> (r: Option<ProbeResult>)
    ensures
        r == verdict(ret as int),
{
    if ret == 0 {
        Some(ProbeResult::Success)
    } else if is_transient_errno(ret) {
        None
    } else if is_setup_errno(ret) {
        Some(ProbeResult::Permanent)
    } else {
        Some(ProbeResult::Transient)
    }
}

/// What a grab of a probe settles before which there were `tried` others: the last one that is
/// allowed leaves nothing open.
pub fn probe_step(tried: usize, ret: i32) -> (r: Option<ProbeResult>)
    ensures
        r == match verdict(ret as int) {
            Some(v) => Some(v),
            None => if tried + 1 >= PROBE_ATTEMPTS {
                Some(ProbeResult::Transient)
            } else {
                None
            },
        },
{
    match probe_verdict(ret) {
        Some(v) => Some(v),
        None => if tried >= PROBE_ATTEMPTS - 1 {
            Some(ProbeResult::Transient)
        } else {
            None
        },
    }
}

/// Whether a probe makes just these grabs: it goes on while a grab settles nothing, up to a
/// number of attempts.
pub open spec fn probe_run(rets: Seq<i32>) -> bool {
    &&& 1 <= rets.len() <= PROBE_ATTEMPTS
    &&& forall|i: int| 0 <= i < rets.len() - 1 ==> verdict(#[trigger] rets[i] as int) is None
    &&& verdict(rets.last() as int) is None ==> rets.len() == PROBE_ATTEMPTS
}

/// What the grabs of a probe come to.
pub open spec fn probe_outcome(rets: Seq<i32>) -> ProbeResult {
    match verdict(rets.last() as int) {
        Some(r) => r,
        None => ProbeResult::Transient,
    }
}

/// Probes: grabs until a grab settles the matter, pausing after each transient failure.
/// `opened` says whether a context could be opened; where it could not, that may be for want
/// of an active output just as well as for want of a helper, so nothing is concluded. `grab`
/// makes one grab, is told how many there were before, gives the frame back if there is one,
/// and returns what the grab returned; `pause` waits for some milliseconds.
pub fn capture_probe<G: Fn(usize) -> i32, P: Fn(u64)>(opened: bool, grab: G, pause: P) -> (r:
    ProbeResult)
    requires
        opened ==> forall|i: usize| i < PROBE_ATTEMPTS ==> #[trigger] grab.requires((i,)),
        opened ==> pause.requires((PROBE_PAUSE_MS,)),
    ensures
        !opened ==> r == ProbeResult::Transient,
        opened ==> exists|rets: Seq<i32>|
            {
                &&& #[trigger] probe_run(rets)
                &&& forall|i: int|
                    0 <= i < rets.len() ==> grab.ensures((i as usize,), #[trigger] rets[i])
                &&& r == probe_outcome(rets)
            },
{
    if !opened {
        return ProbeResult::Transient;
    }
    let ghost mut rets: Seq<i32> = Seq::empty();
    let mut i: usize = 0;
    loop
        invariant
            opened,
            forall|k: usize| k < PROBE_ATTEMPTS ==> #[trigger] grab.requires((k,)),
            pause.requires((PROBE_PAUSE_MS,)),
            i < PROBE_ATTEMPTS,
            rets.len() == i,
            forall|j: int| 0 <= j < i ==> grab.ensures((j as usize,), #[trigger] rets[j]),
            forall|j: int| 0 <= j < i ==> verdict(#[trigger] rets[j] as int) is None,
        decreases PROBE_ATTEMPTS - i,
    {
        let ret: i32 = grab(i);
        proof {
            rets = rets.push(ret);
        }
        if is_transient_errno(ret) {
            pause(PROBE_PAUSE_MS);
        }
        match probe_step(i, ret) {
            Some(r) => {
                assert(probe_run(rets));
                return r;
            },
            None => {},
        }
        i = i + 1;
    }
}

/// What is remembered after a probe. An inconclusive one is not remembered.
pub open spec fn settled(s: StateView, r: ProbeResult) -> StateView {
    match r {
        ProbeResult::Success => StateView { probe: ProbeCache::Working, ..s },
        ProbeResult::Permanent => StateView { probe: ProbeCache::Unavailable, ..s },
        ProbeResult::Transient => s,
    }
}

/// Takes the outcome of a probe in and says whether capture is available.
pub fn settle_probe(st: &mut DrmState, r: ProbeResult) -> (ok: bool)
    ensures
        final(st)@ == settled(old(st)@, r),
        ok == (r == ProbeResult::Success),
{
    match r {
        ProbeResult::Success => {
            st.probe = ProbeCache::Working;
            true
        },
        ProbeResult::Permanent => {
            st.probe = ProbeCache::Unavailable;
            false
        },
        ProbeResult::Transient => false,
    }
}

/// Whether capture is available. Probes only where nothing definite is known.
pub fn capture_available<F: FnOnce() -> ProbeResult>(st: &mut DrmState, probe: F) -> (ok: bool)
    requires
        old(st)@.probe == ProbeCache::Unknown ==> probe.requires(()),
    ensures
        old(st)@.probe == ProbeCache::Working ==> ok && final(st)@ == old(st)@,
        old(st)@.probe == ProbeCache::Unavailable ==> !ok && final(st)@ == old(st)@,
        old(st)@.probe == ProbeCache::Unknown ==> exists|r: ProbeResult|
            {
                &&& #[trigger] probe.ensures((), r)
                &&& final(st)@ == settled(old(st)@, r)
                &&& ok == (r == ProbeResult::Success)
            },
{
    match st.probe {
        ProbeCache::Working => true,
        ProbeCache::Unavailable => false,
        ProbeCache::Unknown => {
            let r = probe();
            settle_probe(st, r)
        },
    }
}

/// A probe is final only on the word of its last grab, and says "cannot run" only for a
/// denied or missing helper.
pub proof fn lemma_probe_outcome(rets: Seq<i32>)
    requires
        probe_run(rets),
    ensures
        probe_outcome(rets) == ProbeResult::Success <==> rets.last() == 0,
        probe_outcome(rets) == ProbeResult::Permanent <==> crate::errno::setup(rets.last() as int),
        rets.last() == -crate::errno::ENODEV ==> probe_outcome(rets) == ProbeResult::Transient,
{
}

/// A definite outcome is what the next question is answered with; an inconclusive one leaves
/// the question open.
pub proof fn lemma_settled(s: StateView, r: ProbeResult)
    ensures
        r == ProbeResult::Success ==> settled(s, r).probe == ProbeCache::Working,
        r == ProbeResult::Permanent ==> settled(s, r).probe == ProbeCache::Unavailable,
        r == ProbeResult::Transient ==> settled(s, r) == s,
        settled(s, r).bad_crtcs == s.bad_crtcs,
        s.well_formed() ==> settled(s, r).well_formed(),
{
}

} // verus!
