//! Laws of grabbing: what a failure means, what is remembered of it, and what is delivered.

use crate::common::{ErrorKind, Frame, IoError, Pixfmt};
use crate::drm::capture::{grab_failure, Capturer, FrameInfo, GrabStep};
use crate::drm::config::{build_drm_config, DrmConfig};
use crate::drm::display::Display;
use crate::drm::probe::{
    capture_available, capture_probe, probe_step, probe_verdict, settle_probe, ProbeResult,
};
use crate::drm::state::{
    is_bad_crtc, mark_bad_crtc, reset_bad_crtcs_on_topology_change, DrmState, ProbeCache,
};
use crate::errno::{is_setup_errno, is_transient_errno};
use crate::pixels::pack_rows;
use vstd::prelude::*;
use vstd::string::*;

verus! {

/// Whether a return value is a failure that is worth a retry: EINTR, EAGAIN, EBUSY or ETIMEDOUT.
pub open spec fn retryable(ret: int) -> bool {
    set![-4int, -11, -16, -110].contains(ret)
}

/// Whether a return value says that the helper cannot run: EPERM, ENOENT or EACCES.
pub open spec fn helper_failed(ret: int) -> bool {
    set![-1int, -2, -13].contains(ret)
}

/// A return value is worth a retry, or says that the helper cannot run, exactly if it is one of
/// a few errnos.
pub proof fn law_classes_of_failures(ret: i32, retry: bool, setup: bool)
    requires
        call_ensures(is_transient_errno, (ret,), retry),
        call_ensures(is_setup_errno, (ret,), setup),
    ensures
        retry == retryable(ret as int),
        setup == helper_failed(ret as int),
        !(retry && setup),
        ret >= 0 ==> !retry && !setup,
{
}

/// A probe succeeds on a grab that does, goes on after one that is worth a retry unless it was
/// the eighth, gives up for good on a helper that cannot run, and for now on anything else.
pub proof fn law_steps_of_a_probe(
    tried: usize,
    ret: i32,
    verdict: Option<ProbeResult>,
    step: Option<ProbeResult>,
)
    requires
        call_ensures(probe_verdict, (ret,), verdict),
        call_ensures(probe_step, (tried, ret), step),
    ensures
        verdict == Some(ProbeResult::Success) <==> ret == 0,
        verdict is None <==> retryable(ret as int),
        verdict == Some(ProbeResult::Permanent) <==> helper_failed(ret as int),
        verdict is Some ==> step == verdict,
        verdict is None && tried < 7 ==> step is None,
        verdict is None && tried >= 7 ==> step == Some(ProbeResult::Transient),
{
}

/// Capture is available after a probe exactly if the probe succeeded. A success and a helper
/// that cannot run are remembered; anything else leaves what is remembered as it is.
pub proof fn law_outcome_of_a_probe(st: &mut DrmState, r: ProbeResult, ok: bool)
    requires
        call_ensures(settle_probe, (st, r), ok),
    ensures
        ok <==> r == ProbeResult::Success,
        r == ProbeResult::Success ==> final(st).probe == ProbeCache::Working,
        r == ProbeResult::Permanent ==> final(st).probe == ProbeCache::Unavailable,
        r == ProbeResult::Transient ==> final(st).probe == old(st).probe,
        crate::laws::enumeration::same_outputs(final(st).bad_crtcs@, old(st).bad_crtcs@),
        crate::laws::enumeration::same_outputs(final(st).last_topology@, old(st).last_topology@),
        final(st)@.cursor == old(st)@.cursor,
{
    lemma_same_keys(final(st).bad_crtcs@, old(st).bad_crtcs@);
    lemma_same_keys(final(st).last_topology@, old(st).last_topology@);
}

proof fn lemma_same_keys(a: Seq<(String, u32)>, b: Seq<(String, u32)>)
    requires
        crate::drm::state::crtc_keys(a) == crate::drm::state::crtc_keys(b),
    ensures
        crate::laws::enumeration::same_outputs(a, b),
{
    let x = crate::drm::state::crtc_keys(a);
    let y = crate::drm::state::crtc_keys(b);
    assert(x.len() == a.len() && y.len() == b.len());
    assert forall|i: int| 0 <= i < a.len() implies (#[trigger] a[i]).0@ == b[i].0@ && a[i].1
        == b[i].1 by {
        assert(x[i] == y[i]);
    }
}

proof fn lemma_lists(keys: Seq<(String, u32)>, name: Seq<char>, crtc_id: u32)
    ensures
        crate::laws::enumeration::lists(keys, name, crtc_id) <==> crate::drm::state::crtc_keys(keys).contains(
            (name, crtc_id),
        ),
{
    let all = crate::drm::state::crtc_keys(keys);
    if crate::laws::enumeration::lists(keys, name, crtc_id) {
        let b = choose|b: int|
            0 <= b < keys.len() && (#[trigger] keys[b]).0@ == name && keys[b].1 == crtc_id;
        assert(all[b] == (name, crtc_id));
    }
    if all.contains((name, crtc_id)) {
        let b = choose|b: int| 0 <= b < all.len() && all[b] == (name, crtc_id);
        assert(keys[b].0@ == name && keys[b].1 == crtc_id);
    }
}

/// An output is known to be ungrabbable after it was marked, and every other output exactly if
/// it was before. Both its name and its CRTC count.
pub proof fn law_marks(
    st: &mut DrmState,
    name: &str,
    crtc_id: u32,
    other: &str,
    other_id: u32,
    before: bool,
    after: bool,
)
    requires
        call_ensures(mark_bad_crtc, (st, name, crtc_id), ()),
        call_ensures(is_bad_crtc, (&*old(st), other, other_id), before),
        call_ensures(is_bad_crtc, (&*final(st), other, other_id), after),
    ensures
        before == crate::laws::enumeration::lists(old(st).bad_crtcs@, other@, other_id),
        after <==> before || (other@ == name@ && other_id == crtc_id),
        final(st).probe == old(st).probe,
        crate::laws::enumeration::same_outputs(final(st).last_topology@, old(st).last_topology@),
{
    crate::drm::state::lemma_marked(old(st)@, (name@, crtc_id));
    lemma_lists(old(st).bad_crtcs@, other@, other_id);
    lemma_lists(final(st).bad_crtcs@, other@, other_id);
    lemma_same_keys(final(st).last_topology@, old(st).last_topology@);
}

/// Marking an output that is marked already lists it no second time.
pub proof fn law_marks_are_listed_once(st: &mut DrmState, name: &str, crtc_id: u32)
    requires
        call_ensures(mark_bad_crtc, (st, name, crtc_id), ()),
    ensures
        crate::laws::enumeration::lists(old(st).bad_crtcs@, name@, crtc_id) ==> crate::laws::enumeration::same_outputs(
            final(st).bad_crtcs@,
            old(st).bad_crtcs@,
        ),
        !crate::laws::enumeration::lists(old(st).bad_crtcs@, name@, crtc_id) ==> final(st).bad_crtcs@.len()
            == old(st).bad_crtcs@.len() + 1,
{
    lemma_lists(old(st).bad_crtcs@, name@, crtc_id);
    let a = crate::drm::state::crtc_keys(final(st).bad_crtcs@);
    let b = crate::drm::state::crtc_keys(old(st).bad_crtcs@);
    assert(a.len() == final(st).bad_crtcs@.len() && b.len() == old(st).bad_crtcs@.len());
    if a == b {
        lemma_same_keys(final(st).bad_crtcs@, old(st).bad_crtcs@);
    }
}

/// Other outputs than the last time end every mark; the same outputs end none. Either way they
/// are the outputs of the last time from then on.
pub proof fn law_marks_end_with_the_outputs(st: &mut DrmState, current: &[(String, u32)])
    requires
        call_ensures(reset_bad_crtcs_on_topology_change, (st, current), ()),
    ensures
        crate::laws::enumeration::same_outputs(final(st).last_topology@, current@),
        crate::laws::enumeration::same_outputs(old(st).last_topology@, current@) ==> crate::laws::enumeration::same_outputs(
            final(st).bad_crtcs@,
            old(st).bad_crtcs@,
        ),
        !crate::laws::enumeration::same_outputs(old(st).last_topology@, current@) ==> final(st).bad_crtcs@.len() == 0,
        final(st).probe == old(st).probe,
{
    let now = crate::drm::state::crtc_keys(current@);
    let last = crate::drm::state::crtc_keys(old(st).last_topology@);
    lemma_same_keys(final(st).last_topology@, current@);
    if crate::laws::enumeration::same_outputs(old(st).last_topology@, current@) {
        assert(last =~= now);
        lemma_same_keys(final(st).bad_crtcs@, old(st).bad_crtcs@);
    } else {
        if last == now {
            lemma_same_keys(old(st).last_topology@, current@);
        }
        assert(crate::drm::state::crtc_keys(final(st).bad_crtcs@).len()
            == final(st).bad_crtcs@.len());
    }
}

/// A device path is handed on as it is unless it holds a zero character; such a one counts as
/// not given. The CRTC is handed on, and debug output is on exactly if it is asked for.
pub proof fn law_configuration(crtc_id: u32, device: Option<String>, debug: bool, r: DrmConfig)
    requires
        call_ensures(build_drm_config, (crtc_id, device, debug), r),
    ensures
        r.crtc_id == crtc_id,
        debug ==> r.debug == 1,
        !debug ==> r.debug == 0,
        match device {
            None => r.device_path is None,
            Some(d) => if exists|i: int| 0 <= i < d@.len() && #[trigger] d@[i] as int == 0 {
                r.device_path is None
            } else {
                r.device_path matches Some(p) && p@ == d@
            },
        },
{
    if let Some(d) = device {
        if exists|i: int| 0 <= i < d@.len() && #[trigger] d@[i] as int == 0 {
            let i = choose|i: int| 0 <= i < d@.len() && #[trigger] d@[i] as int == 0;
            assert(d@[i] == '\0');
            assert(d@.contains('\0'));
        }
    }
}

/// Waiting the delay makes up what is left of 16 ms since the last picture, and there is no
/// delay once they have passed.
pub proof fn law_delay(c: &Capturer, now: u64, r: u64)
    requires
        call_ensures(Capturer::frame_delay, (c, now), r),
    ensures
        now >= c.last_grab && now - c.last_grab < 16_000_000 ==> now + r == c.last_grab
            + 16_000_000,
        now >= c.last_grab + 16_000_000 ==> r == 0,
        now < c.last_grab ==> r == 16_000_000,
{
}

/// A new capture is of the display that it was made for, has no picture yet, and there is none
/// without an open context.
pub proof fn law_new_capture(
    display: Display,
    opened: bool,
    now: u64,
    r: Result<Capturer, IoError>,
)
    requires
        call_ensures(Capturer::new, (display, opened, now), r),
    ensures
        r is Ok <==> opened,
        r matches Ok(c) ==> {
            &&& c.w == display.w
            &&& c.h == display.h
            &&& c.name@ == display.name@
            &&& c.crtc_id == display.crtc_id
            &&& c.last_grab == now
            &&& c.buffer@.len() == 0
            &&& c.cursor_tick == 0
            &&& c.frame_count == 0
        },
        r matches Err(e) ==> e.kind == ErrorKind::Other && e.message@ == "drmtap_open failed"@,
{
}

/// Whether there is nothing to show.
pub open spec fn empty_frame(info: FrameInfo) -> bool {
    !info.mapped || info.width == 0 || info.height == 0
}

/// A grab is tried again exactly if it failed with something that is worth it, or if it gave
/// nothing to show; only then is there a frame to give back. Neither leaves a trace.
pub proof fn law_grab_is_retried(
    c: &mut Capturer,
    st: &mut DrmState,
    ret: i32,
    info: &FrameInfo,
    now: u64,
    step: GrabStep,
)
    requires
        call_ensures(Capturer::frame_grabbed, (c, st, ret, info, now), step),
    ensures
        step is Retry <==> retryable(ret as int) || (ret >= 0 && empty_frame(*info)),
        step matches GrabStep::Retry { release } ==> {
            &&& release <==> ret >= 0
            &&& final(c).last_grab == old(c).last_grab
            &&& final(c).cursor_tick == old(c).cursor_tick
            &&& final(c).buffer@ == old(c).buffer@
            &&& final(st).probe == old(st).probe
            &&& crate::laws::enumeration::same_outputs(final(st).bad_crtcs@, old(st).bad_crtcs@)
        },
{
    if step is Retry {
        lemma_same_keys(final(st).bad_crtcs@, old(st).bad_crtcs@);
    }
}

/// Any other failure ends the capture with its errno. A helper that cannot run makes capture
/// unavailable; anything else asks for a new probe. The display is marked exactly if the failure
/// is neither the helper's nor that of a display that is gone, and a CRTC was asked for; no
/// other display is.
pub proof fn law_grab_fails(
    c: &mut Capturer,
    st: &mut DrmState,
    ret: i32,
    info: &FrameInfo,
    now: u64,
    step: GrabStep,
    other: Seq<char>,
    other_id: u32,
)
    requires
        call_ensures(Capturer::frame_grabbed, (c, st, ret, info, now), step),
    ensures
        step is Failed <==> ret < 0 && !retryable(ret as int),
        step matches GrabStep::Failed(e) ==> {
            &&& e.kind == ErrorKind::Other
            &&& exists|digits: Seq<char>| {
                &&& digits_value(digits) == -ret
                &&& e.message@ == #[trigger] ("drmtap_grab_mapped failed: errno "@ + digits)
            }
            &&& final(c).last_grab == old(c).last_grab
            &&& final(c).cursor_tick == old(c).cursor_tick
            &&& final(c).frame_count == old(c).frame_count
            &&& final(c).buffer@ == old(c).buffer@
            &&& crate::laws::enumeration::same_outputs(
                final(st).last_topology@,
                old(st).last_topology@,
            )
            &&& final(st)@.cursor == old(st)@.cursor
            &&& helper_failed(ret as int) ==> final(st).probe == ProbeCache::Unavailable
            &&& !helper_failed(ret as int) ==> final(st).probe == ProbeCache::Unknown
            &&& crate::laws::enumeration::lists(final(st).bad_crtcs@, other, other_id) <==> crate::laws::enumeration::lists(
                old(st).bad_crtcs@,
                other,
                other_id,
            ) || (other == old(c).name@ && other_id == old(c).crtc_id && old(c).crtc_id != 0
                && !helper_failed(ret as int) && ret != -19)
        },
{
    if ret < 0 && !retryable(ret as int) {
        law_decimal_reads_as_the_number((-ret) as nat);
        let digits = crate::text::decimal((-ret) as nat);
        assert(step->Failed_0.message@ == "drmtap_grab_mapped failed: errno "@ + digits);
        lemma_same_keys(final(st).last_topology@, old(st).last_topology@);
    }
    let key = (old(c).name@, old(c).crtc_id);
    let t = crate::drm::state::StateView { probe: ProbeCache::Unknown, ..old(st)@ };
    crate::drm::state::lemma_marked(t, key);
    lemma_lists(old(st).bad_crtcs@, other, other_id);
    lemma_lists(final(st).bad_crtcs@, other, other_id);
}

/// Every picture that is grabbed is delivered: it is noted when, and the cursor is polled with
/// every fourth. What is remembered of the outputs does not change.
pub proof fn law_grab_is_delivered(
    c: &mut Capturer,
    st: &mut DrmState,
    ret: i32,
    info: &FrameInfo,
    now: u64,
    step: GrabStep,
)
    requires
        call_ensures(Capturer::frame_grabbed, (c, st, ret, info, now), step),
    ensures
        step is Deliver <==> ret >= 0 && !empty_frame(*info),
        step matches GrabStep::Deliver { poll_cursor } ==> {
            &&& final(c).last_grab == now
            &&& old(c).cursor_tick < u64::MAX ==> final(c).cursor_tick == old(c).cursor_tick + 1
            &&& poll_cursor <==> final(c).cursor_tick % 4 == 0
            &&& final(c).frame_count == old(c).frame_count
            &&& final(c).w == old(c).w
            &&& final(c).h == old(c).h
            &&& final(c).buffer@ == old(c).buffer@
            &&& final(c).name@ == old(c).name@
            &&& final(c).crtc_id == old(c).crtc_id
            &&& final(st).probe == old(st).probe
            &&& crate::laws::enumeration::same_outputs(final(st).bad_crtcs@, old(st).bad_crtcs@)
        },
{
    if step is Deliver {
        lemma_same_keys(final(st).bad_crtcs@, old(st).bad_crtcs@);
    }
}

/// The value of a text of digits.
pub open spec fn digits_value(s: Seq<char>) -> int
    decreases s.len(),
{
    if s.len() == 0 {
        0
    } else {
        10 * digits_value(s.drop_last()) + (s.last() as int - 48)
    }
}

/// A number in decimal reads as that number, has only digits, and no zero in front.
pub proof fn law_decimal_reads_as_the_number(n: nat)
    ensures
        digits_value(crate::text::decimal(n)) == n,
        crate::text::decimal(n).len() >= 1,
        forall|i: int|
            0 <= i < crate::text::decimal(n).len() ==> 48 <= #[trigger] crate::text::decimal(
                n,
            )[i] as int <= 57,
        n > 0 ==> crate::text::decimal(n)[0] as int != 48,
    decreases n,
{
    let s = crate::text::decimal(n);
    if n < 10 {
        assert(s.drop_last() =~= Seq::empty());
        assert(digits_value(s.drop_last()) == 0);
    } else {
        law_decimal_reads_as_the_number(n / 10);
        assert(s.drop_last() =~= crate::text::decimal(n / 10));
    }
}

/// The error of a failed grab ends in the errno, without its sign.
pub proof fn law_failure_names_its_errno(ret: i32, e: IoError) -> (digits: Seq<char>)
    requires
        call_ensures(grab_failure, (ret,), e),
        ret < 0,
    ensures
        e.kind == ErrorKind::Other,
        e.message@ == "drmtap_grab_mapped failed: errno "@ + digits,
        digits_value(digits) == -ret,
        digits.len() >= 1,
{
    law_decimal_reads_as_the_number((-ret) as nat);
    crate::text::decimal((-ret) as nat)
}

/// A packed picture has four bytes for each pixel, row after row: byte `x` of row `y` is the
/// one that stands `x` bytes behind the start of row `y` in the source, where rows are a stride
/// apart. Nothing of the padding is left.
pub proof fn law_rows_are_packed(
    buf: &mut Vec<u8>,
    data: &[u8],
    w: usize,
    h: usize,
    stride: usize,
    x: int,
    y: int,
)
    requires
        call_ensures(pack_rows, (buf, data, w, h, stride), ()),
        0 <= x < 4 * w,
        0 <= y < h,
    ensures
        final(buf)@.len() == 4 * w * h,
        final(buf)@[4 * w * y + x] == data@[stride * y + x],
{
    crate::pixels::lemma_packed_byte(data@, w as nat, h as nat, stride as nat, x, y);
    assert(4 * w * y == w * 4 * y) by (nonlinear_arith);
    assert(4 * w * h == w * 4 * h) by (nonlinear_arith);
    assert(stride * y == y * stride) by (nonlinear_arith);
}

/// A packed picture is just as long as its pixels take, four bytes each.
pub proof fn law_length_of_a_packed_picture(
    buf: &mut Vec<u8>,
    data: &[u8],
    w: usize,
    h: usize,
    stride: usize,
)
    requires
        call_ensures(pack_rows, (buf, data, w, h, stride), ()),
    ensures
        final(buf)@.len() == 4 * w * h,
{
    assert(4 * w * h == w * 4 * h) by (nonlinear_arith);
}

/// What is tried again is tried after the time that lies between two grabs.
pub proof fn law_pause_is_the_interval()
    ensures
        crate::drm::capture::RETRY_PAUSE_MS * 1_000_000
            == crate::drm::capture::MIN_GRAB_INTERVAL_NANOS,
{
}

/// A picture is delivered with the width and height that the grab gave, and its rows packed. It
/// is kept until the next one.
pub proof fn law_picture_is_delivered(
    c: &mut Capturer,
    info: &FrameInfo,
    data: &[u8],
    f: Frame<'_>,
    x: int,
    y: int,
)
    requires
        call_ensures(Capturer::frame, (c, info, data), f),
        0 <= x < 4 * info.width,
        0 <= y < info.height,
    ensures
        f.width == info.width,
        f.height == info.height,
        f.pixfmt == Pixfmt::BGRA,
        f.data@.len() == 4 * info.width * info.height,
        f.data@[4 * info.width * y + x] == data@[info.stride * y + x],
        final(c).buffer@ == f.data@,
        final(c).w == info.width,
        final(c).h == info.height,
        final(c).name@ == old(c).name@,
        final(c).crtc_id == old(c).crtc_id,
        final(c).last_grab == old(c).last_grab,
        final(c).cursor_tick == old(c).cursor_tick,
        old(c).frame_count < u64::MAX ==> final(c).frame_count == old(c).frame_count + 1,
{
    let w = info.width as nat;
    let h = info.height as nat;
    let stride = info.stride as nat;
    crate::pixels::lemma_packed_byte(data@, w, h, stride, x, y);
    assert(4 * w * y == w * 4 * y) by (nonlinear_arith);
    assert(4 * w * h == w * 4 * h) by (nonlinear_arith);
    assert(stride * y == y * stride) by (nonlinear_arith);
}

/// A capture is as wide and as high as its picture.
pub proof fn law_size_of_a_capture(c: &Capturer, w: usize, h: usize)
    requires
        call_ensures(Capturer::width, (c,), w),
        call_ensures(Capturer::height, (c,), h),
    ensures
        w == c.w,
        h == c.h,
{
}

/// Whether these are the grabs of a probe: eight at most, all but the last worth a retry, and
/// fewer than eight only if the last is not.
pub open spec fn grabs_of_a_probe(rets: Seq<i32>) -> bool {
    &&& 1 <= rets.len() <= 8
    &&& forall|i: int| 0 <= i < rets.len() - 1 ==> retryable(#[trigger] rets[i] as int)
    &&& rets.len() < 8 ==> !retryable(rets[rets.len() - 1] as int)
}

/// A probe without a context concludes nothing. With one it grabs until a grab is not worth a
/// retry, eight times at most, each time anew, and the last grab decides.
pub proof fn law_probe<G: Fn(usize) -> i32, P: Fn(u64)>(
    opened: bool,
    grab: G,
    pause: P,
    r: ProbeResult,
)
    requires
        call_ensures(capture_probe::<G, P>, (opened, grab, pause), r),
    ensures
        !opened ==> r == ProbeResult::Transient,
        opened ==> exists|rets: Seq<i32>| {
            &&& #[trigger] grabs_of_a_probe(rets)
            &&& forall|i: int|
                0 <= i < rets.len() ==> grab.ensures((i as usize,), #[trigger] rets[i])
            &&& r == ProbeResult::Success <==> rets[rets.len() - 1] == 0
            &&& r == ProbeResult::Permanent <==> helper_failed(rets[rets.len() - 1] as int)
        },
{
    if opened {
        let rets = choose|rets: Seq<i32>|
            {
                &&& #[trigger] crate::drm::probe::probe_run(rets)
                &&& forall|i: int|
                    0 <= i < rets.len() ==> grab.ensures((i as usize,), #[trigger] rets[i])
                &&& r == crate::drm::probe::probe_outcome(rets)
            };
        assert forall|i: int| 0 <= i < rets.len() - 1 implies retryable(
            #[trigger] rets[i] as int,
        ) by {
            assert(crate::drm::probe::verdict(rets[i] as int) is None);
        }
        assert(grabs_of_a_probe(rets));
    }
}

/// What is known is answered without a probe. What is not known is answered by one, and is
/// known from then on unless the probe settled nothing.
pub proof fn law_known_capture_is_not_probed<F: FnOnce() -> ProbeResult>(
    st: &mut DrmState,
    probe: F,
    ok: bool,
)
    requires
        call_ensures(capture_available::<F>, (st, probe), ok),
    ensures
        old(st).probe == ProbeCache::Working ==> ok && final(st).probe == ProbeCache::Working,
        old(st).probe == ProbeCache::Unavailable ==> !ok && final(st).probe
            == ProbeCache::Unavailable,
        old(st).probe == ProbeCache::Unknown ==> exists|r: ProbeResult| {
            &&& #[trigger] probe.ensures((), r)
            &&& ok <==> r == ProbeResult::Success
            &&& final(st).probe == (match r {
                ProbeResult::Success => ProbeCache::Working,
                ProbeResult::Permanent => ProbeCache::Unavailable,
                ProbeResult::Transient => ProbeCache::Unknown,
            })
        },
        crate::laws::enumeration::same_outputs(final(st).bad_crtcs@, old(st).bad_crtcs@),
        crate::laws::enumeration::same_outputs(final(st).last_topology@, old(st).last_topology@),
        final(st)@.cursor == old(st)@.cursor,
{
    lemma_same_keys(final(st).bad_crtcs@, old(st).bad_crtcs@);
    lemma_same_keys(final(st).last_topology@, old(st).last_topology@);
    if old(st).probe == ProbeCache::Unknown {
        let r = choose|r: ProbeResult|
            {
                &&& #[trigger] probe.ensures((), r)
                &&& final(st)@ == crate::drm::probe::settled(old(st)@, r)
                &&& ok == (r == ProbeResult::Success)
            };
        assert(probe.ensures((), r));
    }
}

/// At first nothing is known: no probe, no cursor, no output, and none that is ungrabbable.
pub proof fn law_nothing_is_known_at_first(st: DrmState)
    requires
        call_ensures(DrmState::new, (), st),
    ensures
        st.probe == ProbeCache::Unknown,
        st.cursor is None,
        st.bad_crtcs@.len() == 0,
        st.last_topology@.len() == 0,
{
    assert(crate::drm::state::crtc_keys(st.bad_crtcs@).len() == st.bad_crtcs@.len());
    assert(crate::drm::state::crtc_keys(st.last_topology@).len() == st.last_topology@.len());
}

} // verus!
