//! Capturing one display: pacing, what a grab means, and the picture that is delivered.

use crate::common::{ErrorKind, Frame, IoError, Pixfmt};
use crate::drm::cursor::{cursor_pixel_count, decode_cursor, CursorInfo, CursorView};
use crate::drm::display::Display;
use crate::drm::state::{mark_bad_crtc, CrtcKey, DrmState, ProbeCache, StateView};
use crate::errno::{is_setup_errno, is_transient_errno, ENODEV};
use vstd::prelude::*;
use vstd::string::*;

verus! {

/// The least time between two grabs, in nanoseconds: at most about 60 frames a second.
pub const MIN_GRAB_INTERVAL_NANOS: u64 = 16_000_000;

/// How long to wait before a grab that gave nothing is tried again, in milliseconds.
pub const RETRY_PAUSE_MS: u64 = 16;

/// The cursor plane is polled once in this many frames.
pub const CURSOR_POLL_FRAMES: u64 = 4;

/// What a grab fills in besides the pixels.
#[derive(Clone, Copy, Debug)]
pub struct FrameInfo {
    /// Whether the pixels are mapped.
    pub mapped: bool,
    pub width: u32,
    pub height: u32,
    /// Bytes from one row to the next.
    pub stride: u32,
    /// The pixel format, as a DRM fourcc.
    pub format: u32,
}

impl FrameInfo {
    /// Whether there is a picture at all.
    pub open spec fn has_picture(self) -> bool {
        self.mapped && self.width > 0 && self.height > 0
    }

    /// Whether `len` bytes hold the rows of the picture, and its packed form can be held.
    pub open spec fn fits(self, len: nat) -> bool {
        &&& crate::pixels::source_len(self.width as nat, self.height as nat, self.stride as nat)
            <= len
        &&& crate::pixels::packed_len(self.width as nat, self.height as nat) <= usize::MAX
    }

    /// The picture in some bytes, tightly packed.
    pub open spec fn picture(self, data: Seq<u8>) -> Seq<u8> {
        crate::pixels::packed(data, self.width as nat, self.height as nat, self.stride as nat)
    }
}

/// A capture of one display.
#[derive(Debug)]
pub struct Capturer {
    pub w: usize,
    pub h: usize,
    /// The picture delivered last.
    pub buffer: Vec<u8>,
    pub frame_count: u64,
    pub cursor_tick: u64,
    /// When the last picture was grabbed, on a monotonic clock in nanoseconds.
    pub last_grab: u64,
    /// The display, so that a failure can be attributed to it. A CRTC id of 0 picks a CRTC
    /// and identifies none.
    pub name: String,
    pub crtc_id: u32,
}

/// The contents of a capture.
pub struct CapturerView {
    pub w: usize,
    pub h: usize,
    pub buffer: Seq<u8>,
    pub frame_count: u64,
    pub cursor_tick: u64,
    pub last_grab: u64,
    pub name: Seq<char>,
    pub crtc_id: u32,
}

impl View for Capturer {
    type V = CapturerView;

    open spec fn view(&self) -> CapturerView {
        CapturerView {
            w: self.w,
            h: self.h,
            buffer: self.buffer@,
            frame_count: self.frame_count,
            cursor_tick: self.cursor_tick,
            last_grab: self.last_grab,
            name: self.name@,
            crtc_id: self.crtc_id,
        }
    }
}

/// What to do after a grab.
#[derive(Debug)]
pub enum GrabStep {
    /// Give the frame back if `release` is set, wait `RETRY_PAUSE_MS`, and report that
    /// nothing is ready.
    Retry { release: bool },
    /// Tear the capture down with this error.
    Failed(IoError),
    /// Poll the cursor plane if `poll_cursor` is set, then deliver the picture and give the
    /// frame back.
    Deliver { poll_cursor: bool },
}

/// The text of a failed grab.
pub open spec fn grab_error(ret: int) -> (ErrorKind, Seq<char>) {
    (
        ErrorKind::Other,
        "drmtap_grab_mapped failed: errno "@ + crate::text::signed_decimal(-ret),
    )
}

/// The error of a failed grab.
pub fn grab_failure(ret: i32) -> (e: IoError)
    ensures
        e@ == grab_error(ret as int),
{
    let mut message: String = "drmtap_grab_mapped failed: errno ".to_owned();
    crate::text::push_signed_decimal(&mut message, -(ret as i64));
    IoError { kind: ErrorKind::Other, message }
}

/// The memory after a grab of a display failed for good. A helper that cannot run switches
/// capture off. Anything else asks for a new probe, and where the failure can be laid to the
/// display itself, marks it.
pub open spec fn after_failure(s: StateView, ret: int, key: CrtcKey) -> StateView {
    if crate::errno::setup(ret) {
        StateView { probe: ProbeCache::Unavailable, ..s }
    } else {
        let t = StateView { probe: ProbeCache::Unknown, ..s };
        if ret != -ENODEV && key.1 != 0 {
            t.marked(key)
        } else {
            t
        }
    }
}

impl Capturer {
    /// A capture of a display. `opened` says whether its context could be opened, `now` is
    /// the time.
    pub fn new(display: Display, opened: bool, now: u64) -> (r: Result<Capturer, IoError>)
        ensures
            match r {
                Ok(c) => opened && c@ == (CapturerView {
                    w: display@.w,
                    h: display@.h,
                    buffer: Seq::empty(),
                    frame_count: 0,
                    cursor_tick: 0,
                    last_grab: now,
                    name: display@.name,
                    crtc_id: display@.crtc_id,
                }),
                Err(e) => !opened && e@ == (ErrorKind::Other, "drmtap_open failed"@),
            },
    {
        if !opened {
            return Err(IoError::new(ErrorKind::Other, "drmtap_open failed"));
        }
        Ok(
            Capturer {
                w: display.w,
                h: display.h,
                buffer: Vec::new(),
                frame_count: 0,
                cursor_tick: 0,
                last_grab: now,
                name: display.name,
                crtc_id: display.crtc_id,
            },
        )
    }

    /// Width of the picture.
    pub fn width(&self) -> (r: usize)
        ensures
            r == self@.w,
    {
        self.w
    }

    /// Height of the picture.
    pub fn height(&self) -> (r: usize)
        ensures
            r == self@.h,
    {
        self.h
    }

    /// How long to wait before the next grab, in nanoseconds.
    pub fn frame_delay(&self, now: u64) -> (r: u64)
        ensures
            r == delay(self@.last_grab as int, now as int),
    {
        let elapsed: u64 = now.saturating_sub(self.last_grab);
        if elapsed < MIN_GRAB_INTERVAL_NANOS {
            MIN_GRAB_INTERVAL_NANOS - elapsed
        } else {
            0
        }
    }

    /// Takes in what a grab returned, and says what to do next. `now` is the time.
    pub fn frame_grabbed(
        &mut self,
        st: &mut DrmState,
        ret: i32,
        info: &FrameInfo,
        now: u64,
    ) -> (step: GrabStep)
        ensures
            ret < 0 && crate::errno::transient(ret as int) ==> {
                &&& step == (GrabStep::Retry { release: false })
                &&& final(self)@ == old(self)@
                &&& final(st)@ == old(st)@
            },
            ret < 0 && !crate::errno::transient(ret as int) ==> {
                &&& step matches GrabStep::Failed(e)
                &&& e@ == grab_error(ret as int)
                &&& final(self)@ == old(self)@
                &&& final(st)@ == after_failure(
                    old(st)@,
                    ret as int,
                    (old(self)@.name, old(self)@.crtc_id),
                )
            },
            ret >= 0 && !info.has_picture() ==> {
                &&& step == (GrabStep::Retry { release: true })
                &&& final(self)@ == old(self)@
                &&& final(st)@ == old(st)@
            },
            ret >= 0 && info.has_picture() ==> {
                &&& step == (GrabStep::Deliver {
                    poll_cursor: final(self)@.cursor_tick % CURSOR_POLL_FRAMES == 0,
                })
                &&& final(self)@ == (CapturerView {
                    last_grab: now,
                    cursor_tick: old(self)@.cursor_tick.wrapping_add(1),
                    ..old(self)@
                })
                &&& final(st)@ == old(st)@
            },
    {
        if ret < 0 {
            if is_transient_errno(ret) {
                return GrabStep::Retry { release: false };
            }
            if is_setup_errno(ret) {
                st.probe = ProbeCache::Unavailable;
            } else {
                st.probe = ProbeCache::Unknown;
                if ret != -ENODEV && self.crtc_id != 0 {
                    mark_bad_crtc(st, self.name.as_str(), self.crtc_id);
                }
            }
            return GrabStep::Failed(grab_failure(ret));
        }
        if !info.mapped || info.width == 0 || info.height == 0 {
            return GrabStep::Retry { release: true };
        }
        self.last_grab = now;
        self.cursor_tick = self.cursor_tick.wrapping_add(1);
        GrabStep::Deliver { poll_cursor: self.cursor_tick % CURSOR_POLL_FRAMES == 0 }
    }

    /// Takes in the cursor plane: `ret` and `info` are what reading it returned, `pixels` its
    /// pixels, row by row. A plane that shows no usable cursor changes nothing, nor does a
    /// cursor of the same shape as the last one.
    pub fn update_cursor(&self, st: &mut DrmState, ret: i32, info: &CursorInfo, pixels: &[u32])
        requires
            crate::drm::cursor::usable(ret as int, *info) ==> pixels@.len() == info.width
                * info.height,
        ensures
            final(st)@ == cursor_updated(old(st)@, ret as int, *info, pixels@),
    {
        if cursor_pixel_count(ret, info).is_some() {
            let next = decode_cursor(info, pixels);
            let changed: bool = match &st.cursor {
                Some(c) => c.id != next.id,
                None => true,
            };
            if changed {
                st.cursor = Some(next);
            }
        }
    }

    /// Delivers a picture. Every picture that was grabbed is delivered: a compositor may draw
    /// into the buffer that is scanned out, so a buffer that was seen before proves nothing.
    pub fn frame(&mut self, info: &FrameInfo, data: &[u8]) -> (r: Frame<'_>)
        requires
            info.has_picture(),
            info.fits(data@.len()),
        ensures
            r.data@ == info.picture(data@),
            r.pixfmt == Pixfmt::BGRA,
            r.width == info.width,
            r.height == info.height,
            final(self)@ == (CapturerView {
                buffer: info.picture(data@),
                frame_count: old(self)@.frame_count.wrapping_add(1),
                w: info.width as usize,
                h: info.height as usize,
                ..old(self)@
            }),
    {
        let w: usize = info.width as usize;
        let h: usize = info.height as usize;
        crate::pixels::pack_rows(&mut self.buffer, data, w, h, info.stride as usize);
        self.frame_count = self.frame_count.wrapping_add(1);
        self.w = w;
        self.h = h;
        Frame { data: self.buffer.as_slice(), pixfmt: Pixfmt::BGRA, width: w, height: h }
    }
}

/// How long to wait at `now` after a grab at `last`.
pub open spec fn delay(last: int, now: int) -> int {
    let elapsed = if now < last {
        0
    } else {
        now - last
    };
    if elapsed < MIN_GRAB_INTERVAL_NANOS {
        MIN_GRAB_INTERVAL_NANOS - elapsed
    } else {
        0
    }
}

/// The memory after the cursor plane was read.
pub open spec fn cursor_updated(
    s: StateView,
    ret: int,
    info: CursorInfo,
    pixels: Seq<u32>,
) -> StateView {
    let next = crate::drm::cursor::decoded(info, pixels);
    let same = match s.cursor {
        Some(c) => c.id == next.id,
        None => false,
    };
    if crate::drm::cursor::usable(ret, info) && !same {
        StateView { cursor: Some(next), ..s }
    } else {
        s
    }
}

/// Whoever waits the delay grabs no sooner than the interval after the last picture.
pub proof fn lemma_grabs_are_paced(last: int, now: int)
    requires
        last <= now,
    ensures
        now + delay(last, now) - last >= MIN_GRAB_INTERVAL_NANOS,
        delay(last, now) <= MIN_GRAB_INTERVAL_NANOS,
{
}

/// A failed grab marks at most the display it was made on, and never for a display that is
/// asleep or gone, nor where the display was picked.
pub proof fn lemma_after_failure(s: StateView, ret: int, key: CrtcKey)
    ensures
        after_failure(s, ret, key).probe != ProbeCache::Working,
        after_failure(s, ret, key).probe == ProbeCache::Unavailable <==> crate::errno::setup(ret),
        ret == -ENODEV || key.1 == 0 ==> after_failure(s, ret, key).bad_crtcs == s.bad_crtcs,
        forall|k: CrtcKey|
            after_failure(s, ret, key).bad_crtcs.contains(k) ==> k == key || s.bad_crtcs.contains(k),
        after_failure(s, ret, key).cursor == s.cursor,
        after_failure(s, ret, key).last_topology == s.last_topology,
        s.well_formed() ==> after_failure(s, ret, key).well_formed(),
{
    let t = StateView { probe: ProbeCache::Unknown, ..s };
    crate::drm::state::lemma_marked(t, key);
}

/// A display whose grab failed for good is not offered again while the outputs stay the same;
/// every other display still is.
pub proof fn lemma_failed_display_is_dropped(
    s: StateView,
    ret: int,
    key: CrtcKey,
    displays: Seq<crate::drm::display::DisplayView>,
)
    requires
        !crate::errno::setup(ret),
        ret != -ENODEV,
        key.1 != 0,
    ensures
        crate::drm::enumerate::grabbable(displays, after_failure(s, ret, key).bad_crtcs)
            == crate::drm::enumerate::grabbable(displays, s.bad_crtcs).filter(
            |d: crate::drm::display::DisplayView| crate::drm::enumerate::key_of(d) != key,
        ),
{
    let t = StateView { probe: ProbeCache::Unknown, ..s };
    crate::drm::enumerate::lemma_mark_drops_one(t, key, displays);
}

/// The remembered cursor changes exactly when a usable one of another id is read, and then
/// it is the one that was read.
pub proof fn lemma_cursor_updated(s: StateView, ret: int, info: CursorInfo, pixels: Seq<u32>)
    ensures
        crate::drm::cursor::usable(ret, info) ==> (cursor_updated(s, ret, info, pixels).cursor
            matches Some(c) && c.id == crate::drm::cursor::cursor_hash(
            pixels,
            info.width,
        )),
        !crate::drm::cursor::usable(ret, info) ==> cursor_updated(s, ret, info, pixels) == s,
        cursor_updated(cursor_updated(s, ret, info, pixels), ret, info, pixels) == cursor_updated(
            s,
            ret,
            info,
            pixels,
        ),
        s.well_formed() ==> cursor_updated(s, ret, info, pixels).well_formed(),
{
}

/// A cursor of the same pixels but of another size is another cursor, and is taken.
pub proof fn lemma_resized_cursor_is_taken(
    s: StateView,
    ret: int,
    before: CursorInfo,
    info: CursorInfo,
    pixels: Seq<u32>,
)
    requires
        s.cursor == Some(crate::drm::cursor::decoded(before, pixels)),
        crate::drm::cursor::usable(ret, info),
        before.width != info.width,
    ensures
        cursor_updated(s, ret, info, pixels).cursor == Some(
            crate::drm::cursor::decoded(info, pixels),
        ),
        crate::drm::cursor::decoded(info, pixels).id != crate::drm::cursor::decoded(
            before,
            pixels,
        ).id,
{
    crate::drm::cursor::lemma_width_changes_id(pixels, before.width, info.width);
}

} // verus!
