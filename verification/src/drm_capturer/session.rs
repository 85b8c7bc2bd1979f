//! A capture session: the reader's end of a stream.

use crate::common::{ErrorKind, Frame, IoError, Pixfmt};
use crate::drm_capturer::availability::{Answer, DrmServer, ProbeState, DRM_GRAB_MAX_FAILURES};
use crate::drm_capturer::stream::{FrameSlot, SlotView};
use crate::ipc::DrmDisplayInfo;
use vstd::prelude::*;
use vstd::string::*;

verus! {

/// A capture session.
#[derive(Debug)]
pub struct IpcDrmCapturer {
    /// The picture read last, with its size.
    pub cur: Vec<u8>,
    pub cur_w: usize,
    pub cur_h: usize,
    /// Whether a picture was ever read. A session without any may mean that capture cannot
    /// work here.
    pub got_frame: bool,
    /// Whether the end of the session was reported, and the session thus counted if it had no
    /// picture. Each session is counted once, however often it is read after its end.
    pub counted: bool,
}

/// What reading comes to.
#[derive(Debug)]
pub enum FrameStep {
    /// Nothing yet; wait to be woken, at most for this many nanoseconds, and read again.
    Wait(u64),
    /// A picture was read.
    Ready,
    /// Nothing in time, or the stream is over.
    Failed(IoError),
}

/// The outcome of a query that was waited for; `None` if it did not come in time.
pub fn query_displays(received: Option<Answer>) -> (r: Answer)
    ensures
        match received {
            Some(a) => r == a,
            None => r matches Err(e) && e@ == "drm display query timed out"@,
        },
{
    match received {
        Some(a) => a,
        None => Err("drm display query timed out".to_owned()),
    }
}

/// The service after a session ended without a picture: too many of those in a row and capture
/// counts as unavailable.
pub open spec fn empty_session(s: DrmServer) -> DrmServer {
    let n = s.grab_failures.wrapping_add(1);
    if n >= DRM_GRAB_MAX_FAILURES {
        DrmServer { grab_failures: n, state: ProbeState::Unavailable, ..s }
    } else {
        DrmServer { grab_failures: n, ..s }
    }
}

impl IpcDrmCapturer {
    /// A session whose handshake came to this, with the displays that there are; `None` if it
    /// did not come in time.
    pub fn new(handshake: Option<Answer>) -> (r: Result<
        (IpcDrmCapturer, Vec<DrmDisplayInfo>),
        String,
    >)
        ensures
            match handshake {
                Some(Ok(list)) => {
                    &&& r matches Ok(p)
                    &&& p.1 == list
                    &&& p.0.cur@ == Seq::<u8>::empty()
                    &&& p.0.cur_w == 0
                    &&& p.0.cur_h == 0
                    &&& !p.0.got_frame
                    &&& !p.0.counted
                },
                Some(Err(e)) => r matches Err(f) && f == e,
                None => r matches Err(f) && f@ == "drm capture handshake timed out"@,
            },
    {
        match handshake {
            Some(Ok(list)) => Ok(
                (
                    IpcDrmCapturer {
                        cur: Vec::new(),
                        cur_w: 0,
                        cur_h: 0,
                        got_frame: false,
                        counted: false,
                    },
                    list,
                ),
            ),
            Some(Err(e)) => Err(e),
            None => Err("drm capture handshake timed out".to_owned()),
        }
    }

    /// Reads the slot. `now` is the time, `deadline` when to give up, both in nanoseconds on
    /// one clock. A picture is read before an end is reported, so that the last one is not
    /// lost. A session that ends without any picture is counted, once.
    pub fn frame_step(
        &mut self,
        slot: &mut FrameSlot,
        srv: &mut DrmServer,
        now: u64,
        deadline: u64,
    ) -> (step: FrameStep)
        ensures
            match (old(slot)@.latest, old(slot)@.ended) {
                (Some((w, h, pixels)), _) => {
                    &&& step is Ready
                    &&& final(slot)@ == (SlotView { latest: None, ..old(slot)@ })
                    &&& final(self).cur@ == pixels
                    &&& final(self).cur_w == w
                    &&& final(self).cur_h == h
                    &&& final(self).got_frame
                    &&& final(self).counted == old(self).counted
                    &&& *final(srv) == (if old(self).got_frame {
                        *old(srv)
                    } else {
                        DrmServer { grab_failures: 0, ..*old(srv) }
                    })
                },
                (None, Some(reason)) => {
                    &&& step matches FrameStep::Failed(e)
                    &&& e@ == (ErrorKind::Other, reason)
                    &&& final(slot)@ == old(slot)@
                    &&& *final(self) == (IpcDrmCapturer { counted: true, ..*old(self) })
                    &&& *final(srv) == (if old(self).got_frame || old(self).counted {
                        *old(srv)
                    } else {
                        empty_session(*old(srv))
                    })
                },
                (None, None) => {
                    &&& final(slot)@ == old(slot)@
                    &&& *final(self) == *old(self)
                    &&& *final(srv) == *old(srv)
                    &&& now < deadline ==> step == FrameStep::Wait((deadline - now) as u64)
                    &&& now >= deadline ==> (step matches FrameStep::Failed(e) && e@ == (
                        ErrorKind::WouldBlock,
                        Seq::<char>::empty(),
                    ))
                },
            },
    {
        match slot.latest.take() {
            Some((w, h, pixels)) => {
                self.cur = pixels;
                self.cur_w = w;
                self.cur_h = h;
                if !self.got_frame {
                    self.got_frame = true;
                    srv.grab_failures = 0;
                }
                FrameStep::Ready
            },
            None => {
                match &slot.ended {
                    Some(reason) => {
                        if !self.got_frame && !self.counted {
                            srv.grab_failures = srv.grab_failures.wrapping_add(1);
                            if srv.grab_failures >= DRM_GRAB_MAX_FAILURES {
                                srv.state = ProbeState::Unavailable;
                            }
                        }
                        self.counted = true;
                        FrameStep::Failed(IoError::new(ErrorKind::Other, reason.as_str()))
                    },
                    None => {
                        if now < deadline {
                            FrameStep::Wait(deadline - now)
                        } else {
                            FrameStep::Failed(IoError::would_block())
                        }
                    },
                }
            },
        }
    }

    /// The picture read last.
    pub fn frame(&self) -> (r: Frame<'_>)
        ensures
            r.data@ == self.cur@,
            r.pixfmt == Pixfmt::BGRA,
            r.width == self.cur_w,
            r.height == self.cur_h,
    {
        Frame {
            data: self.cur.as_slice(),
            pixfmt: Pixfmt::BGRA,
            width: self.cur_w,
            height: self.cur_h,
        }
    }
}

/// A session of a display, with what the display is.
#[derive(Debug)]
pub struct CapturerInfo {
    pub origin: (i32, i32),
    pub width: usize,
    pub height: usize,
    pub ndisplay: usize,
    pub current: usize,
    pub privacy_mode_id: i32,
    pub capturer_privacy_mode_id: i32,
    pub capturer: IpcDrmCapturer,
}

/// The text for a display that there is not.
pub open spec fn out_of_range(display_idx: nat, ndisplay: nat) -> Seq<char> {
    "drm display index "@ + crate::text::decimal(display_idx) + " out of range ("@
        + crate::text::decimal(ndisplay) + ")"@
}

/// A session of the display at a position of the list that its handshake brings. The list is
/// remembered, so that displays are described as they are now; not so where the position is
/// none of the list.
pub fn get_capturer_info(
    srv: &mut DrmServer,
    display_idx: usize,
    handshake: Option<Answer>,
) -> (r: Result<CapturerInfo, String>)
    ensures
        match handshake {
            Some(Ok(list)) => if display_idx < list@.len() {
                &&& *final(srv) == (DrmServer { state: ProbeState::Available(list), ..*old(srv) })
                &&& r matches Ok(info)
                &&& info.origin == (list@[display_idx as int].x, list@[display_idx as int].y)
                &&& info.width == list@[display_idx as int].width
                &&& info.height == list@[display_idx as int].height
                &&& info.ndisplay == list@.len()
                &&& info.current == display_idx
                &&& info.privacy_mode_id == 0
                &&& info.capturer_privacy_mode_id == 0
                &&& info.capturer.cur@ == Seq::<u8>::empty()
                &&& info.capturer.cur_w == 0
                &&& info.capturer.cur_h == 0
                &&& !info.capturer.got_frame
                &&& !info.capturer.counted
            } else {
                &&& *final(srv) == *old(srv)
                &&& r matches Err(e)
                &&& e@ == out_of_range(display_idx as nat, list@.len())
            },
            Some(Err(e)) => *final(srv) == *old(srv) && (r matches Err(f) && f == e),
            None => *final(srv) == *old(srv) && (r matches Err(f) && f@
                == "drm capture handshake timed out"@),
        },
{
    let (capturer, displays) = match IpcDrmCapturer::new(handshake) {
        Ok(p) => p,
        Err(e) => {
            return Err(e);
        },
    };
    let ndisplay: usize = displays.len();
    if display_idx >= ndisplay {
        let mut text: String = "drm display index ".to_owned();
        crate::text::push_decimal(&mut text, display_idx as u64);
        text.append(" out of range (");
        crate::text::push_decimal(&mut text, ndisplay as u64);
        text.append(")");
        return Err(text);
    }
    let origin: (i32, i32) = (displays[display_idx].x, displays[display_idx].y);
    let width: usize = displays[display_idx].width as usize;
    let height: usize = displays[display_idx].height as usize;
    srv.state = ProbeState::Available(displays);
    Ok(
        CapturerInfo {
            origin,
            width,
            height,
            ndisplay,
            current: display_idx,
            privacy_mode_id: 0,
            capturer_privacy_mode_id: 0,
            capturer,
        },
    )
}

/// A service after a number of sessions in a row that ended without a picture.
pub open spec fn empty_sessions(s: DrmServer, n: nat) -> DrmServer
    decreases n,
{
    if n == 0 {
        s
    } else {
        empty_session(empty_sessions(s, (n - 1) as nat))
    }
}

/// Capture is given up exactly with the last session in a row without a picture that is
/// allowed, counted from the last session that had one, and stays so.
pub proof fn lemma_empty_sessions(s: DrmServer, n: nat)
    requires
        s.grab_failures == 0,
        !(s.state is Unavailable),
    ensures
        n <= u32::MAX ==> empty_sessions(s, n).grab_failures == n,
        empty_sessions(s, n).state is Unavailable <==> n >= DRM_GRAB_MAX_FAILURES,
        n < DRM_GRAB_MAX_FAILURES ==> empty_sessions(s, n).state == s.state,
    decreases n,
{
    if n > 0 {
        lemma_empty_sessions(s, (n - 1) as nat);
    }
}

} // verus!
