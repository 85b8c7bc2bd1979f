//! The receiving side of a stream: a handshake, then headers that are each followed by a body,
//! until the stream ends. The phase says what to do next; `Receiver::step` takes in what came
//! of it.

use crate::drm::cursor::CursorView;
use crate::drm_capturer::availability::{display_list, Answer};
use crate::drm_capturer::cursors::{
    remove_drm_cursor, set_drm_cursor, DrmCursorData, DrmCursors,
};
use crate::ipc::{Data, DrmDisplayInfo};
use vstd::prelude::*;
use vstd::string::*;

verus! {

/// How long to try to connect, in milliseconds.
pub const CONNECT_TIMEOUT_MS: u64 = 1000;

/// How long to wait for the displays, in milliseconds.
pub const HANDSHAKE_TIMEOUT_MS: u64 = 3000;

/// How long to wait for a header before the stop flag is looked at again, in milliseconds.
pub const HEADER_POLL_MS: u64 = 200;

/// Where a stream and its reader meet. Only the newest picture is kept, so a slow reader never
/// holds the stream up.
#[derive(Debug)]
pub struct FrameSlot {
    /// Width, height and packed BGRA of the newest picture that was not read yet.
    pub latest: Option<(usize, usize, Vec<u8>)>,
    /// Why the stream ended, once it has.
    pub ended: Option<String>,
}

/// The contents of a slot.
pub struct SlotView {
    pub latest: Option<(usize, usize, Seq<u8>)>,
    pub ended: Option<Seq<char>>,
}

impl View for FrameSlot {
    type V = SlotView;

    open spec fn view(&self) -> SlotView {
        SlotView {
            latest: match self.latest {
                Some(f) => Some((f.0, f.1, f.2@)),
                None => None,
            },
            ended: match self.ended {
                Some(e) => Some(e@),
                None => None,
            },
        }
    }
}

impl FrameSlot {
    /// No picture yet, and not ended.
    pub fn new() -> (r: FrameSlot)
        ensures
            r@ == (SlotView { latest: None, ended: None }),
    {
        FrameSlot { latest: None, ended: None }
    }
}

/// What is to be done next.
#[derive(Debug)]
pub enum Phase {
    /// Connect, within `CONNECT_TIMEOUT_MS`.
    Connecting,
    /// Read the first message, within `HANDSHAKE_TIMEOUT_MS`.
    AwaitingList,
    /// Ask for the display; these are the displays there are.
    Starting(Vec<DrmDisplayInfo>),
    /// Report the outcome of the handshake.
    Announcing(Answer),
    /// Look at the stop flag.
    CheckingStop,
    /// Read a header, within `HEADER_POLL_MS`.
    Reading,
    /// Read the body of a picture of this width and height.
    FrameBody(usize, usize),
    /// Read the body of a cursor.
    CursorBody { id: u64, width: i32, height: i32, hotx: i32, hoty: i32 },
    /// Nothing: the stream is over.
    Done,
}

/// The contents of a phase.
pub enum PhaseView {
    Connecting,
    AwaitingList,
    Starting(Seq<DrmDisplayInfo>),
    Announcing(Result<Seq<DrmDisplayInfo>, Seq<char>>),
    CheckingStop,
    Reading,
    FrameBody(usize, usize),
    CursorBody { id: u64, width: i32, height: i32, hotx: i32, hoty: i32 },
    Done,
}

/// An answer as its contents.
pub open spec fn answer_view(a: Answer) -> Result<Seq<DrmDisplayInfo>, Seq<char>> {
    match a {
        Ok(list) => Ok(list@),
        Err(e) => Err(e@),
    }
}

impl View for Phase {
    type V = PhaseView;

    open spec fn view(&self) -> PhaseView {
        match *self {
            Phase::Connecting => PhaseView::Connecting,
            Phase::AwaitingList => PhaseView::AwaitingList,
            Phase::Starting(list) => PhaseView::Starting(list@),
            Phase::Announcing(a) => PhaseView::Announcing(answer_view(a)),
            Phase::CheckingStop => PhaseView::CheckingStop,
            Phase::Reading => PhaseView::Reading,
            Phase::FrameBody(w, h) => PhaseView::FrameBody(w, h),
            Phase::CursorBody { id, width, height, hotx, hoty } => PhaseView::CursorBody {
                id,
                width,
                height,
                hotx,
                hoty,
            },
            Phase::Done => PhaseView::Done,
        }
    }
}

/// What reading a header gave.
#[derive(Debug)]
pub enum Header {
    /// Nothing came in time.
    Timeout,
    Message(Data),
    /// Something came that is no message.
    Desynchronized,
    /// The connection failed.
    Failed(String),
}

/// What came of what was to be done.
#[derive(Debug)]
pub enum Event {
    /// Of connecting.
    Connected(Result<(), String>),
    /// Of waiting for the first message; `shown` is that message as text.
    Replied { reply: Result<Option<Data>, String>, shown: String },
    /// Of asking for the display.
    Requested(Result<(), String>),
    /// Of looking at the stop flag.
    Stop(bool),
    /// Of reading a header.
    Received(Header),
    /// Of reading a body.
    Body(Result<Vec<u8>, String>),
}

/// A stream with what it publishes.
pub struct StreamView {
    pub phase: PhaseView,
    pub slot: SlotView,
    pub cursors: Map<i32, CursorView>,
}

impl StreamView {
    /// The stream in another phase.
    pub open spec fn at(self, phase: PhaseView) -> StreamView {
        StreamView { phase, ..self }
    }

    /// The stream of a display after it ended: its cursor is gone, and its reader is told why.
    pub open spec fn ended(self, display: i32, reason: Seq<char>) -> StreamView {
        StreamView {
            phase: PhaseView::Done,
            slot: SlotView { ended: Some("drm stream ended ("@ + reason + ")"@), ..self.slot },
            cursors: self.cursors.remove(display),
        }
    }

    /// The stream of a display after an event. An event that does not belong to the phase
    /// changes nothing.
    pub open spec fn stepped(self, display: i32, ev: Event) -> StreamView {
        match (self.phase, ev) {
            (PhaseView::Connecting, Event::Connected(r)) => match r {
                Ok(_) => self.at(PhaseView::AwaitingList),
                Err(e) => self.at(PhaseView::Announcing(Err(e@))),
            },
            (PhaseView::AwaitingList, Event::Replied { reply, shown }) => match reply {
                Ok(Some(Data::DrmDisplayList(list))) => self.at(PhaseView::Starting(list@)),
                Ok(_) => self.at(
                    PhaseView::Announcing(Err("expected DrmDisplayList, got "@ + shown@)),
                ),
                Err(e) => self.at(PhaseView::Announcing(Err(e@))),
            },
            (PhaseView::Starting(list), Event::Requested(r)) => match r {
                Ok(_) => self.at(PhaseView::Announcing(Ok(list))),
                Err(e) => self.at(PhaseView::Announcing(Err(e@))),
            },
            (PhaseView::CheckingStop, Event::Stop(stop)) => if stop {
                self.ended(display, "stopped"@)
            } else {
                self.at(PhaseView::Reading)
            },
            (PhaseView::Reading, Event::Received(h)) => match h {
                Header::Timeout => self.at(PhaseView::CheckingStop),
                Header::Message(Data::DrmFrame { width, height }) => self.at(
                    PhaseView::FrameBody(width as usize, height as usize),
                ),
                Header::Message(Data::DrmCursor { id, width, height, hotx, hoty }) => self.at(
                    PhaseView::CursorBody {
                        id,
                        width: width as i32,
                        height: height as i32,
                        hotx,
                        hoty,
                    },
                ),
                Header::Message(_) => self.at(PhaseView::CheckingStop),
                Header::Desynchronized => self.ended(display, "desynchronized frame"@),
                Header::Failed(e) => self.ended(display, "recv: "@ + e@),
            },
            (PhaseView::FrameBody(w, h), Event::Body(b)) => match b {
                Ok(raw) => StreamView {
                    phase: PhaseView::CheckingStop,
                    slot: SlotView { latest: Some((w, h, raw@)), ..self.slot },
                    ..self
                },
                Err(e) => self.ended(display, "frame body: "@ + e@),
            },
            (PhaseView::CursorBody { id, width, height, hotx, hoty }, Event::Body(b)) => match b {
                Ok(raw) => StreamView {
                    phase: PhaseView::CheckingStop,
                    cursors: self.cursors.insert(
                        display,
                        CursorView { id, width, height, hotx, hoty, colors: raw@ },
                    ),
                    ..self
                },
                Err(e) => self.ended(display, "cursor body: "@ + e@),
            },
            _ => self,
        }
    }
}

/// The receiving side of the stream of one display.
#[derive(Debug)]
pub struct Receiver {
    pub display: i32,
    pub phase: Phase,
}

/// The stream with what it publishes.
pub open spec fn stream_view(r: Receiver, slot: FrameSlot, cursors: DrmCursors) -> StreamView {
    StreamView { phase: r.phase@, slot: slot@, cursors: cursors@ }
}

impl Receiver {
    /// A stream that has yet to connect.
    pub fn new(display: i32) -> (r: Receiver)
        ensures
            r.display == display,
            r.phase@ == PhaseView::Connecting,
    {
        Receiver { display, phase: Phase::Connecting }
    }

    fn end(&mut self, slot: &mut FrameSlot, cursors: &mut DrmCursors, what: &str, detail: &str)
        ensures
            final(self).display == old(self).display,
            stream_view(*final(self), *final(slot), *final(cursors)) == stream_view(
                *old(self),
                *old(slot),
                *old(cursors),
            ).ended(old(self).display, what@ + detail@),
    {
        remove_drm_cursor(cursors, self.display);
        let mut text: String = "drm stream ended (".to_owned();
        text.append(what);
        text.append(detail);
        text.append(")");
        assert(text@ =~= "drm stream ended ("@ + (what@ + detail@) + ")"@);
        slot.ended = Some(text);
        self.phase = Phase::Done;
    }

    /// Takes in an event. The result says whether the reader of the slot is to be woken.
    pub fn step(&mut self, ev: Event, slot: &mut FrameSlot, cursors: &mut DrmCursors) -> (wake:
        bool)
        ensures
            final(self).display == old(self).display,
            stream_view(*final(self), *final(slot), *final(cursors)) == stream_view(
                *old(self),
                *old(slot),
                *old(cursors),
            ).stepped(old(self).display, ev),
            wake == wakes(old(self).phase@, ev),
    {
        let mut phase = Phase::Done;
        std::mem::swap(&mut phase, &mut self.phase);
        match (phase, ev) {
            (Phase::Connecting, Event::Connected(r)) => {
                self.phase = match r {
                    Ok(_) => Phase::AwaitingList,
                    Err(e) => Phase::Announcing(Err(e)),
                };
                false
            },
            (Phase::AwaitingList, Event::Replied { reply, shown }) => {
                self.phase = match reply {
                    Ok(message) => match display_list(message, shown.as_str()) {
                        Ok(list) => Phase::Starting(list),
                        Err(e) => Phase::Announcing(Err(e)),
                    },
                    Err(e) => Phase::Announcing(Err(e)),
                };
                false
            },
            (Phase::Starting(list), Event::Requested(r)) => {
                self.phase = match r {
                    Ok(_) => Phase::Announcing(Ok(list)),
                    Err(e) => Phase::Announcing(Err(e)),
                };
                false
            },
            (Phase::CheckingStop, Event::Stop(stop)) => {
                if stop {
                    self.end(slot, cursors, "stopped", "");
                    proof {
                        reveal_strlit("");
                        assert("stopped"@ + ""@ =~= "stopped"@);
                    }
                    true
                } else {
                    self.phase = Phase::Reading;
                    false
                }
            },
            (Phase::Reading, Event::Received(h)) => match h {
                Header::Timeout => {
                    self.phase = Phase::CheckingStop;
                    false
                },
                Header::Message(Data::DrmFrame { width, height }) => {
                    self.phase = Phase::FrameBody(width as usize, height as usize);
                    false
                },
                Header::Message(Data::DrmCursor { id, width, height, hotx, hoty }) => {
                    self.phase = Phase::CursorBody {
                        id,
                        width: width as i32,
                        height: height as i32,
                        hotx,
                        hoty,
                    };
                    false
                },
                Header::Message(_) => {
                    self.phase = Phase::CheckingStop;
                    false
                },
                Header::Desynchronized => {
                    self.end(slot, cursors, "desynchronized frame", "");
                    proof {
                        reveal_strlit("");
                        assert("desynchronized frame"@ + ""@ =~= "desynchronized frame"@);
                    }
                    true
                },
                Header::Failed(e) => {
                    self.end(slot, cursors, "recv: ", e.as_str());
                    true
                },
            },
            (Phase::FrameBody(w, h), Event::Body(b)) => match b {
                Ok(raw) => {
                    slot.latest = Some((w, h, raw));
                    self.phase = Phase::CheckingStop;
                    true
                },
                Err(e) => {
                    self.end(slot, cursors, "frame body: ", e.as_str());
                    true
                },
            },
            (Phase::CursorBody { id, width, height, hotx, hoty }, Event::Body(b)) => match b {
                Ok(raw) => {
                    let c = DrmCursorData { id, width, height, hotx, hoty, colors: raw };
                    set_drm_cursor(cursors, self.display, c);
                    self.phase = Phase::CheckingStop;
                    false
                },
                Err(e) => {
                    self.end(slot, cursors, "cursor body: ", e.as_str());
                    true
                },
            },
            (phase, _) => {
                self.phase = phase;
                false
            },
        }
    }

    /// Takes the outcome of the handshake, where it is to be reported. After displays the
    /// stream goes on, after an error it is over.
    pub fn announcement(&mut self) -> (r: Option<Answer>)
        ensures
            final(self).display == old(self).display,
            match old(self).phase {
                Phase::Announcing(a) => r == Some(a) && final(self).phase@ == (match a {
                    Ok(_) => PhaseView::CheckingStop,
                    Err(_) => PhaseView::Done,
                }),
                _ => r is None && final(self).phase == old(self).phase,
            },
    {
        let mut phase = Phase::Done;
        std::mem::swap(&mut phase, &mut self.phase);
        match phase {
            Phase::Announcing(a) => {
                if a.is_ok() {
                    self.phase = Phase::CheckingStop;
                }
                Some(a)
            },
            phase => {
                self.phase = phase;
                None
            },
        }
    }
}

/// Whether an event concerns the reader of the slot: a picture came in, or the stream ended.
pub open spec fn wakes(phase: PhaseView, ev: Event) -> bool {
    match (phase, ev) {
        (PhaseView::CheckingStop, Event::Stop(stop)) => stop,
        (PhaseView::Reading, Event::Received(h)) => h is Desynchronized || h is Failed,
        (PhaseView::FrameBody(_, _), Event::Body(_)) => true,
        (PhaseView::CursorBody { id, width, height, hotx, hoty }, Event::Body(b)) => b is Err,
        _ => false,
    }
}

/// A stream that is over stays over.
pub proof fn lemma_done_is_final(s: StreamView, display: i32, ev: Event)
    requires
        s.phase is Done,
    ensures
        s.stepped(display, ev) == s,
{
}

/// A stream touches no cursor but its own.
pub proof fn lemma_other_cursors_stay(s: StreamView, display: i32, ev: Event, other: i32)
    requires
        other != display,
    ensures
        s.stepped(display, ev).cursors.contains_key(other) <==> s.cursors.contains_key(other),
        s.stepped(display, ev).cursors[other] == s.cursors[other],
{
}

/// A handshake publishes nothing, whatever becomes of it.
pub proof fn lemma_handshake_publishes_nothing(s: StreamView, display: i32, ev: Event)
    requires
        s.phase is Connecting || s.phase is AwaitingList || s.phase is Starting,
    ensures
        s.stepped(display, ev).slot == s.slot,
        s.stepped(display, ev).cursors == s.cursors,
        !wakes(s.phase, ev),
{
}

/// Once streaming, a stream ends exactly by going over, and then its cursor is gone and its
/// reader knows why; a picture that was not read yet is still there.
pub proof fn lemma_end_is_reported(s: StreamView, display: i32, ev: Event)
    requires
        !(s.phase is Done),
        s.stepped(display, ev).phase is Done,
    ensures
        s.stepped(display, ev).slot.ended is Some,
        s.stepped(display, ev).slot.latest == s.slot.latest,
        !s.stepped(display, ev).cursors.contains_key(display),
        wakes(s.phase, ev),
{
}

/// A picture is published only as the body of its header, with the size that the header gave,
/// and replaces one that was not read yet. The reader is woken for it.
pub proof fn lemma_newest_picture_wins(s: StreamView, display: i32, ev: Event)
    ensures
        s.stepped(display, ev).slot.latest != s.slot.latest ==> {
            &&& s.phase matches PhaseView::FrameBody(w, h)
            &&& ev matches Event::Body(Ok(raw))
            &&& s.stepped(display, ev).slot.latest == Some((w, h, raw@))
            &&& wakes(s.phase, ev)
        },
        match (s.phase, ev) {
            (PhaseView::FrameBody(w, h), Event::Body(Ok(raw))) => s.stepped(
                display,
                ev,
            ).slot.latest == Some((w, h, raw@)),
            _ => true,
        },
{
}

/// A raised stop flag ends the stream the next time it is looked at, which is after each
/// header that did not come and after each body.
pub proof fn lemma_stop_is_seen(s: StreamView, display: i32)
    ensures
        s.phase is CheckingStop ==> s.stepped(display, Event::Stop(true)).phase is Done,
        s.phase is Reading ==> s.stepped(
            display,
            Event::Received(Header::Timeout),
        ).phase is CheckingStop,
        s.phase is FrameBody || s.phase is CursorBody ==> forall|b: Result<Vec<u8>, String>| {
            let t = #[trigger] s.stepped(display, Event::Body(b));
            t.phase is CheckingStop || t.phase is Done
        },
{
}

} // verus!
