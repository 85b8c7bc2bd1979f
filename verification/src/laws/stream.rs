//! Laws of a stream, from its first message to what its reader gets.

use crate::common::{ErrorKind, Frame, Pixfmt};
use crate::drm_capturer::availability::{Answer, DrmServer, ProbeState};
use crate::drm_capturer::cursors::DrmCursors;
use crate::drm_capturer::session::{FrameStep, IpcDrmCapturer};
use crate::drm_capturer::stream::{Event, FrameSlot, Header, Phase, Receiver};
use crate::ipc::{Data, DrmDisplayInfo};
use vstd::prelude::*;
use vstd::string::*;

verus! {

/// Whether two slots hold the same.
pub open spec fn same_slot(a: FrameSlot, b: FrameSlot) -> bool {
    &&& match (a.latest, b.latest) {
        (Some(f), Some(g)) => f.0 == g.0 && f.1 == g.1 && f.2@ == g.2@,
        (None, None) => true,
        _ => false,
    }
    &&& match (a.ended, b.ended) {
        (Some(x), Some(y)) => x@ == y@,
        (None, None) => true,
        _ => false,
    }
}

/// A picture that the service sends is published with the width and the height of its header
/// and the bytes of its body, over the two steps together, whatever was published before.
pub proof fn law_picture_is_published(
    a: &mut Receiver,
    b: &mut Receiver,
    slot_a: &mut FrameSlot,
    slot_b: &mut FrameSlot,
    cursors_a: &mut DrmCursors,
    cursors_b: &mut DrmCursors,
    width: u32,
    height: u32,
    raw: Vec<u8>,
    wake_a: bool,
    wake_b: bool,
)
    requires
        old(a).phase is Reading,
        call_ensures(
            Receiver::step,
            (
                a,
                Event::Received(Header::Message(Data::DrmFrame { width, height })),
                slot_a,
                cursors_a,
            ),
            wake_a,
        ),
        *final(a) == *old(b),
        *final(slot_a) == *old(slot_b),
        *final(cursors_a) == *old(cursors_b),
        call_ensures(
            Receiver::step,
            (b, Event::Body(Ok(raw)), slot_b, cursors_b),
            wake_b,
        ),
    ensures
        final(slot_b).latest matches Some(f) && f.0 == width && f.1 == height && f.2@ == raw@,
        !wake_a,
        wake_b,
        same_slot(*final(slot_a), *old(slot_a)),
        final(b).phase is CheckingStop,
        final(cursors_b)@ == old(cursors_a)@,
{
}

/// What the reader of a stream gets is the picture that the service sent: its width, its height
/// and its bytes, from the header to the picture that is handed out.
pub proof fn law_picture_reaches_the_reader(
    a: &mut Receiver,
    b: &mut Receiver,
    slot_a: &mut FrameSlot,
    slot_b: &mut FrameSlot,
    slot_c: &mut FrameSlot,
    cursors_a: &mut DrmCursors,
    cursors_b: &mut DrmCursors,
    session: &mut IpcDrmCapturer,
    srv: &mut DrmServer,
    width: u32,
    height: u32,
    raw: Vec<u8>,
    wake_a: bool,
    wake_b: bool,
    now: u64,
    deadline: u64,
    step: FrameStep,
    read: &IpcDrmCapturer,
    frame: Frame<'_>,
)
    requires
        old(a).phase is Reading,
        call_ensures(
            Receiver::step,
            (
                a,
                Event::Received(Header::Message(Data::DrmFrame { width, height })),
                slot_a,
                cursors_a,
            ),
            wake_a,
        ),
        *final(a) == *old(b),
        *final(slot_a) == *old(slot_b),
        *final(cursors_a) == *old(cursors_b),
        call_ensures(
            Receiver::step,
            (b, Event::Body(Ok(raw)), slot_b, cursors_b),
            wake_b,
        ),
        *final(slot_b) == *old(slot_c),
        call_ensures(IpcDrmCapturer::frame_step, (session, slot_c, srv, now, deadline), step),
        *read == *final(session),
        call_ensures(IpcDrmCapturer::frame, (read,), frame),
    ensures
        step is Ready,
        frame.width == width,
        frame.height == height,
        frame.data@ == raw@,
        frame.pixfmt == Pixfmt::BGRA,
        final(slot_c).latest is None,
{
    law_picture_is_published(
        a,
        b,
        slot_a,
        slot_b,
        cursors_a,
        cursors_b,
        width,
        height,
        raw,
        wake_a,
        wake_b,
    );
}

/// A cursor that the service sends becomes the cursor of this stream, with the id, size and
/// hotspot of its header and the bytes of its body. Other streams keep theirs.
pub proof fn law_cursor_is_published(
    a: &mut Receiver,
    b: &mut Receiver,
    slot_a: &mut FrameSlot,
    slot_b: &mut FrameSlot,
    cursors_a: &mut DrmCursors,
    cursors_b: &mut DrmCursors,
    id: u64,
    width: u32,
    height: u32,
    hotx: i32,
    hoty: i32,
    raw: Vec<u8>,
    wake_a: bool,
    wake_b: bool,
)
    requires
        old(a).phase is Reading,
        call_ensures(
            Receiver::step,
            (
                a,
                Event::Received(
                    Header::Message(Data::DrmCursor { id, width, height, hotx, hoty }),
                ),
                slot_a,
                cursors_a,
            ),
            wake_a,
        ),
        *final(a) == *old(b),
        *final(slot_a) == *old(slot_b),
        *final(cursors_a) == *old(cursors_b),
        call_ensures(
            Receiver::step,
            (b, Event::Body(Ok(raw)), slot_b, cursors_b),
            wake_b,
        ),
    ensures
        final(cursors_b).by_display@.contains_key(old(a).display),
        ({
            let c = final(cursors_b).by_display@[old(a).display];
            &&& c.id == id
            &&& c.width == width as i32
            &&& c.height == height as i32
            &&& c.hotx == hotx
            &&& c.hoty == hoty
            &&& c.colors@ == raw@
        }),
        forall|k: i32|
            k != old(a).display ==> {
                &&& final(cursors_b)@.contains_key(k) == old(cursors_a)@.contains_key(k)
                &&& #[trigger] final(cursors_b)@[k] == old(cursors_a)@[k]
            },
        same_slot(*final(slot_b), *old(slot_a)),
        final(b).phase is CheckingStop,
        !wake_a,
        !wake_b,
{
    let m = final(cursors_b)@;
    assert(m.contains_key(old(a).display));
    let c = final(cursors_b).by_display@[old(a).display];
    assert(m[old(a).display] == c@);
}

/// A handshake takes three steps: it connects, reads the displays, and asks for its own. Its
/// outcome is the list that was read, reported once, and then the stream looks at its stop flag.
pub proof fn law_handshake_brings_the_displays(
    a: &mut Receiver,
    b: &mut Receiver,
    c: &mut Receiver,
    d: &mut Receiver,
    slot_a: &mut FrameSlot,
    slot_b: &mut FrameSlot,
    slot_c: &mut FrameSlot,
    cursors_a: &mut DrmCursors,
    cursors_b: &mut DrmCursors,
    cursors_c: &mut DrmCursors,
    display: i32,
    list: Vec<DrmDisplayInfo>,
    shown: String,
    wake_a: bool,
    wake_b: bool,
    wake_c: bool,
    report: Option<Answer>,
)
    requires
        call_ensures(Receiver::new, (display,), *old(a)),
        call_ensures(
            Receiver::step,
            (a, Event::Connected(Ok(())), slot_a, cursors_a),
            wake_a,
        ),
        *final(a) == *old(b),
        *final(slot_a) == *old(slot_b),
        *final(cursors_a) == *old(cursors_b),
        call_ensures(
            Receiver::step,
            (
                b,
                Event::Replied { reply: Ok(Some(Data::DrmDisplayList(list))), shown },
                slot_b,
                cursors_b,
            ),
            wake_b,
        ),
        *final(b) == *old(c),
        *final(slot_b) == *old(slot_c),
        *final(cursors_b) == *old(cursors_c),
        call_ensures(
            Receiver::step,
            (c, Event::Requested(Ok(())), slot_c, cursors_c),
            wake_c,
        ),
        *final(c) == *old(d),
        call_ensures(Receiver::announcement, (d,), report),
    ensures
        report matches Some(Ok(v)) && v@ == list@,
        final(d).phase is CheckingStop,
        final(d).display == display,
        same_slot(*final(slot_c), *old(slot_a)),
        final(cursors_c)@ == old(cursors_a)@,
        !wake_a && !wake_b && !wake_c,
{
}

/// Whether a failure of a step of the handshake has this text.
pub open spec fn handshake_error(ev: Event, text: Seq<char>) -> bool {
    match ev {
        Event::Connected(Err(e)) => text == e@,
        Event::Replied { reply: Err(e), shown } => text == e@,
        Event::Replied { reply: Ok(m), shown } => (match m {
            Some(Data::DrmDisplayList(_)) => false,
            _ => text == "expected DrmDisplayList, got "@ + shown@,
        }),
        Event::Requested(Err(e)) => text == e@,
        _ => false,
    }
}

/// Whether an event is what came of the step that a phase of the handshake asks for.
pub open spec fn answers(phase: Phase, ev: Event) -> bool {
    match ev {
        Event::Connected(_) => phase is Connecting,
        Event::Replied { .. } => phase is AwaitingList,
        Event::Requested(_) => phase is Starting,
        _ => false,
    }
}

/// Where a step of the handshake fails, its error is what is reported, nothing is published,
/// and the stream is over.
pub proof fn law_failed_handshake_is_reported(
    a: &mut Receiver,
    b: &mut Receiver,
    slot: &mut FrameSlot,
    cursors: &mut DrmCursors,
    ev: Event,
    text: Seq<char>,
    wake: bool,
    report: Option<Answer>,
)
    requires
        answers(old(a).phase, ev),
        handshake_error(ev, text),
        call_ensures(Receiver::step, (a, ev, slot, cursors), wake),
        *final(a) == *old(b),
        call_ensures(Receiver::announcement, (b,), report),
    ensures
        report matches Some(Err(e)) && e@ == text,
        final(b).phase is Done,
        same_slot(*final(slot), *old(slot)),
        final(cursors)@ == old(cursors)@,
        !wake,
{
}

/// What a stream tells its reader when an event ends it, if the event does.
pub open spec fn end_text(phase: Phase, ev: Event) -> Option<Seq<char>> {
    match (phase, ev) {
        (Phase::CheckingStop, Event::Stop(true)) => Some("stopped"@),
        (Phase::Reading, Event::Received(Header::Desynchronized)) => Some("desynchronized frame"@),
        (Phase::Reading, Event::Received(Header::Failed(e))) => Some("recv: "@ + e@),
        (Phase::FrameBody(_, _), Event::Body(Err(e))) => Some("frame body: "@ + e@),
        (Phase::CursorBody { .. }, Event::Body(Err(e))) => Some("cursor body: "@ + e@),
        _ => None,
    }
}

/// A stream that runs ends on a raised stop flag, on anything that is no message, and on a
/// failure of the connection, and on nothing else. Then its reader is woken and told why, a
/// picture that was not read yet stays, and of the cursors exactly its own is gone.
pub proof fn law_stream_ends(
    a: &mut Receiver,
    slot: &mut FrameSlot,
    cursors: &mut DrmCursors,
    ev: Event,
    wake: bool,
)
    requires
        call_ensures(Receiver::step, (a, ev, slot, cursors), wake),
        !(old(a).phase is Done),
    ensures
        final(a).phase is Done <==> end_text(old(a).phase, ev) is Some,
        end_text(old(a).phase, ev) matches Some(text) ==> {
            &&& wake
            &&& (final(slot).ended matches Some(e) && e@ == "drm stream ended ("@ + text + ")"@)
            &&& same_slot(
                FrameSlot { ended: None, ..*final(slot) },
                FrameSlot { ended: None, ..*old(slot) },
            )
            &&& !final(cursors)@.contains_key(old(a).display)
            &&& forall|k: i32|
                k != old(a).display ==> {
                    &&& final(cursors)@.contains_key(k) == old(cursors)@.contains_key(k)
                    &&& #[trigger] final(cursors)@[k] == old(cursors)@[k]
                }
        },
        end_text(old(a).phase, ev) is None ==> match (final(slot).ended, old(slot).ended) {
            (Some(x), Some(y)) => x@ == y@,
            (None, None) => true,
            _ => false,
        },
{
}

/// After a stop flag that is not raised the stream reads a header. After a header that did not
/// come, one that announces nothing, and every body that came, it looks at the flag again.
pub proof fn law_stop_flag_is_looked_at(
    a: &mut Receiver,
    slot: &mut FrameSlot,
    cursors: &mut DrmCursors,
    ev: Event,
    wake: bool,
)
    requires
        call_ensures(Receiver::step, (a, ev, slot, cursors), wake),
    ensures
        old(a).phase is CheckingStop && (ev matches Event::Stop(raised) && !raised)
            ==> final(a).phase is Reading,
        old(a).phase is Reading && (ev matches Event::Received(h) && match h {
            Header::Timeout => true,
            Header::Message(Data::DrmFrame { .. }) => false,
            Header::Message(Data::DrmCursor { .. }) => false,
            Header::Message(_) => true,
            _ => false,
        }) ==> final(a).phase is CheckingStop && same_slot(*final(slot), *old(slot)),
        (old(a).phase is FrameBody || old(a).phase is CursorBody) && (ev matches Event::Body(b)
            && b is Ok) ==> final(a).phase is CheckingStop,
        final(a).display == old(a).display,
{
}

/// A picture is read once: reading again without a new one waits until the deadline, and then
/// says that nothing is there.
pub proof fn law_picture_is_read_once(
    a: &mut IpcDrmCapturer,
    b: &mut IpcDrmCapturer,
    slot_a: &mut FrameSlot,
    slot_b: &mut FrameSlot,
    srv_a: &mut DrmServer,
    srv_b: &mut DrmServer,
    now: u64,
    later: u64,
    deadline: u64,
    first: FrameStep,
    second: FrameStep,
)
    requires
        old(slot_a).latest is Some,
        old(slot_a).ended is None,
        call_ensures(IpcDrmCapturer::frame_step, (a, slot_a, srv_a, now, deadline), first),
        *final(a) == *old(b),
        *final(slot_a) == *old(slot_b),
        *final(srv_a) == *old(srv_b),
        call_ensures(IpcDrmCapturer::frame_step, (b, slot_b, srv_b, later, deadline), second),
    ensures
        first is Ready,
        later < deadline ==> (second matches FrameStep::Wait(n) && later + n == deadline),
        later >= deadline ==> (second matches FrameStep::Failed(e) && e.kind
            == ErrorKind::WouldBlock),
        final(b).cur_w == final(a).cur_w,
        final(b).cur_h == final(a).cur_h,
        final(b).cur@ == final(a).cur@,
        *final(srv_b) == *final(srv_a),
{
}

/// The last picture of a stream that ended is still read, and only then the end is reported,
/// with its reason. A session that had a picture is not counted as empty.
pub proof fn law_last_picture_is_not_lost(
    a: &mut IpcDrmCapturer,
    b: &mut IpcDrmCapturer,
    slot_a: &mut FrameSlot,
    slot_b: &mut FrameSlot,
    srv_a: &mut DrmServer,
    srv_b: &mut DrmServer,
    now: u64,
    later: u64,
    deadline: u64,
    first: FrameStep,
    second: FrameStep,
)
    requires
        old(slot_a).latest is Some,
        old(slot_a).ended is Some,
        call_ensures(IpcDrmCapturer::frame_step, (a, slot_a, srv_a, now, deadline), first),
        *final(a) == *old(b),
        *final(slot_a) == *old(slot_b),
        *final(srv_a) == *old(srv_b),
        call_ensures(IpcDrmCapturer::frame_step, (b, slot_b, srv_b, later, deadline), second),
    ensures
        first is Ready,
        old(slot_a).latest matches Some(f) && final(a).cur_w == f.0 && final(a).cur_h == f.1
            && final(a).cur@ == f.2@,
        second matches FrameStep::Failed(e) && e.kind == ErrorKind::Other && e.message@
            == old(slot_a).ended->0@,
        *final(srv_b) == *final(srv_a),
{
}

/// A session that ends without a picture counts once, however often it is read then, and the
/// fourth such session in a row makes capture unavailable.
pub proof fn law_empty_session_counts_once(
    a: &mut IpcDrmCapturer,
    b: &mut IpcDrmCapturer,
    slot_a: &mut FrameSlot,
    slot_b: &mut FrameSlot,
    srv_a: &mut DrmServer,
    srv_b: &mut DrmServer,
    now: u64,
    later: u64,
    deadline: u64,
    first: FrameStep,
    second: FrameStep,
)
    requires
        !old(a).got_frame,
        !old(a).counted,
        old(slot_a).latest is None,
        old(slot_a).ended is Some,
        old(srv_a).grab_failures < u32::MAX,
        call_ensures(IpcDrmCapturer::frame_step, (a, slot_a, srv_a, now, deadline), first),
        *final(a) == *old(b),
        *final(slot_a) == *old(slot_b),
        *final(srv_a) == *old(srv_b),
        call_ensures(IpcDrmCapturer::frame_step, (b, slot_b, srv_b, later, deadline), second),
    ensures
        first matches FrameStep::Failed(e) && e.kind == ErrorKind::Other,
        second matches FrameStep::Failed(e) && e.kind == ErrorKind::Other,
        final(srv_a).grab_failures == old(srv_a).grab_failures + 1,
        final(srv_a).state is Unavailable <==> (old(srv_a).state is Unavailable
            || old(srv_a).grab_failures >= 3),
        !(final(srv_a).state is Unavailable) ==> final(srv_a).state == old(srv_a).state,
        final(srv_a).probe_failures == old(srv_a).probe_failures,
        *final(srv_b) == *final(srv_a),
{
}

/// The first picture of a session ends the row of empty ones; a later one changes nothing.
pub proof fn law_picture_ends_the_row(
    a: &mut IpcDrmCapturer,
    slot: &mut FrameSlot,
    srv: &mut DrmServer,
    now: u64,
    deadline: u64,
    step: FrameStep,
)
    requires
        old(slot).latest is Some,
        call_ensures(IpcDrmCapturer::frame_step, (a, slot, srv, now, deadline), step),
    ensures
        final(a).got_frame,
        !old(a).got_frame ==> final(srv).grab_failures == 0,
        old(a).got_frame ==> final(srv).grab_failures == old(srv).grab_failures,
        final(srv).state == old(srv).state,
        final(srv).probe_failures == old(srv).probe_failures,
{
}

/// A stream starts with connecting, and its slot is empty and not ended.
pub proof fn law_stream_starts(display: i32, r: Receiver, slot: FrameSlot)
    requires
        call_ensures(Receiver::new, (display,), r),
        call_ensures(FrameSlot::new, (), slot),
    ensures
        r.phase is Connecting,
        r.display == display,
        slot.latest is None,
        slot.ended is None,
{
}

/// An event that does not belong to the phase changes nothing and wakes nobody, and one after
/// the end never does.
pub proof fn law_stray_events_change_nothing(
    a: &mut Receiver,
    slot: &mut FrameSlot,
    cursors: &mut DrmCursors,
    ev: Event,
    wake: bool,
)
    requires
        call_ensures(Receiver::step, (a, ev, slot, cursors), wake),
        !answers(old(a).phase, ev),
        ev is Stop ==> !(old(a).phase is CheckingStop),
        ev is Received ==> !(old(a).phase is Reading),
        ev is Body ==> !(old(a).phase is FrameBody) && !(old(a).phase is CursorBody),
    ensures
        !wake,
        final(a).phase@ == old(a).phase@,
        final(a).display == old(a).display,
        same_slot(*final(slot), *old(slot)),
        final(cursors)@ == old(cursors)@,
{
}

/// Waiting for the displays takes up to three times as long as connecting, and the stop flag is
/// looked at at least five times in the time that connecting may take, a second.
pub proof fn law_waiting_times()
    ensures
        crate::drm_capturer::stream::CONNECT_TIMEOUT_MS == 1000,
        crate::drm_capturer::stream::HANDSHAKE_TIMEOUT_MS == 3
            * crate::drm_capturer::stream::CONNECT_TIMEOUT_MS,
        crate::drm_capturer::stream::HEADER_POLL_MS * 5
            == crate::drm_capturer::stream::CONNECT_TIMEOUT_MS,
{
}

} // verus!
