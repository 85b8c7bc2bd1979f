//! Laws of the consumer's dealings with the service: whether it offers capture, what a session
//! is of, and which cursor is presented.

use crate::drm_capturer::availability::{
    clear, display_list, is_available, settle_query, warm_availability, warm_step, warm_turn,
    Answer, DrmServer, ProbeState, WarmTurn,
};
use crate::drm_capturer::cursors::{
    drm_cursor, drm_cursor_id, pick_drm_cursor, remove_drm_cursor, set_drm_cursor, DrmCursorData,
    DrmCursors,
};
use crate::drm_capturer::session::{
    get_capturer_info, query_displays, CapturerInfo, IpcDrmCapturer,
};
use crate::ipc::{Data, DrmDisplayInfo};
use vstd::prelude::*;
use vstd::string::*;

verus! {

/// A list of at least one display makes capture available, with just that list. An empty list
/// makes it unavailable. A failed query counts, and the fifth makes capture unavailable; before
/// that the question stays open.
pub proof fn law_answer_is_kept(srv: &mut DrmServer, answer: Answer, r: bool)
    requires
        call_ensures(settle_query, (srv, answer), r),
        old(srv).probe_failures < u32::MAX,
    ensures
        final(srv).grab_failures == old(srv).grab_failures,
        match answer {
            Ok(list) => {
                &&& final(srv).probe_failures == old(srv).probe_failures
                &&& list@.len() >= 1 ==> r && final(srv).state == ProbeState::Available(list)
                &&& list@.len() == 0 ==> !r && final(srv).state is Unavailable
            },
            Err(_) => {
                &&& !r
                &&& final(srv).probe_failures == old(srv).probe_failures + 1
                &&& final(srv).probe_failures >= 5 ==> final(srv).state is Unavailable
                &&& final(srv).probe_failures < 5 ==> final(srv).state == old(srv).state
            },
        },
{
}

/// A known answer is given without asking. An open question is answered by asking, and then the
/// answer is kept as any other.
pub proof fn law_known_answer_is_given<Q: FnOnce() -> Answer>(
    srv: &mut DrmServer,
    query: Q,
    r: bool,
)
    requires
        call_ensures(is_available::<Q>, (srv, query), r),
    ensures
        old(srv).state is Available ==> r && *final(srv) == *old(srv),
        old(srv).state is Unavailable ==> !r && *final(srv) == *old(srv),
        old(srv).state is Unknown ==> exists|a: Answer| {
            &&& #[trigger] query.ensures((), a)
            &&& r <==> (a matches Ok(list) && list@.len() >= 1)
            &&& a matches Ok(list) ==> if list@.len() >= 1 {
                final(srv).state == ProbeState::Available(list)
            } else {
                final(srv).state is Unavailable
            }
            &&& a is Err && old(srv).probe_failures < 4 ==> final(srv).state is Unknown
                && final(srv).probe_failures == old(srv).probe_failures + 1
            &&& a is Err && 4 <= old(srv).probe_failures < u32::MAX ==> final(srv).state
                is Unavailable
        },
{
    if old(srv).state is Unknown {
        let a = choose|a: Answer| #[trigger]
            query.ensures((), a) && *final(srv)
                == crate::drm_capturer::availability::query_settled(*old(srv), a) && r
                == crate::drm_capturer::availability::offers(a);
        assert(query.ensures((), a));
    }
}

/// Once forgotten, the next failed query leaves the question open, whatever was before.
pub proof fn law_forgotten_question_is_open(
    a: &mut DrmServer,
    b: &mut DrmServer,
    error: String,
    r: bool,
)
    requires
        call_ensures(clear, (a,), ()),
        *final(a) == *old(b),
        call_ensures(settle_query, (b, Err::<Vec<DrmDisplayInfo>, String>(error)), r),
    ensures
        final(a).state is Unknown,
        final(a).grab_failures == old(a).grab_failures,
        final(b).state is Unknown,
        final(b).probe_failures == 1,
{
}

/// A try at startup is the last one exactly if it brought displays or was the tenth. It is
/// followed by a pause exactly if it brought none, and keeps displays but nothing else.
pub proof fn law_tries_at_startup(
    srv: &mut DrmServer,
    answer: Answer,
    done: bool,
    tried: usize,
    turn: WarmTurn,
)
    requires
        call_ensures(warm_step, (srv, answer), done),
        call_ensures(warm_turn, (tried, done), turn),
    ensures
        done <==> (answer matches Ok(list) && list@.len() >= 1),
        turn.last <==> done || tried >= 9,
        done ==> turn.pause_ms == 0,
        !done ==> turn.pause_ms == 300,
        done ==> final(srv).state == ProbeState::Available(answer->Ok_0),
        !done ==> final(srv).state == old(srv).state,
        final(srv).probe_failures == old(srv).probe_failures,
        final(srv).grab_failures == old(srv).grab_failures,
{
}

/// Whether an answer lists a display.
pub open spec fn lists_some(answer: Answer) -> bool {
    match answer {
        Ok(list) => list@.len() >= 1,
        Err(_) => false,
    }
}

/// Whether these are the answers of a startup: ten at most, none but the last lists a display,
/// and there are fewer than ten only if the last does.
pub open spec fn answers_of_startup(answers: Seq<Answer>) -> bool {
    &&& 1 <= answers.len() <= 10
    &&& forall|i: int| 0 <= i < answers.len() - 1 ==> !lists_some(#[trigger] answers[i])
    &&& answers.len() < 10 ==> lists_some(answers[answers.len() - 1])
}

/// The startup asks until displays are listed, ten times at most, each time anew. Displays are
/// kept; that there are none is not.
pub proof fn law_startup<Q: Fn(usize) -> Answer, P: Fn(u64)>(
    srv: &mut DrmServer,
    query: Q,
    pause: P,
)
    requires
        call_ensures(warm_availability::<Q, P>, (srv, query, pause), ()),
        !(old(srv).state is Available),
    ensures
        exists|answers: Seq<Answer>| {
            &&& #[trigger] answers_of_startup(answers)
            &&& forall|i: int|
                0 <= i < answers.len() ==> query.ensures((i as usize,), #[trigger] answers[i])
            &&& match answers[answers.len() - 1] {
                Ok(list) => if list@.len() >= 1 {
                    final(srv).state == ProbeState::Available(list)
                } else {
                    *final(srv) == *old(srv)
                },
                Err(_) => *final(srv) == *old(srv),
            }
        },
        final(srv).probe_failures == old(srv).probe_failures,
        final(srv).grab_failures == old(srv).grab_failures,
{
    let answers = choose|answers: Seq<Answer>|
        {
            &&& #[trigger] crate::drm_capturer::availability::warm_run(answers)
            &&& forall|i: int|
                0 <= i < answers.len() ==> query.ensures((i as usize,), #[trigger] answers[i])
            &&& *final(srv) == crate::drm_capturer::availability::warmed(
                *old(srv),
                answers.last(),
            )
        };
    assert forall|i: int| 0 <= i < answers.len() - 1 implies !lists_some(
        #[trigger] answers[i],
    ) by {
        assert(!crate::drm_capturer::availability::offers(answers[i]));
    }
    assert(answers_of_startup(answers));
}

/// Where displays are known, the startup leaves everything as it is.
pub proof fn law_startup_with_known_displays<Q: Fn(usize) -> Answer, P: Fn(u64)>(
    srv: &mut DrmServer,
    query: Q,
    pause: P,
)
    requires
        call_ensures(warm_availability::<Q, P>, (srv, query, pause), ()),
        old(srv).state is Available,
    ensures
        *final(srv) == *old(srv),
{
}

/// A first message brings displays exactly if it is a list of them, and then that list.
pub proof fn law_first_message(reply: Option<Data>, shown: &str, r: Answer)
    requires
        call_ensures(display_list, (reply, shown), r),
    ensures
        r is Ok <==> (reply matches Some(m) && m is DrmDisplayList),
        reply matches Some(Data::DrmDisplayList(list)) ==> (r matches Ok(v) && v@ == list@),
        r matches Err(e) ==> e@ == "expected DrmDisplayList, got "@ + shown@,
{
}

/// The outcome of a query or a handshake is the one that came; where none came in time, it is
/// the error that says so.
pub proof fn law_outcome_that_came(
    received: Option<Answer>,
    asked: Answer,
    session: Result<(IpcDrmCapturer, Vec<DrmDisplayInfo>), String>,
)
    requires
        call_ensures(query_displays, (received,), asked),
        call_ensures(IpcDrmCapturer::new, (received,), session),
    ensures
        match received {
            Some(Ok(list)) => {
                &&& (asked matches Ok(v) && v@ == list@)
                &&& (session matches Ok(p) && p.1@ == list@ && !p.0.got_frame && !p.0.counted
                    && p.0.cur@.len() == 0)
            },
            Some(Err(e)) => {
                &&& (asked matches Err(f) && f@ == e@)
                &&& (session matches Err(f) && f@ == e@)
            },
            None => {
                &&& (asked matches Err(f) && f@ == "drm display query timed out"@)
                &&& (session matches Err(f) && f@ == "drm capture handshake timed out"@)
            },
        },
{
}

/// A session of a display has the place and the size of the display at the asked position of
/// the list that its handshake brought, and that list is kept. There is a session exactly if the
/// list has that position; else nothing is kept.
pub proof fn law_session_of_a_display(
    srv: &mut DrmServer,
    at: usize,
    list: Vec<DrmDisplayInfo>,
    r: Result<CapturerInfo, String>,
)
    requires
        call_ensures(
            get_capturer_info,
            (srv, at, Some(Ok::<Vec<DrmDisplayInfo>, String>(list))),
            r,
        ),
    ensures
        r is Ok <==> at < list@.len(),
        r matches Ok(info) ==> {
            &&& info.origin.0 == list@[at as int].x
            &&& info.origin.1 == list@[at as int].y
            &&& info.width == list@[at as int].width
            &&& info.height == list@[at as int].height
            &&& info.current == at
            &&& info.ndisplay == list@.len()
            &&& info.privacy_mode_id == 0
            &&& info.capturer_privacy_mode_id == 0
            &&& !info.capturer.got_frame
            &&& !info.capturer.counted
            &&& final(srv).state == ProbeState::Available(list)
        },
        r is Err ==> final(srv).state == old(srv).state,
        final(srv).probe_failures == old(srv).probe_failures,
        final(srv).grab_failures == old(srv).grab_failures,
{
}

/// A session without its handshake is not there, for the reason of the handshake, and nothing is
/// kept.
pub proof fn law_no_session_without_a_handshake(
    srv: &mut DrmServer,
    at: usize,
    handshake: Option<Answer>,
    r: Result<CapturerInfo, String>,
)
    requires
        call_ensures(get_capturer_info, (srv, at, handshake), r),
        !(handshake matches Some(a) && a is Ok),
    ensures
        r matches Err(f) && match handshake {
            Some(Err(e)) => f@ == e@,
            _ => f@ == "drm capture handshake timed out"@,
        },
        *final(srv) == *old(srv),
{
}

/// Whether a display shows a cursor.
pub open spec fn shows_cursor(cursors: DrmCursors, hidden: u64, k: i32) -> bool {
    cursors.by_display@.contains_key(k) && cursors.by_display@[k].id != hidden
}

/// Whether a cursor is the one of a display.
pub open spec fn is_cursor_of(c: DrmCursorData, cursors: DrmCursors, k: i32) -> bool {
    &&& cursors.by_display@.contains_key(k)
    &&& ({
        let d = cursors.by_display@[k];
        &&& c.id == d.id
        &&& c.width == d.width
        &&& c.height == d.height
        &&& c.hotx == d.hotx
        &&& c.hoty == d.hoty
        &&& c.colors@ == d.colors@
    })
}

/// The cursor that is presented is one that is shown, if any display shows one; else a hidden
/// one, if there is any stream. Of several it is that of the display with the least number.
pub proof fn law_presented_cursor(
    cursors: &DrmCursors,
    hidden: u64,
    r: Option<DrmCursorData>,
    id: Option<u64>,
    whole: Option<DrmCursorData>,
)
    requires
        call_ensures(pick_drm_cursor, (cursors, hidden), r),
        call_ensures(drm_cursor_id, (cursors, hidden), id),
        call_ensures(drm_cursor, (cursors, hidden), whole),
    ensures
        r is None <==> forall|k: i32| !#[trigger] cursors.by_display@.contains_key(k),
        r matches Some(c) ==> exists|k: i32| {
            &&& #[trigger] is_cursor_of(c, *cursors, k)
            &&& {
                ||| shows_cursor(*cursors, hidden, k) && forall|j: i32| #[trigger]
                    shows_cursor(*cursors, hidden, j) ==> k <= j
                ||| (forall|j: i32| !#[trigger] shows_cursor(*cursors, hidden, j)) && forall|
                    j: i32,
                | #[trigger]
                    cursors.by_display@.contains_key(j) ==> k <= j
            }
        },
        match (r, id, whole) {
            (Some(c), Some(i), Some(w)) => i == c.id && w.id == c.id && w.width == c.width
                && w.height == c.height && w.hotx == c.hotx && w.hoty == c.hoty && w.colors@
                == c.colors@,
            (None, None, None) => true,
            _ => false,
        },
{
    let m = cursors@;
    let vis = crate::drm_capturer::cursors::visible(hidden);
    let any = crate::drm_capturer::cursors::any();
    crate::drm_capturer::cursors::lemma_least(m, vis);
    crate::drm_capturer::cursors::lemma_least(m, any);
    crate::drm_capturer::cursors::lemma_picked(m, hidden);
    assert forall|k: i32| #[trigger] cursors.by_display@.contains_key(k) == m.contains_key(k) by {}
    assert(r is None <==> forall|k: i32| !#[trigger] cursors.by_display@.contains_key(k)) by {
        if r is None {
            assert forall|k: i32| !#[trigger] cursors.by_display@.contains_key(k) by {
                assert(!m.contains_key(k));
            }
        } else {
            let k = choose|k: i32| #[trigger] m.contains_key(k);
            assert(cursors.by_display@.contains_key(k));
        }
    }
    if let Some(c) = r {
        match crate::drm_capturer::cursors::least(m, vis) {
            Some(k) => {
                assert(vis(m[k]));
                assert(is_cursor_of(c, *cursors, k));
                assert(shows_cursor(*cursors, hidden, k));
                assert forall|j: i32| #[trigger] shows_cursor(*cursors, hidden, j) implies k
                    <= j by {
                    assert(m.contains_key(j) && vis(m[j]));
                }
            },
            None => {
                let k = crate::drm_capturer::cursors::least(m, any)->0;
                assert(is_cursor_of(c, *cursors, k));
                assert forall|j: i32| !#[trigger] shows_cursor(*cursors, hidden, j) by {
                    if shows_cursor(*cursors, hidden, j) {
                        assert(m.contains_key(j) && vis(m[j]));
                    }
                }
                assert forall|j: i32| #[trigger] cursors.by_display@.contains_key(j) implies k
                    <= j by {
                    assert(m.contains_key(j) && any(m[j]));
                }
            },
        }
    }
}

/// The cursor of a display is the one set last, and gone once it is removed. That of any other
/// display stays.
pub proof fn law_cursors_of_displays(
    a: &mut DrmCursors,
    b: &mut DrmCursors,
    display: i32,
    c: DrmCursorData,
    other: i32,
)
    requires
        call_ensures(set_drm_cursor, (a, display, c), ()),
        *final(a) == *old(b),
        call_ensures(remove_drm_cursor, (b, display), ()),
        other != display,
    ensures
        is_cursor_of(c, *final(a), display),
        !final(b).by_display@.contains_key(display),
        final(a).by_display@.contains_key(other) == old(a).by_display@.contains_key(other),
        final(b).by_display@.contains_key(other) == old(a).by_display@.contains_key(other),
        old(a).by_display@.contains_key(other) ==> is_cursor_of(
            old(a).by_display@[other],
            *final(a),
            other,
        ) && is_cursor_of(old(a).by_display@[other], *final(b), other),
{
    let x = old(a)@;
    let y = final(a)@;
    let z = final(b)@;
    assert(y.contains_key(display) && y[display] == c@);
    assert(!z.contains_key(display));
    assert(y.contains_key(other) == x.contains_key(other));
    assert(z.contains_key(other) == x.contains_key(other));
    if x.contains_key(other) {
        assert(y[other] == x[other]);
        assert(z[other] == x[other]);
    }
}

/// At first nothing is known of the service, and no stream has a cursor.
pub proof fn law_no_service_is_known_at_first(srv: DrmServer, cursors: DrmCursors, k: i32)
    requires
        call_ensures(DrmServer::new, (), srv),
        call_ensures(DrmCursors::new, (), cursors),
    ensures
        srv.state is Unknown,
        srv.probe_failures == 0,
        srv.grab_failures == 0,
        !cursors.by_display@.contains_key(k),
{
    assert(!cursors@.contains_key(k));
}

} // verus!
