//! Whether the service offers capture. Asking costs a connection, so the answer is kept.

use crate::ipc::{Data, DrmDisplayInfo};
use vstd::prelude::*;
use vstd::string::*;

verus! {

/// After this many sessions in a row without a picture, capture counts as unavailable.
pub const DRM_GRAB_MAX_FAILURES: u32 = 4;

/// After this many failed queries, capture counts as unavailable.
pub const DRM_PROBE_MAX_FAILURES: u32 = 5;

/// How often the startup tries to reach the service.
pub const WARM_ATTEMPTS: usize = 10;

/// How long the startup waits between tries, in milliseconds.
pub const WARM_PAUSE_MS: u64 = 300;

/// What is known about the service.
#[derive(Debug)]
pub enum ProbeState {
    Unknown,
    /// It offers no capture.
    Unavailable,
    /// It offers these displays.
    Available(Vec<DrmDisplayInfo>),
}

/// What the consumer remembers of the service.
#[derive(Debug)]
pub struct DrmServer {
    pub state: ProbeState,
    /// Queries of this session that failed.
    pub probe_failures: u32,
    /// Sessions in a row that ended without a picture.
    pub grab_failures: u32,
}

/// The answer to a query for the displays.
pub type Answer = Result<Vec<DrmDisplayInfo>, String>;

impl DrmServer {
    /// Nothing known yet.
    pub fn new() -> (r: DrmServer)
        ensures
            r == (DrmServer { state: ProbeState::Unknown, probe_failures: 0, grab_failures: 0 }),
    {
        DrmServer { state: ProbeState::Unknown, probe_failures: 0, grab_failures: 0 }
    }
}

/// The displays that a first message brings, or the error where it is another message. `shown`
/// is the message as text.
pub fn display_list(reply: Option<Data>, shown: &str) -> (r: Answer)
    ensures
        match reply {
            Some(Data::DrmDisplayList(v)) => r == Ok::<Vec<DrmDisplayInfo>, String>(v),
            _ => r matches Err(e) && e@ == "expected DrmDisplayList, got "@ + shown@,
        },
{
    match reply {
        Some(Data::DrmDisplayList(v)) => Ok(v),
        _ => {
            let mut message: String = "expected DrmDisplayList, got ".to_owned();
            message.append(shown);
            Err(message)
        },
    }
}

/// What is remembered after a query. Displays are an answer, and so are none. A failed query
/// is tried again the next time, unless too many have failed.
pub open spec fn query_settled(s: DrmServer, answer: Answer) -> DrmServer {
    match answer {
        Ok(list) => if list@.len() > 0 {
            DrmServer { state: ProbeState::Available(list), ..s }
        } else {
            DrmServer { state: ProbeState::Unavailable, ..s }
        },
        Err(_) => {
            let n = s.probe_failures.wrapping_add(1);
            if n >= DRM_PROBE_MAX_FAILURES {
                DrmServer { state: ProbeState::Unavailable, probe_failures: n, ..s }
            } else {
                DrmServer { probe_failures: n, ..s }
            }
        },
    }
}

/// Whether an answer lists displays.
pub open spec fn offers(answer: Answer) -> bool {
    answer matches Ok(list) && list@.len() > 0
}

/// Takes in the answer to a query and says whether capture is offered.
pub fn settle_query(srv: &mut DrmServer, answer: Answer) -> (r: bool)
    ensures
        *final(srv) == query_settled(*old(srv), answer),
        r == offers(answer),
{
    match answer {
        Ok(list) => {
            if list.len() > 0 {
                srv.state = ProbeState::Available(list);
                true
            } else {
                srv.state = ProbeState::Unavailable;
                false
            }
        },
        Err(_) => {
            srv.probe_failures = srv.probe_failures.wrapping_add(1);
            if srv.probe_failures >= DRM_PROBE_MAX_FAILURES {
                srv.state = ProbeState::Unavailable;
            }
            false
        },
    }
}

/// Whether the service offers capture. Asks only where nothing definite is known.
pub fn is_available<Q: FnOnce() -> Answer>(srv: &mut DrmServer, query: Q) -> (r: bool)
    requires
        old(srv).state is Unknown ==> query.requires(()),
    ensures
        old(srv).state is Available ==> r && *final(srv) == *old(srv),
        old(srv).state is Unavailable ==> !r && *final(srv) == *old(srv),
        old(srv).state is Unknown ==> exists|a: Answer| #[trigger]
            query.ensures((), a) && *final(srv) == query_settled(*old(srv), a) && r == offers(a),
{
    match &srv.state {
        ProbeState::Available(_) => true,
        ProbeState::Unavailable => false,
        ProbeState::Unknown => {
            let a = query();
            settle_query(srv, a)
        },
    }
}

/// What is remembered after one try at startup. Only displays are an answer there.
pub open spec fn warmed(s: DrmServer, answer: Answer) -> DrmServer {
    match answer {
        Ok(list) => if list@.len() > 0 {
            DrmServer { state: ProbeState::Available(list), ..s }
        } else {
            s
        },
        Err(_) => s,
    }
}

/// Takes in one answer at startup and says whether that was enough.
pub fn warm_step(srv: &mut DrmServer, answer: Answer) -> (done: bool)
    ensures
        *final(srv) == warmed(*old(srv), answer),
        done == offers(answer),
{
    match answer {
        Ok(list) => if list.len() > 0 {
            srv.state = ProbeState::Available(list);
            true
        } else {
            false
        },
        Err(_) => false,
    }
}

/// What follows a try at startup.
#[derive(Clone, Copy, Debug, PartialEq, Eq, Structural)]
pub struct WarmTurn {
    /// How long to wait after it, in milliseconds.
    pub pause_ms: u64,
    /// Whether it was the last one.
    pub last: bool,
}

/// What follows a try at startup before which there were `tried` others. Displays end it at
/// once, and a number of tries does in any case; after each that found none there is a pause.
pub fn warm_turn(tried: usize, found: bool) -> (r: WarmTurn)
    ensures
        r == (if found {
            WarmTurn { pause_ms: 0, last: true }
        } else {
            WarmTurn { pause_ms: WARM_PAUSE_MS, last: tried + 1 >= WARM_ATTEMPTS }
        }),
{
    if found {
        WarmTurn { pause_ms: 0, last: true }
    } else {
        WarmTurn { pause_ms: WARM_PAUSE_MS, last: tried >= WARM_ATTEMPTS - 1 }
    }
}

/// Whether the startup gets just these answers: it goes on until one lists displays, up to a
/// number of tries.
pub open spec fn warm_run(answers: Seq<Answer>) -> bool {
    &&& 1 <= answers.len() <= WARM_ATTEMPTS
    &&& forall|i: int| 0 <= i < answers.len() - 1 ==> !offers(#[trigger] answers[i])
    &&& !offers(answers.last()) ==> answers.len() == WARM_ATTEMPTS
}

/// Asks for the displays at startup, so that the first client need not wait for the answer.
/// `query` asks the service and is told how often it was asked before, `pause` waits for some
/// milliseconds. That nothing was found is not remembered.
pub fn warm_availability<Q: Fn(usize) -> Answer, P: Fn(u64)>(
    srv: &mut DrmServer,
    query: Q,
    pause: P,
)
    requires
        !(old(srv).state is Available) ==> forall|i: usize|
            i < WARM_ATTEMPTS ==> #[trigger] query.requires((i,)),
        !(old(srv).state is Available) ==> pause.requires((WARM_PAUSE_MS,)),
    ensures
        old(srv).state is Available ==> *final(srv) == *old(srv),
        !(old(srv).state is Available) ==> exists|answers: Seq<Answer>|
            {
                &&& #[trigger] warm_run(answers)
                &&& forall|i: int|
                    0 <= i < answers.len() ==> query.ensures((i as usize,), #[trigger] answers[i])
                &&& *final(srv) == warmed(*old(srv), answers.last())
            },
{
    if let ProbeState::Available(_) = &srv.state {
        return ;
    }
    let ghost mut answers: Seq<Answer> = Seq::empty();
    let ghost before = *srv;
    let mut i: usize = 0;
    loop
        invariant
            *srv == before,
            *old(srv) == before,
            !(before.state is Available),
            forall|k: usize| k < WARM_ATTEMPTS ==> #[trigger] query.requires((k,)),
            pause.requires((WARM_PAUSE_MS,)),
            i < WARM_ATTEMPTS,
            answers.len() == i,
            forall|j: int| 0 <= j < i ==> query.ensures((j as usize,), #[trigger] answers[j]),
            forall|j: int| 0 <= j < i ==> !offers(#[trigger] answers[j]),
        decreases WARM_ATTEMPTS - i,
    {
        let a = query(i);
        proof {
            answers = answers.push(a);
        }
        let found: bool = warm_step(srv, a);
        let turn = warm_turn(i, found);
        if turn.pause_ms > 0 {
            pause(turn.pause_ms);
        }
        if turn.last {
            assert(warm_run(answers));
            return ;
        }
        i = i + 1;
    }
}

/// What is remembered after a teardown: of the answer and of failed queries nothing.
pub open spec fn cleared(s: DrmServer) -> DrmServer {
    DrmServer { state: ProbeState::Unknown, probe_failures: 0, ..s }
}

/// Forgets the answer and the queries that failed, so that the next session asks again, and
/// may fail as often as the first one.
pub fn clear(srv: &mut DrmServer)
    ensures
        *final(srv) == cleared(*old(srv)),
{
    srv.state = ProbeState::Unknown;
    srv.probe_failures = 0;
}

/// A failed query leaves the question open until the last one that is allowed, which settles
/// it; an answer settles it at once.
pub proof fn lemma_query_settled(s: DrmServer, answer: Answer)
    requires
        s.state is Unknown,
        s.probe_failures < DRM_PROBE_MAX_FAILURES,
    ensures
        offers(answer) <==> query_settled(s, answer).state is Available,
        answer is Ok ==> !(query_settled(s, answer).state is Unknown),
        answer is Ok ==> query_settled(s, answer).probe_failures == s.probe_failures,
        answer is Err ==> query_settled(s, answer).probe_failures == s.probe_failures + 1,
        answer is Err ==> (query_settled(s, answer).state is Unavailable <==> s.probe_failures + 1
            == DRM_PROBE_MAX_FAILURES),
        answer is Err ==> (query_settled(s, answer).state is Unknown <==> s.probe_failures + 1
            < DRM_PROBE_MAX_FAILURES),
{
}

/// What is remembered after queries that all failed.
pub open spec fn failed_queries(s: DrmServer, errors: Seq<String>) -> DrmServer
    decreases errors.len(),
{
    if errors.len() == 0 {
        s
    } else {
        query_settled(failed_queries(s, errors.drop_last()), Err(errors.last()))
    }
}

/// After a teardown, whatever went before it, the question stays open until the last failure
/// that is allowed: a failure or two at the start of a session do not disable capture for it.
pub proof fn lemma_cleared_allows_failures(s: DrmServer, errors: Seq<String>)
    requires
        errors.len() <= DRM_PROBE_MAX_FAILURES,
    ensures
        failed_queries(cleared(s), errors).probe_failures == errors.len(),
        failed_queries(cleared(s), errors).state is Unknown <==> errors.len()
            < DRM_PROBE_MAX_FAILURES,
        failed_queries(cleared(s), errors).state is Unavailable <==> errors.len()
            == DRM_PROBE_MAX_FAILURES,
        failed_queries(cleared(s), errors).grab_failures == s.grab_failures,
    decreases errors.len(),
{
    if errors.len() > 0 {
        lemma_cleared_allows_failures(s, errors.drop_last());
    }
}

/// The startup never concludes that there is no capture, and counts no failure.
pub proof fn lemma_warmed(s: DrmServer, answer: Answer)
    ensures
        warmed(s, answer).state is Unavailable ==> s.state is Unavailable,
        warmed(s, answer).probe_failures == s.probe_failures,
        warmed(s, answer).grab_failures == s.grab_failures,
        offers(answer) ==> warmed(s, answer).state is Available,
        !offers(answer) ==> warmed(s, answer) == s,
{
}

} // verus!
