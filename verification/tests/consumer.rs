use drmcap::common::{ErrorKind, Scale};
use drmcap::drm_capturer::availability::{
    clear, display_list, is_available, settle_query, warm_availability, warm_step, warm_turn,
    Answer, DrmServer, ProbeState, WarmTurn,
};
use drmcap::drm_capturer::cursors::{
    drm_cursor, drm_cursor_id, pick_drm_cursor, remove_drm_cursor, set_drm_cursor, DrmCursorData,
    DrmCursors,
};
use drmcap::drm_capturer::layout::{
    augment_with_wayland_geometry, display_info_from_drm, get_display_infos, get_primary_index,
    match_wayland_display, normalize_connector,
};
use drmcap::drm_capturer::session::{
    get_capturer_info, query_displays, FrameStep, IpcDrmCapturer,
};
use drmcap::drm_capturer::stream::{Event, FrameSlot, Header, Phase, Receiver};
use drmcap::ipc::{Data, DrmDisplayInfo};
use drmcap::wayland::{Displays, WaylandDisplayInfo};
use std::cell::{Cell, RefCell};

const HIDDEN: u64 = 1;

fn shape(id: u64) -> DrmCursorData {
    DrmCursorData { id, width: 1, height: 1, hotx: 0, hoty: 0, colors: vec![id as u8; 4] }
}

fn display(name: &str, width: u32, height: u32) -> DrmDisplayInfo {
    DrmDisplayInfo { name: name.to_string(), x: 0, y: 0, width, height, active: true }
}

fn output(
    name: &str,
    x: i32,
    y: i32,
    size: (i32, i32),
    logical: Option<(i32, i32)>,
) -> WaylandDisplayInfo {
    WaylandDisplayInfo {
        name: name.to_string(),
        x,
        y,
        width: size.0,
        height: size.1,
        logical_size: logical,
    }
}

fn list() -> Vec<DrmDisplayInfo> {
    vec![display("DP-1", 1920, 1080), display("HDMI-A-1", 3840, 2160)]
}

#[test]
fn the_visible_cursor_is_presented() {
    let mut c = DrmCursors::new();
    assert!(drm_cursor(&c, HIDDEN).is_none());
    assert_eq!(drm_cursor_id(&c, HIDDEN), None);
    set_drm_cursor(&mut c, 2, shape(HIDDEN));
    assert_eq!(drm_cursor_id(&c, HIDDEN), Some(HIDDEN));
    set_drm_cursor(&mut c, 3, shape(30));
    set_drm_cursor(&mut c, 1, shape(HIDDEN));
    assert_eq!(drm_cursor_id(&c, HIDDEN), Some(30));
    set_drm_cursor(&mut c, -4, shape(40));
    assert_eq!(drm_cursor_id(&c, HIDDEN), Some(40));
    assert_eq!(pick_drm_cursor(&c, HIDDEN).unwrap().colors, [40; 4]);
    remove_drm_cursor(&mut c, -4);
    remove_drm_cursor(&mut c, 77);
    assert_eq!(drm_cursor(&c, HIDDEN).unwrap().id, 30);
    remove_drm_cursor(&mut c, 3);
    assert_eq!(drm_cursor_id(&c, HIDDEN), Some(HIDDEN));
}

#[test]
fn short_connector_names() {
    assert_eq!(normalize_connector("HDMI-A-1"), "HDMI-1");
    assert_eq!(normalize_connector("DVI-D-1"), "DVI-1");
    assert_eq!(normalize_connector("DP-1"), "DP-1");
    assert_eq!(normalize_connector("DP-1-2"), "DP-1-2");
    assert_eq!(normalize_connector("A-_-1"), "A-_-1");
    assert_eq!(normalize_connector("dvi-z-1"), "dvi-1");
    assert_eq!(normalize_connector("eDP-1"), "eDP-1");
    assert_eq!(normalize_connector("A-BC-1"), "A-BC-1");
    assert_eq!(normalize_connector("A-\u{e9}-1"), "A-\u{e9}-1");
    assert_eq!(normalize_connector("A--1"), "A--1");
    assert_eq!(normalize_connector("A-B-C-D"), "A-B-C-D");
    assert_eq!(normalize_connector("-x-"), "-");
    assert_eq!(normalize_connector(""), "");
}

#[test]
fn outputs_match_by_name_then_by_unique_size() {
    let wl = vec![
        output("HDMI-1", 1, 0, (1920, 1080), None),
        output("VGA-1", 2, 0, (800, 600), None),
        output("VGA-2", 3, 0, (1024, 768), None),
        output("VGA-3", 4, 0, (1024, 768), None),
    ];
    assert_eq!(match_wayland_display(&display("HDMI-A-1", 800, 600), &wl).unwrap().x, 1);
    assert_eq!(match_wayland_display(&display("DP-9", 800, 600), &wl).unwrap().x, 2);
    assert!(match_wayland_display(&display("DP-9", 1024, 768), &wl).is_none());
    assert!(match_wayland_display(&display("DP-9", 1, 1), &wl).is_none());
}

#[test]
fn several_displays_are_placed() {
    let wl = vec![
        output("HDMI-1", 1920, 10, (3840, 2160), Some((2560, 1440))),
        output("DP-1", 0, 20, (1920, 1080), Some((0, 5))),
    ];
    let v = augment_with_wayland_geometry(&list(), &wl);
    assert_eq!((v[0].x, v[0].y, v[0].scale), (0, 20, Scale::Ratio { num: 1, den: 1 }));
    assert_eq!(v[0].original_size, (1920, 1080));
    assert_eq!((v[1].x, v[1].y), (1920, 10));
    assert_eq!(v[1].scale, Scale::Ratio { num: 3840, den: 2560 });
    assert_eq!(v[1].original_size, (2560, 1440));
    assert_eq!((v[1].width, v[1].height), (3840, 2160));
    let one = vec![display("HDMI-A-1", 3840, 2160)];
    let v = augment_with_wayland_geometry(&one, &wl);
    assert_eq!((v[0].x, v[0].y, v[0].scale), (0, 0, Scale::Ratio { num: 1, den: 1 }));
    let v = augment_with_wayland_geometry(&list(), &vec![output("DP-1", 7, 7, (1, 1), None)]);
    assert_eq!((v[0].x, v[0].y), (0, 0));
}

#[test]
fn a_display_on_its_own() {
    let mut d = display("DP-1", 640, 480);
    d.active = false;
    d.x = 3;
    let i = display_info_from_drm(&d);
    assert_eq!((i.x, i.y, i.width, i.height, i.online), (3, 0, 640, 480, false));
    assert_eq!((i.name.as_str(), i.original_size, i.cursor_embedded), ("DP-1", (640, 480), false));
}

#[test]
fn displays_are_told_once_known() {
    let wl = Displays { primary: 1, displays: vec![
        output("DP-1", 0, 0, (1, 1), None),
        output("HDMI-1", 0, 0, (2, 2), None),
    ] };
    let mut srv = DrmServer::new();
    assert!(get_display_infos(&srv, &wl).is_none());
    assert_eq!(get_primary_index(&srv, &wl), 0);
    srv.state = ProbeState::Available(list());
    assert_eq!(get_display_infos(&srv, &wl).unwrap().len(), 2);
    assert_eq!(get_primary_index(&srv, &wl), 1);
    let none = Displays { primary: 9, displays: vec![] };
    assert_eq!(get_primary_index(&srv, &none), 0);
    let other = Displays { primary: 0, displays: vec![output("VGA-1", 0, 0, (1, 1), None)] };
    assert_eq!(get_primary_index(&srv, &other), 0);
    srv.state = ProbeState::Unavailable;
    assert!(get_display_infos(&srv, &wl).is_none());
}

#[test]
fn availability_is_remembered() {
    let mut srv = DrmServer::new();
    assert!(is_available(&mut srv, || Ok(list())));
    assert!(is_available(&mut srv, || panic!("known")));
    clear(&mut srv);
    assert!(!is_available(&mut srv, || Ok(vec![])));
    assert!(!is_available(&mut srv, || panic!("known")));
    assert_eq!(srv.probe_failures, 0);
}

#[test]
fn failed_queries_are_limited() {
    let mut srv = DrmServer::new();
    for n in 1..5 {
        assert!(!is_available(&mut srv, || Err("down".to_string())));
        assert!(matches!(srv.state, ProbeState::Unknown));
        assert_eq!(srv.probe_failures, n);
    }
    assert!(!settle_query(&mut srv, Err("down".to_string())));
    assert!(matches!(srv.state, ProbeState::Unavailable));
    assert!(!is_available(&mut srv, || panic!("settled")));
    clear(&mut srv);
    assert!(settle_query(&mut srv, Ok(list())));
}

#[test]
fn a_new_session_may_fail_again() {
    let mut srv = DrmServer::new();
    for _ in 0..4 {
        assert!(!is_available(&mut srv, || Err("down".to_string())));
    }
    assert!(is_available(&mut srv, || Ok(list())));
    clear(&mut srv);
    assert!(!is_available(&mut srv, || Err("down".to_string())));
    assert!(matches!(srv.state, ProbeState::Unknown));
    assert_eq!(srv.probe_failures, 1);
    assert!(is_available(&mut srv, || Ok(list())));
}

#[test]
fn the_startup_gives_up_after_ten_tries() {
    assert_eq!(warm_turn(0, true), WarmTurn { pause_ms: 0, last: true });
    assert_eq!(warm_turn(0, false), WarmTurn { pause_ms: 300, last: false });
    assert_eq!(warm_turn(8, false), WarmTurn { pause_ms: 300, last: false });
    assert_eq!(warm_turn(9, false), WarmTurn { pause_ms: 300, last: true });
    assert_eq!(warm_turn(usize::MAX, false), WarmTurn { pause_ms: 300, last: true });
}

#[test]
fn the_startup_waits_for_the_service() {
    let run = |answers: usize| {
        let mut srv = DrmServer::new();
        let asked = Cell::new(0usize);
        let pauses = RefCell::new(Vec::new());
        warm_availability(
            &mut srv,
            |i| {
                assert_eq!(i, asked.get());
                asked.set(i + 1);
                if asked.get() > answers {
                    Ok(list())
                } else if asked.get() % 2 == 0 {
                    Ok(vec![])
                } else {
                    Err("down".to_string())
                }
            },
            |ms| pauses.borrow_mut().push(ms),
        );
        (srv, asked.get(), pauses.into_inner())
    };
    let (srv, asked, pauses) = run(3);
    assert!(matches!(srv.state, ProbeState::Available(_)));
    assert_eq!((asked, pauses), (4, vec![300; 3]));
    let (srv, asked, pauses) = run(99);
    assert!(matches!(srv.state, ProbeState::Unknown));
    assert_eq!((asked, pauses, srv.probe_failures), (10, vec![300; 10], 0));
    let mut srv = DrmServer::new();
    assert!(!warm_step(&mut srv, Ok(vec![])));
    assert!(warm_step(&mut srv, Ok(list())));
    warm_availability(&mut srv, |_| panic!("known"), |_| panic!("known"));
}

#[test]
fn the_first_message_is_the_list() {
    assert_eq!(display_list(Some(Data::DrmDisplayList(list())), "").unwrap().len(), 2);
    let e = display_list(Some(Data::Other), "Some(Other)").unwrap_err();
    assert_eq!(e, "expected DrmDisplayList, got Some(Other)");
    assert_eq!(display_list(None, "None").unwrap_err(), "expected DrmDisplayList, got None");
    assert_eq!(query_displays(None).unwrap_err(), "drm display query timed out");
    assert_eq!(query_displays(Some(Ok(list()))).unwrap().len(), 2);
}

fn session() -> IpcDrmCapturer {
    IpcDrmCapturer::new(Some(Ok(list()))).unwrap().0
}

#[test]
fn a_session_starts_with_its_handshake() {
    let (c, v) = IpcDrmCapturer::new(Some(Ok(list()))).unwrap();
    assert_eq!((c.cur_w, c.cur_h, c.got_frame, v.len()), (0, 0, false, 2));
    assert_eq!(IpcDrmCapturer::new(None).unwrap_err(), "drm capture handshake timed out");
    let down: Answer = Err("down".to_string());
    assert_eq!(IpcDrmCapturer::new(Some(down)).unwrap_err(), "down");
}

#[test]
fn a_pending_picture_comes_before_the_end() {
    let mut c = session();
    let mut srv = DrmServer::new();
    srv.grab_failures = 3;
    let mut slot = FrameSlot::new();
    assert!(matches!(c.frame_step(&mut slot, &mut srv, 5, 9), FrameStep::Wait(4)));
    match c.frame_step(&mut slot, &mut srv, 9, 9) {
        FrameStep::Failed(e) => assert_eq!(e.kind, ErrorKind::WouldBlock),
        other => panic!("{:?}", other),
    }
    slot.latest = Some((1, 2, vec![1, 2, 3, 4, 5, 6, 7, 8]));
    slot.ended = Some("drm stream ended (stopped)".to_string());
    assert!(matches!(c.frame_step(&mut slot, &mut srv, 9, 9), FrameStep::Ready));
    let f = c.frame();
    assert_eq!((f.data, f.width, f.height), (&[1, 2, 3, 4, 5, 6, 7, 8][..], 1, 2));
    assert_eq!(srv.grab_failures, 0);
    assert!(slot.latest.is_none());
    match c.frame_step(&mut slot, &mut srv, 0, 9) {
        FrameStep::Failed(e) => {
            assert_eq!(e.kind, ErrorKind::Other);
            assert_eq!(e.message, "drm stream ended (stopped)");
        }
        other => panic!("{:?}", other),
    }
    assert_eq!(srv.grab_failures, 0);
}

#[test]
fn sessions_without_pictures_give_up() {
    let mut srv = DrmServer::new();
    srv.state = ProbeState::Available(list());
    for n in 1..=4 {
        let mut slot = FrameSlot::new();
        slot.ended = Some("x".to_string());
        session().frame_step(&mut slot, &mut srv, 0, 1);
        assert_eq!(srv.grab_failures, n);
        assert_eq!(matches!(srv.state, ProbeState::Unavailable), n == 4);
    }
}

#[test]
fn a_session_is_counted_once() {
    let mut srv = DrmServer::new();
    srv.state = ProbeState::Available(list());
    let mut slot = FrameSlot::new();
    slot.ended = Some("x".to_string());
    let mut c = session();
    for _ in 0..4 {
        match c.frame_step(&mut slot, &mut srv, 0, 1) {
            FrameStep::Failed(e) => assert_eq!(e.kind, ErrorKind::Other),
            other => panic!("{:?}", other),
        }
    }
    assert_eq!(srv.grab_failures, 1);
    assert!(matches!(srv.state, ProbeState::Available(_)));
}

#[test]
fn a_capture_of_a_display() {
    let mut srv = DrmServer::new();
    let info = get_capturer_info(&mut srv, 1, Some(Ok(list()))).unwrap();
    assert_eq!((info.origin, info.width, info.height), ((0, 0), 3840, 2160));
    assert_eq!((info.ndisplay, info.current), (2, 1));
    assert!(matches!(srv.state, ProbeState::Available(_)));
    let mut srv = DrmServer::new();
    let e = get_capturer_info(&mut srv, 10, Some(Ok(list()))).unwrap_err();
    assert_eq!(e, "drm display index 10 out of range (2)");
    assert!(matches!(srv.state, ProbeState::Unknown));
    let e = get_capturer_info(&mut srv, 0, None).unwrap_err();
    assert_eq!(e, "drm capture handshake timed out");
    let down: Answer = Err("down".to_string());
    assert_eq!(get_capturer_info(&mut srv, 0, Some(down)).unwrap_err(), "down");
}

fn streaming(slot: &mut FrameSlot, cursors: &mut DrmCursors) -> Receiver {
    let mut r = Receiver::new(2);
    assert!(matches!(r.phase, Phase::Connecting));
    assert!(!r.step(Event::Connected(Ok(())), slot, cursors));
    let reply = Ok(Some(Data::DrmDisplayList(list())));
    assert!(!r.step(Event::Replied { reply, shown: String::new() }, slot, cursors));
    assert!(matches!(r.phase, Phase::Starting(_)));
    assert!(!r.step(Event::Requested(Ok(())), slot, cursors));
    assert_eq!(r.announcement().unwrap().unwrap().len(), 2);
    assert!(r.announcement().is_none());
    assert!(matches!(r.phase, Phase::CheckingStop));
    r
}

#[test]
fn a_stream_publishes_pictures_and_cursors() {
    let mut slot = FrameSlot::new();
    let mut cursors = DrmCursors::new();
    let mut r = streaming(&mut slot, &mut cursors);
    r.step(Event::Stop(false), &mut slot, &mut cursors);
    assert!(matches!(r.phase, Phase::Reading));
    r.step(Event::Received(Header::Timeout), &mut slot, &mut cursors);
    assert!(matches!(r.phase, Phase::CheckingStop));
    for fill in [1u8, 2] {
        r.step(Event::Stop(false), &mut slot, &mut cursors);
        let h = Header::Message(Data::DrmFrame { width: 1, height: 1 });
        assert!(!r.step(Event::Received(h), &mut slot, &mut cursors));
        assert!(matches!(r.phase, Phase::FrameBody(1, 1)));
        assert!(r.step(Event::Body(Ok(vec![fill; 4])), &mut slot, &mut cursors));
    }
    assert_eq!(slot.latest, Some((1, 1, vec![2; 4])));
    r.step(Event::Stop(false), &mut slot, &mut cursors);
    let h = Header::Message(Data::DrmCursor { id: 9, width: 2, height: 3, hotx: 4, hoty: 5 });
    r.step(Event::Received(h), &mut slot, &mut cursors);
    assert!(!r.step(Event::Body(Ok(vec![7; 24])), &mut slot, &mut cursors));
    let c = drm_cursor(&cursors, HIDDEN).unwrap();
    assert_eq!((c.id, c.width, c.height, c.hotx, c.hoty), (9, 2, 3, 4, 5));
    assert_eq!(c.colors, vec![7; 24]);
    r.step(Event::Stop(false), &mut slot, &mut cursors);
    r.step(Event::Received(Header::Message(Data::Other)), &mut slot, &mut cursors);
    assert!(matches!(r.phase, Phase::CheckingStop));
    // An event of another phase changes nothing.
    assert!(!r.step(Event::Body(Ok(vec![])), &mut slot, &mut cursors));
    assert!(matches!(r.phase, Phase::CheckingStop));
    set_drm_cursor(&mut cursors, 3, shape(30));
    assert!(r.step(Event::Stop(true), &mut slot, &mut cursors));
    assert!(matches!(r.phase, Phase::Done));
    assert_eq!(slot.ended.as_deref(), Some("drm stream ended (stopped)"));
    assert_eq!(slot.latest, Some((1, 1, vec![2; 4])));
    assert_eq!(drm_cursor_id(&cursors, HIDDEN), Some(30));
}

#[test]
fn a_stream_tells_why_it_ended() {
    let end = |header: Header, body: Option<&str>| {
        let mut slot = FrameSlot::new();
        let mut cursors = DrmCursors::new();
        let mut r = streaming(&mut slot, &mut cursors);
        r.step(Event::Stop(false), &mut slot, &mut cursors);
        r.step(Event::Received(header), &mut slot, &mut cursors);
        if let Some(e) = body {
            r.step(Event::Body(Err(e.to_string())), &mut slot, &mut cursors);
        }
        assert!(matches!(r.phase, Phase::Done));
        slot.ended.unwrap()
    };
    assert_eq!(end(Header::Desynchronized, None), "drm stream ended (desynchronized frame)");
    assert_eq!(end(Header::Failed("eof".to_string()), None), "drm stream ended (recv: eof)");
    let h = Header::Message(Data::DrmFrame { width: 1, height: 1 });
    assert_eq!(end(h, Some("eof")), "drm stream ended (frame body: eof)");
    let h = Header::Message(Data::DrmCursor { id: 9, width: 2, height: 3, hotx: 4, hoty: 5 });
    assert_eq!(end(h, Some("eof")), "drm stream ended (cursor body: eof)");
}

#[test]
fn a_failed_handshake_is_announced() {
    let mut slot = FrameSlot::new();
    let mut cursors = DrmCursors::new();
    let mut r = Receiver::new(0);
    r.step(Event::Connected(Err("refused".to_string())), &mut slot, &mut cursors);
    assert_eq!(r.announcement().unwrap().unwrap_err(), "refused");
    assert!(matches!(r.phase, Phase::Done));
    assert!(slot.ended.is_none());

    let mut r = Receiver::new(0);
    r.step(Event::Connected(Ok(())), &mut slot, &mut cursors);
    let ev = Event::Replied { reply: Ok(None), shown: "None".to_string() };
    r.step(ev, &mut slot, &mut cursors);
    let e = r.announcement().unwrap().unwrap_err();
    assert_eq!(e, "expected DrmDisplayList, got None");

    let mut r = Receiver::new(0);
    r.step(Event::Connected(Ok(())), &mut slot, &mut cursors);
    let ev = Event::Replied { reply: Err("slow".to_string()), shown: String::new() };
    r.step(ev, &mut slot, &mut cursors);
    assert_eq!(r.announcement().unwrap().unwrap_err(), "slow");

    let mut r = Receiver::new(0);
    r.step(Event::Connected(Ok(())), &mut slot, &mut cursors);
    let reply = Ok(Some(Data::DrmDisplayList(list())));
    r.step(Event::Replied { reply, shown: String::new() }, &mut slot, &mut cursors);
    r.step(Event::Requested(Err("gone".to_string())), &mut slot, &mut cursors);
    assert_eq!(r.announcement().unwrap().unwrap_err(), "gone");
    assert!(matches!(r.phase, Phase::Done));
}
