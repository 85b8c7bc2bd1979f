use drmcap::common::{ErrorKind, Scale};
use drmcap::drm::capture::{Capturer, FrameInfo, GrabStep};
use drmcap::drm::config::build_drm_config;
use drmcap::drm::connector::{collapse_connector, normalize_connector};
use drmcap::drm::cursor::{cursor_pixel_count, decode_cursor, CursorInfo};
use drmcap::drm::display::{
    geometry_of, logical_geometry_for, match_names, Display, Listing, RawDisplay,
};
use drmcap::drm::enumerate::{display_from_raw, primary_display_index};
use drmcap::drm::probe::{
    capture_available, capture_probe, probe_step, probe_verdict, settle_probe, ProbeResult,
};
use drmcap::drm::state::{
    drm_cursor, drm_cursor_id, is_bad_crtc, mark_bad_crtc, reset_bad_crtcs_on_topology_change,
    DrmState, ProbeCache,
};
use drmcap::errno::{is_setup_errno, is_transient_errno};
use drmcap::wayland::WaylandDisplayInfo;
use std::cell::{Cell, RefCell};

fn raw(name: &str, crtc_id: u32, active: i32, place: (u32, u32, u32, u32)) -> RawDisplay {
    let mut bytes = name.as_bytes().to_vec();
    bytes.resize(32, 0);
    RawDisplay {
        crtc_id,
        name: bytes,
        x: place.0,
        y: place.1,
        width: place.2,
        height: place.3,
        active,
    }
}

fn output(
    name: &str,
    x: i32,
    y: i32,
    size: (i32, i32),
    logical: Option<(i32, i32)>,
) -> WaylandDisplayInfo {
    WaylandDisplayInfo {
        name: name.to_string(),
        x,
        y,
        width: size.0,
        height: size.1,
        logical_size: logical,
    }
}

fn capturer(crtc_id: u32) -> Capturer {
    let d = display_from_raw(&raw("HDMI-A-1", crtc_id, 1, (0, 0, 2, 2)), &vec![]);
    Capturer::new(d, true, 0).unwrap()
}

fn nothing() -> FrameInfo {
    FrameInfo { mapped: false, width: 0, height: 0, stride: 0, format: XR24 }
}

#[test]
fn errno_values_are_those_of_the_system() {
    assert_eq!(drmcap::errno::EPERM, libc::EPERM);
    assert_eq!(drmcap::errno::ENOENT, libc::ENOENT);
    assert_eq!(drmcap::errno::EINTR, libc::EINTR);
    assert_eq!(drmcap::errno::EAGAIN, libc::EAGAIN);
    assert_eq!(drmcap::errno::EACCES, libc::EACCES);
    assert_eq!(drmcap::errno::EBUSY, libc::EBUSY);
    assert_eq!(drmcap::errno::ENODEV, libc::ENODEV);
    assert_eq!(drmcap::errno::ETIMEDOUT, libc::ETIMEDOUT);
}

#[test]
fn errno_classes() {
    for e in [libc::EAGAIN, libc::EBUSY, libc::EINTR, libc::ETIMEDOUT] {
        assert!(is_transient_errno(-e));
        assert!(!is_setup_errno(-e));
        assert!(!is_transient_errno(e));
    }
    for e in [libc::EACCES, libc::EPERM, libc::ENOENT] {
        assert!(is_setup_errno(-e));
        assert!(!is_transient_errno(-e));
        assert!(!is_setup_errno(e));
    }
    for r in [0, 1, -libc::ENODEV, -libc::EINVAL, i32::MIN, i32::MAX] {
        assert!(!is_transient_errno(r));
        assert!(!is_setup_errno(r));
    }
}

#[test]
fn connector_names_are_normalized() {
    assert_eq!(normalize_connector("HDMI-A-1"), "hdmi-1");
    assert_eq!(normalize_connector("HDMI-1"), "hdmi-1");
    assert_eq!(normalize_connector("DVI-I-1"), "dvi-1");
    assert_eq!(normalize_connector("eDP-1"), "edp-1");
    assert_eq!(normalize_connector("Virtual"), "virtual");
    assert_eq!(normalize_connector("-A-"), "a");
    assert_eq!(normalize_connector("A-B-C-D"), "a-d");
    assert_eq!(normalize_connector("--"), "--");
    assert_eq!(normalize_connector(""), "");
    assert_eq!(normalize_connector("\u{c4}-x-1"), "\u{e4}-1");
}

#[test]
fn collapsing_keeps_case() {
    assert_eq!(collapse_connector("HDMI-A-1"), "HDMI-1");
    assert_eq!(collapse_connector("--DP--2-"), "DP-2");
    assert_eq!(collapse_connector("DP"), "DP");
    let once = collapse_connector("A-b-C");
    assert_eq!(collapse_connector(&once), once);
}

#[test]
fn names_match_exactly_before_they_match_normalized() {
    let names = vec!["HDMI-1".to_string(), "HDMI-A-1".to_string()];
    let keys = vec!["hdmi-1".to_string(), "hdmi-1".to_string()];
    let key = "hdmi-1".to_string();
    assert_eq!(match_names(&names, &keys, &"HDMI-A-1".to_string(), &key), Some(1));
    assert_eq!(match_names(&names, &keys, &"HDMI-B-1".to_string(), &key), Some(0));
    assert_eq!(match_names(&names, &keys, &"DP-1".to_string(), &"dp-1".to_string()), None);
}

#[test]
fn geometry_of_an_output() {
    let g = geometry_of(&output("DP-1", 10, 20, (3840, 2160), Some((2560, 1440))));
    assert_eq!((g.x, g.y, g.w, g.h), (10, 20, 2560, 1440));
    assert_eq!(g.scale, Scale::Ratio { num: 3840, den: 2560 });
    let g = geometry_of(&output("DP-1", 0, 0, (1920, 1080), None));
    assert_eq!((g.w, g.h), (1920, 1080));
    assert_eq!(g.scale, Scale::Ratio { num: 1920, den: 1920 });
    let g = geometry_of(&output("DP-1", 0, 0, (0, 0), Some((-3, 0))));
    assert_eq!((g.w, g.h), (1, 1));
    assert_eq!(g.scale, Scale::Ratio { num: 1, den: 1 });
}

#[test]
fn logical_geometry_falls_back_to_the_physical_one() {
    let outs = vec![output("HDMI-1", 5, 6, (800, 600), Some((400, 300)))];
    let g = logical_geometry_for(&outs, "HDMI-A-1", 1, 2, 3, 4);
    assert_eq!((g.x, g.y, g.w, g.h), (5, 6, 400, 300));
    let g = logical_geometry_for(&outs, "DP-1", 1, 2, 3, 4);
    assert_eq!((g.x, g.y, g.w, g.h), (1, 2, 3, 4));
    assert_eq!(g.scale, Scale::Ratio { num: 1, den: 1 });
}

#[test]
fn raw_names_end_at_a_zero_and_may_be_broken() {
    let d = display_from_raw(&raw("DP-1", 7, 1, (1, 2, 3, 4)), &vec![]);
    assert_eq!(d.name(), "DP-1");
    assert_eq!((d.width(), d.height(), d.origin()), (3, 4, (1, 2)));
    assert_eq!((d.logical_width(), d.logical_height()), (3, 4));
    assert!(d.is_online());
    assert!(!d.is_primary());
    let mut r = raw("", 1, 1, (0, 0, 1, 1));
    r.name = vec![b'X', 0xff, b'Y', 0, b'Z'];
    assert_eq!(display_from_raw(&r, &vec![]).name(), "X\u{fffd}Y");
    r.name = vec![b'A'; 32];
    assert_eq!(display_from_raw(&r, &vec![]).name(), "A".repeat(32));
    r.x = u32::MAX;
    assert_eq!(display_from_raw(&r, &vec![]).origin(), (-1, 0));
}

#[test]
fn enumeration_errors() {
    let mut st = DrmState::new();
    let e = Display::all(&mut st, None, &vec![], None).unwrap_err();
    assert_eq!((e.kind, e.message.as_str()), (ErrorKind::NotFound, "drmtap_open failed"));
    for found in [0, -19] {
        let l = Listing { found, entries: vec![raw("DP-1", 1, 1, (0, 0, 1, 1))] };
        let e = Display::all(&mut st, Some(&l), &vec![], None).unwrap_err();
        assert_eq!((e.kind, e.message.as_str()), (ErrorKind::NotFound, "No DRM displays found"));
    }
    let l = Listing { found: 3, entries: vec![] };
    let e = Display::all(&mut st, Some(&l), &vec![], None).unwrap_err();
    assert_eq!((e.kind, e.message.as_str()), (ErrorKind::NotFound, "No active DRM displays"));
    assert!(st.last_topology.is_empty());
}

#[test]
fn enumeration_takes_active_connectors_or_all() {
    let mut st = DrmState::new();
    let l = Listing {
        found: 9,
        entries: vec![
            raw("DP-1", 1, 0, (0, 0, 10, 10)),
            raw("DP-2", 2, 1, (0, 0, 20, 20)),
            raw("DP-3", 3, 1, (0, 0, 30, 30)),
        ],
    };
    let v = Display::all(&mut st, Some(&l), &vec![], None).unwrap();
    assert_eq!(v.iter().map(|d| d.name()).collect::<Vec<_>>(), ["DP-2", "DP-3"]);
    assert_eq!(v.iter().map(|d| d.is_primary()).collect::<Vec<_>>(), [true, false]);
    let l = Listing {
        found: 2,
        entries: vec![
            raw("DP-1", 0, 0, (0, 0, 10, 10)),
            raw("DP-2", 0, 0, (0, 0, 20, 20)),
            raw("DP-3", 0, 1, (0, 0, 30, 30)),
        ],
    };
    let v = Display::all(&mut st, Some(&l), &vec![], Some("DP-2")).unwrap();
    assert_eq!(v.iter().map(|d| d.name()).collect::<Vec<_>>(), ["DP-1", "DP-2"]);
    assert_eq!(v.iter().map(|d| d.is_primary()).collect::<Vec<_>>(), [false, true]);
}

#[test]
fn the_compositor_decides_which_display_is_primary() {
    let mut st = DrmState::new();
    let l = Listing {
        found: 2,
        entries: vec![raw("DP-1", 1, 1, (0, 0, 1, 1)), raw("HDMI-A-1", 2, 1, (0, 0, 2, 2))],
    };
    let d = Display::primary(&mut st, Some(&l), &vec![], Some("hdmi-1")).unwrap();
    assert_eq!(d.name(), "HDMI-A-1");
    assert!(d.is_primary());
    let d = Display::primary(&mut st, Some(&l), &vec![], Some("VGA-1")).unwrap();
    assert_eq!(d.name(), "DP-1");
    assert!(Display::primary(&mut st, None, &vec![], None).is_err());
    let v = Display::all(&mut st, Some(&l), &vec![], None).unwrap();
    assert_eq!(primary_display_index(&v, Some("HDMI-1")), 1);
    assert_eq!(primary_display_index(&v, None), 0);
}

#[test]
fn bad_outputs_are_dropped_until_the_outputs_change() {
    let mut st = DrmState::new();
    let l = Listing {
        found: 2,
        entries: vec![raw("DP-1", 1, 1, (0, 0, 1, 1)), raw("DP-2", 2, 1, (0, 0, 2, 2))],
    };
    assert_eq!(Display::all(&mut st, Some(&l), &vec![], None).unwrap().len(), 2);
    mark_bad_crtc(&mut st, "DP-1", 1);
    mark_bad_crtc(&mut st, "DP-1", 1);
    assert_eq!(st.bad_crtcs.len(), 1);
    let v = Display::all(&mut st, Some(&l), &vec![], Some("DP-1")).unwrap();
    assert_eq!(v.len(), 1);
    assert_eq!(v[0].name(), "DP-2");
    assert!(v[0].is_primary());
    mark_bad_crtc(&mut st, "DP-2", 2);
    let e = Display::all(&mut st, Some(&l), &vec![], None).unwrap_err();
    assert_eq!(e.kind, ErrorKind::NotFound);
    assert_eq!(e.message, "All DRM CRTCs ungrabbable; falling back to PipeWire");
    let other = Listing { found: 1, entries: vec![raw("DP-1", 1, 1, (0, 0, 1, 1))] };
    let v = Display::all(&mut st, Some(&other), &vec![], None).unwrap();
    assert_eq!(v[0].name(), "DP-1");
    assert!(!is_bad_crtc(&st, "DP-2", 2));
}

#[test]
fn marks_are_by_name_and_crtc() {
    let mut st = DrmState::new();
    mark_bad_crtc(&mut st, "DP-1", 1);
    assert!(is_bad_crtc(&st, "DP-1", 1));
    assert!(!is_bad_crtc(&st, "DP-1", 2));
    assert!(!is_bad_crtc(&st, "DP-2", 1));
    reset_bad_crtcs_on_topology_change(&mut st, &[]);
    assert!(is_bad_crtc(&st, "DP-1", 1));
    let now = [("DP-1".to_string(), 1)];
    reset_bad_crtcs_on_topology_change(&mut st, &now);
    assert!(!is_bad_crtc(&st, "DP-1", 1));
    mark_bad_crtc(&mut st, "DP-1", 1);
    reset_bad_crtcs_on_topology_change(&mut st, &now);
    assert!(is_bad_crtc(&st, "DP-1", 1));
}

#[test]
fn a_configuration_drops_a_broken_device() {
    let c = build_drm_config(5, Some("/dev/dri/card1".to_string()), true);
    assert_eq!(c.device_path.as_deref(), Some("/dev/dri/card1"));
    assert_eq!((c.crtc_id, c.debug), (5, 1));
    let c = build_drm_config(0, Some("/dev\0".to_string()), false);
    assert_eq!((c.device_path, c.debug), (None, 0));
    assert_eq!(build_drm_config(0, None, false).device_path, None);
}

#[test]
fn a_probe_judges_one_grab() {
    assert_eq!(probe_verdict(0), Some(ProbeResult::Success));
    assert_eq!(probe_verdict(-libc::EAGAIN), None);
    assert_eq!(probe_verdict(-libc::EACCES), Some(ProbeResult::Permanent));
    assert_eq!(probe_verdict(-libc::ENODEV), Some(ProbeResult::Transient));
    assert_eq!(probe_verdict(7), Some(ProbeResult::Transient));
}

#[test]
fn a_probe_ends_with_its_last_try() {
    assert_eq!(probe_step(0, -libc::EBUSY), None);
    assert_eq!(probe_step(6, -libc::EBUSY), None);
    assert_eq!(probe_step(7, -libc::EBUSY), Some(ProbeResult::Transient));
    assert_eq!(probe_step(usize::MAX, -libc::EBUSY), Some(ProbeResult::Transient));
    assert_eq!(probe_step(7, 0), Some(ProbeResult::Success));
    assert_eq!(probe_step(0, -libc::EACCES), Some(ProbeResult::Permanent));
    assert_eq!(probe_step(0, -libc::ENODEV), Some(ProbeResult::Transient));
}

fn run_probe(rets: &[i32]) -> (ProbeResult, usize, Vec<u64>) {
    let at = Cell::new(0usize);
    let pauses = RefCell::new(Vec::new());
    let r = capture_probe(
        true,
        |i| {
            assert_eq!(i, at.get());
            at.set(i + 1);
            rets[i.min(rets.len() - 1)]
        },
        |ms| pauses.borrow_mut().push(ms),
    );
    (r, at.get(), pauses.into_inner())
}

#[test]
fn a_probe_retries_transient_failures() {
    assert_eq!(run_probe(&[0]), (ProbeResult::Success, 1, vec![]));
    assert_eq!(run_probe(&[-16, -4, 0]), (ProbeResult::Success, 3, vec![10, 10]));
    assert_eq!(run_probe(&[-16, -13]), (ProbeResult::Permanent, 2, vec![10]));
    assert_eq!(run_probe(&[-19]), (ProbeResult::Transient, 1, vec![]));
    assert_eq!(run_probe(&[-11]), (ProbeResult::Transient, 8, vec![10; 8]));
    let r = capture_probe(false, |_| panic!("not opened"), |_| panic!("not opened"));
    assert_eq!(r, ProbeResult::Transient);
}

#[test]
fn only_definite_probes_are_remembered() {
    let mut st = DrmState::new();
    assert!(!capture_available(&mut st, || ProbeResult::Transient));
    assert_eq!(st.probe, ProbeCache::Unknown);
    assert!(capture_available(&mut st, || ProbeResult::Success));
    assert!(capture_available(&mut st, || panic!("known")));
    let mut st = DrmState::new();
    assert!(!capture_available(&mut st, || ProbeResult::Permanent));
    assert!(!capture_available(&mut st, || panic!("known")));
    let mut st = DrmState::new();
    assert!(settle_probe(&mut st, ProbeResult::Success));
    assert_eq!(st.probe, ProbeCache::Working);
    assert!(!settle_probe(&mut st, ProbeResult::Permanent));
    assert_eq!(st.probe, ProbeCache::Unavailable);
}

#[test]
fn a_capture_needs_an_open_context() {
    let d = display_from_raw(&raw("DP-1", 3, 1, (0, 0, 640, 480)), &vec![]);
    let c = Capturer::new(d, true, 0).unwrap();
    assert_eq!((c.width(), c.height()), (640, 480));
    let d = display_from_raw(&raw("DP-1", 3, 1, (0, 0, 640, 480)), &vec![]);
    let e = Capturer::new(d, false, 0).unwrap_err();
    assert_eq!((e.kind, e.message.as_str()), (ErrorKind::Other, "drmtap_open failed"));
}

#[test]
fn grabs_are_paced() {
    let mut c = capturer(1);
    let mut st = DrmState::new();
    let info = FrameInfo { mapped: true, width: 1, height: 1, stride: 4, format: XR24 };
    c.frame_grabbed(&mut st, 0, &info, 1_000_000_000);
    assert_eq!(c.frame_delay(1_000_000_000), 16_000_000);
    assert_eq!(c.frame_delay(1_010_000_000), 6_000_000);
    assert_eq!(c.frame_delay(1_016_000_000), 0);
    assert_eq!(c.frame_delay(2_000_000_000), 0);
    assert_eq!(c.frame_delay(999_999_999), 16_000_000);
}

#[test]
fn transient_and_empty_grabs_are_retried() {
    let mut c = capturer(1);
    let mut st = DrmState::new();
    st.probe = ProbeCache::Working;
    let s = c.frame_grabbed(&mut st, -libc::EAGAIN, &nothing(), 9);
    assert!(matches!(s, GrabStep::Retry { release: false }));
    let s = c.frame_grabbed(&mut st, 0, &nothing(), 9);
    assert!(matches!(s, GrabStep::Retry { release: true }));
    for (width, height) in [(0, 4), (4, 0)] {
        let info = FrameInfo { mapped: true, width, height, stride: 16, format: XR24 };
        let s = c.frame_grabbed(&mut st, 0, &info, 9);
        assert!(matches!(s, GrabStep::Retry { release: true }));
    }
    assert_eq!(st.probe, ProbeCache::Working);
    assert_eq!(c.last_grab, 0);
    assert!(st.bad_crtcs.is_empty());
}

#[test]
fn hard_failures_are_attributed() {
    let mut c = capturer(4);
    let mut st = DrmState::new();
    st.probe = ProbeCache::Working;
    match c.frame_grabbed(&mut st, -22, &nothing(), 0) {
        GrabStep::Failed(e) => {
            assert_eq!(e.kind, ErrorKind::Other);
            assert_eq!(e.message, "drmtap_grab_mapped failed: errno 22");
        }
        other => panic!("{:?}", other),
    }
    assert_eq!(st.probe, ProbeCache::Unknown);
    assert!(is_bad_crtc(&st, "HDMI-A-1", 4));

    let mut st = DrmState::new();
    st.probe = ProbeCache::Working;
    c.frame_grabbed(&mut st, -libc::ENODEV, &nothing(), 0);
    assert_eq!(st.probe, ProbeCache::Unknown);
    assert!(st.bad_crtcs.is_empty());

    let mut st = DrmState::new();
    capturer(0).frame_grabbed(&mut st, -22, &nothing(), 0);
    assert!(st.bad_crtcs.is_empty());

    let mut st = DrmState::new();
    match c.frame_grabbed(&mut st, -libc::EACCES, &nothing(), 0) {
        GrabStep::Failed(e) => assert_eq!(e.message, "drmtap_grab_mapped failed: errno 13"),
        other => panic!("{:?}", other),
    }
    assert_eq!(st.probe, ProbeCache::Unavailable);
    assert!(st.bad_crtcs.is_empty());
}

#[test]
fn the_cursor_is_polled_every_fourth_frame() {
    let mut c = capturer(1);
    let mut st = DrmState::new();
    let info = FrameInfo { mapped: true, width: 1, height: 1, stride: 4, format: XR24 };
    let polls: Vec<bool> = (0..8)
        .map(|i| match c.frame_grabbed(&mut st, 0, &info, i) {
            GrabStep::Deliver { poll_cursor } => poll_cursor,
            other => panic!("{:?}", other),
        })
        .collect();
    assert_eq!(polls, [false, false, false, true, false, false, false, true]);
}

#[test]
fn frames_are_packed() {
    let mut c = capturer(1);
    let info = FrameInfo { mapped: true, width: 1, height: 2, stride: 6, format: XR24 };
    let f = c.frame(&info, &[1, 2, 3, 4, 90, 91, 5, 6, 7, 8]);
    assert_eq!(f.data, [1, 2, 3, 4, 5, 6, 7, 8]);
    assert_eq!((f.width, f.height), (1, 2));
    assert_eq!((c.width(), c.height(), c.frame_count), (1, 2, 1));
    let info = FrameInfo { mapped: true, width: 1, height: 1, stride: 4, format: XR24 };
    assert_eq!(c.frame(&info, &[9, 8, 7, 6, 5]).data, [9, 8, 7, 6]);
    let info = FrameInfo { mapped: true, width: 2, height: 2, stride: 4, format: XR24 };
    let f = c.frame(&info, &[1, 2, 3, 4, 5, 6, 7, 8, 9, 10, 11, 12]);
    assert_eq!(f.data, [1, 2, 3, 4, 5, 6, 7, 8, 5, 6, 7, 8, 9, 10, 11, 12]);
    assert_eq!(c.frame_count, 3);
}

fn cursor(width: u32, height: u32, hot_x: i32, hot_y: i32) -> CursorInfo {
    CursorInfo { visible: 1, has_pixels: true, width, height, hot_x, hot_y }
}

#[test]
fn unusable_cursors_are_ignored() {
    assert_eq!(cursor_pixel_count(0, &cursor(64, 64, 0, 0)), Some(4096));
    assert_eq!(cursor_pixel_count(0, &cursor(256, 256, 0, 0)), Some(65536));
    assert_eq!(cursor_pixel_count(0, &cursor(256, 257, 0, 0)), None);
    assert_eq!(cursor_pixel_count(0, &cursor(u32::MAX, u32::MAX, 0, 0)), None);
    assert_eq!(cursor_pixel_count(-1, &cursor(64, 64, 0, 0)), None);
    assert_eq!(cursor_pixel_count(0, &cursor(0, 64, 0, 0)), None);
    assert_eq!(cursor_pixel_count(0, &cursor(64, 0, 0, 0)), None);
    let mut i = cursor(1, 1, 0, 0);
    i.visible = 0;
    assert_eq!(cursor_pixel_count(0, &i), None);
    let mut i = cursor(1, 1, 0, 0);
    i.has_pixels = false;
    assert_eq!(cursor_pixel_count(0, &i), None);
}

#[test]
fn a_cursor_is_decoded() {
    let c = decode_cursor(&cursor(2, 1, 3, 0), &[0xff112233, 0x80445566]);
    assert_eq!(c.colors, [0x11, 0x22, 0x33, 0xff, 0x44, 0x55, 0x66, 0x80]);
    assert_eq!((c.width, c.height, c.hotx, c.hoty), (2, 1, 3, 0));
    assert_eq!(c.id, HASH_TWO);
    let c = decode_cursor(&cursor(1, 1, 0, 0), &[0xff112233]);
    assert_eq!(c.id, HASH_ONE);
    let c = decode_cursor(&cursor(2, 2, 0, 0), &[0, 0, 0, 0x7fffffff]);
    assert_eq!((c.hotx, c.hoty), (0, 0));
}

#[test]
fn a_missing_hotspot_is_inferred() {
    // An arrow: the corner of its shape.
    let c = decode_cursor(&cursor(2, 2, 0, 0), &[0, 0x80000000, 0, 0xff000000]);
    assert_eq!((c.hotx, c.hoty), (1, 0));
    // A caret: the middle of its shape.
    let mut px = vec![0u32; 30];
    for y in 1..10 {
        px[y * 3 + 1] = 0xffffffff;
    }
    let c = decode_cursor(&cursor(3, 10, 0, 0), &px);
    assert_eq!((c.hotx, c.hoty), (1, 5));
    let c = decode_cursor(&cursor(3, 10, -1, 2), &px);
    assert_eq!((c.hotx, c.hoty), (-1, 2));
}

#[test]
fn the_cursor_changes_with_its_shape() {
    let c = capturer(1);
    let mut st = DrmState::new();
    assert!(drm_cursor(&st).is_none());
    assert_eq!(drm_cursor_id(&st), None);
    c.update_cursor(&mut st, 0, &cursor(1, 1, 0, 0), &[0xff112233]);
    assert_eq!(drm_cursor_id(&st), Some(HASH_ONE));
    // The same pixels with another hotspot are no change.
    c.update_cursor(&mut st, 0, &cursor(1, 1, 5, 5), &[0xff112233]);
    assert_eq!(drm_cursor(&st).unwrap().hotx, 0);
    c.update_cursor(&mut st, -1, &cursor(1, 1, 0, 0), &[]);
    assert_eq!(drm_cursor_id(&st), Some(HASH_ONE));
    c.update_cursor(&mut st, 0, &cursor(1, 1, 5, 5), &[0xff112234]);
    let now = drm_cursor(&st).unwrap();
    assert_ne!(now.id, HASH_ONE);
    assert_eq!((now.hotx, now.hoty), (5, 5));
    assert_eq!(now.colors, [0x11, 0x22, 0x34, 0xff]);
}

#[test]
fn a_turned_cursor_is_another_cursor() {
    let c = capturer(1);
    let mut st = DrmState::new();
    let pixels = [0xff000001, 0xff000002];
    c.update_cursor(&mut st, 0, &cursor(2, 1, 0, 0), &pixels);
    let before = drm_cursor_id(&st);
    c.update_cursor(&mut st, 0, &cursor(1, 2, 0, 0), &pixels);
    assert_ne!(drm_cursor_id(&st), before);
    let now = drm_cursor(&st).unwrap();
    assert_eq!((now.width, now.height), (1, 2));
}

const XR24: u32 = 0x34325258;
const HASH_ONE: u64 = 4248664658165135075;
const HASH_TWO: u64 = 7150144401925723264;
