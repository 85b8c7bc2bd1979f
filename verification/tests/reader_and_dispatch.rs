use drmcap::common::{ErrorKind, IoError, Scale};
use drmcap::drm::capture::FrameInfo;
use drmcap::drm::display::RawDisplay;
use drmcap::drm::enumerate::display_from_raw;
use drmcap::drm_reader::{device_under_dev_dri, DrmReader};
use drmcap::fourcc::{has_32bpp, BIG_ENDIAN, XRGB8888};
use drmcap::linux::{Capturer, Display};
use drmcap::{wayland, x11};
use std::cell::RefCell;

fn info(width: u32, height: u32, stride: u32) -> FrameInfo {
    FrameInfo { mapped: true, width, height, stride, format: XRGB8888 }
}

fn reader() -> DrmReader {
    DrmReader::open(true, None, |_| panic!("no path"), |_| true).unwrap()
}

#[test]
fn only_nodes_of_dev_dri_pass() {
    assert!(device_under_dev_dri(Some(b"/dev/dri/card0")));
    assert!(device_under_dev_dri(Some(b"/dev/dri/\xff")));
    for p in [
        &b"/dev/dri"[..],
        b"/dev/dri/",
        b"/dev/dri/by-path/x",
        b"/dev/drj/card0",
        b"/dev/sda",
        b"/tmp/dev/dri/card0",
        b"",
    ] {
        assert!(!device_under_dev_dri(Some(p)));
    }
    assert!(!device_under_dev_dri(None));
}

#[test]
fn a_reader_opens_only_what_is_allowed() {
    let seen = RefCell::new(Vec::new());
    let open = |c: &drmcap::drm::config::DrmConfig| {
        seen.borrow_mut().push((c.device_path.clone(), c.crtc_id, c.debug));
        true
    };
    assert!(DrmReader::open(false, None, |_| None, open).is_none());
    assert!(DrmReader::open(true, Some("/x"), |_| None, open).is_none());
    assert!(DrmReader::open(true, Some("/x"), |_| Some(b"/etc/passwd".to_vec()), open).is_none());
    let dri = |_: &str| Some(b"/dev/dri/card1".to_vec());
    assert!(DrmReader::open(true, Some("/x\0"), dri, open).is_none());
    assert!(seen.borrow().is_empty());
    let r = DrmReader::open(true, Some("/dev/dri/by-path/x"), dri, open).unwrap();
    assert!(r.buf.is_empty());
    assert!(DrmReader::open(true, None, |_| panic!("no path"), open).is_some());
    assert_eq!(
        *seen.borrow(),
        [(Some("/dev/dri/by-path/x".to_string()), 0, 0), (None, 0, 0)]
    );
    assert!(DrmReader::open(true, None, |_| None, |_| false).is_none());
    assert!(DrmReader::open_config(Some("/x"), Some(b"/dev/dri/card0")).is_some());
    assert!(DrmReader::open_config(Some("/x"), Some(b"/dev/card0")).is_none());
}

#[test]
fn a_grab_is_packed() {
    let mut r = reader();
    let (data, w, h) = r.grab(0, &info(1, 2, 5), &[1, 2, 3, 4, 0, 5, 6, 7, 8]).unwrap();
    assert_eq!((data, w, h), (&[1, 2, 3, 4, 5, 6, 7, 8][..], 1, 2));
    let (data, w, h) = r.grab(0, &info(1, 1, 4), &[4, 3, 2, 1]).unwrap();
    assert_eq!((data, w, h), (&[4, 3, 2, 1][..], 1, 1));
}

#[test]
fn a_grab_fails_softly_or_hard() {
    let mut r = reader();
    for ret in [-libc::EAGAIN, -libc::EBUSY, -libc::EINTR, -libc::ETIMEDOUT] {
        let e = r.grab(ret, &info(0, 0, 0), &[]).unwrap_err();
        assert_eq!((e.kind, e.message.as_str()), (ErrorKind::WouldBlock, ""));
    }
    let e = r.grab(-5, &info(0, 0, 0), &[]).unwrap_err();
    assert_eq!(e.kind, ErrorKind::Other);
    assert_eq!(e.message, "drmtap_grab_mapped failed: errno 5");
    let unmapped = FrameInfo { mapped: false, ..info(4, 4, 16) };
    assert_eq!(r.grab(0, &unmapped, &[]).unwrap_err().kind, ErrorKind::WouldBlock);
    for i in [
        info(2, 1, 7),
        info(16385, 1, 65540),
        info(1, 16385, 4),
        info(0, 1, 4),
        info(1, 0, 4),
        info(u32::MAX, 1, u32::MAX),
    ] {
        let e = r.grab(0, &i, &[]).unwrap_err();
        assert_eq!(e.kind, ErrorKind::Other);
        assert_eq!(e.message, "unsupported DRM scanout format");
    }
}

#[test]
fn only_formats_of_32_bits_are_read() {
    let codes = [
        b"XR24", b"XB24", b"RX24", b"BX24", b"AR24", b"AB24", b"RA24", b"BA24", b"XR30", b"XB30",
        b"RX30", b"BX30", b"AR30", b"AB30", b"RA30", b"BA30", b"RG32", b"GR32", b"GR H", b"R  F",
        b"AYUV", b"AVUY", b"XYUV", b"XVUY", b"Y210", b"Y212", b"Y216", b"Y410", b"XV30", b"XY30",
    ];
    for code in codes {
        let format = u32::from_le_bytes(*code);
        assert!(has_32bpp(format));
        assert!(has_32bpp(format | BIG_ENDIAN));
        let mut r = reader();
        let (data, _, _) =
            r.grab(0, &FrameInfo { format, ..info(1, 1, 4) }, &[1, 2, 3, 4]).unwrap();
        assert_eq!(data, [1, 2, 3, 4]);
    }
    for code in [b"RG16", b"BG16", b"RG24", b"XR48", b"AB4H", b"C8  ", b"NV12", b"P010", b"YUYV",
        b"Y412", b"VU24"] {
        let format = u32::from_le_bytes(*code);
        assert!(!has_32bpp(format));
        let mut r = reader();
        let e = r.grab(0, &FrameInfo { format, ..info(2, 1, 8) }, &[0; 8]).unwrap_err();
        assert_eq!(e.kind, ErrorKind::Other);
        assert_eq!(e.message, "unsupported DRM scanout format");
    }
    assert!(!has_32bpp(0));
    assert!(!has_32bpp(BIG_ENDIAN));
    let mut r = reader();
    assert!(r.grab(0, &info(2, 1, 8), &[0; 8]).is_ok());
}

fn x11_display(name: &str) -> x11::Display {
    x11::Display {
        name: name.to_string(),
        x: 1,
        y: 2,
        width: 3,
        height: 4,
        online: true,
        primary: false,
    }
}

fn wayland_display(name: &str) -> wayland::Display {
    wayland::Display {
        name: name.to_string(),
        x: 5,
        y: 6,
        width: 70,
        height: 80,
        logical_width: 35,
        logical_height: 40,
        scale: Scale::Reported(2.0f64.to_bits()),
        online: false,
        primary: true,
    }
}

fn drm_display(name: &str) -> drmcap::drm::Display {
    let raw = RawDisplay {
        crtc_id: 9,
        name: name.as_bytes().to_vec(),
        x: 11,
        y: 12,
        width: 13,
        height: 14,
        active: 1,
    };
    display_from_raw(&raw, &vec![])
}

fn gone() -> IoError {
    IoError { kind: ErrorKind::NotFound, message: "gone".to_string() }
}

#[test]
fn drm_comes_first() {
    let d = Display::primary(
        true,
        || Ok(drm_display("DP-1")),
        true,
        || panic!("not asked"),
        || panic!("not asked"),
    )
    .unwrap();
    assert!(matches!(d, Display::DRM(_)));
    assert_eq!(d.name(), "DP-1");
    let v = Display::all(
        true,
        || Ok(vec![drm_display("DP-1"), drm_display("DP-2")]),
        false,
        || panic!("not asked"),
        || panic!("not asked"),
    )
    .unwrap();
    assert_eq!(v.iter().map(|d| d.name()).collect::<Vec<_>>(), ["DP-1", "DP-2"]);
}

#[test]
fn other_backends_follow() {
    let d = Display::primary(
        false,
        || panic!("not available"),
        true,
        || Ok(x11_display("X")),
        || panic!("not asked"),
    )
    .unwrap();
    assert!(matches!(d, Display::X11(_)));
    let d = Display::primary(
        true,
        || Err(gone()),
        false,
        || panic!("not asked"),
        || Ok(wayland_display("W")),
    )
    .unwrap();
    assert!(matches!(d, Display::WAYLAND(_)));
    let e = Display::primary(true, || Err(gone()), true, || Err(gone()), || panic!("not asked"));
    assert_eq!(e.unwrap_err().message, "gone");
    let v = Display::all(
        true,
        || Ok(vec![]),
        true,
        || Ok(vec![x11_display("A"), x11_display("B")]),
        || panic!("not asked"),
    )
    .unwrap();
    assert_eq!(v.iter().map(|d| d.name()).collect::<Vec<_>>(), ["A", "B"]);
    let v = Display::all(
        false,
        || panic!("not available"),
        false,
        || panic!("not asked"),
        || Ok(vec![wayland_display("W")]),
    )
    .unwrap();
    assert!(matches!(v[0], Display::WAYLAND(_)));
    let e = Display::all(true, || Err(gone()), false, || panic!("not asked"), || Err(gone()));
    assert_eq!(e.unwrap_err().kind, ErrorKind::NotFound);
}

#[test]
fn displays_answer_by_backend() {
    let x = Display::X11(x11_display("X"));
    assert_eq!((x.width(), x.height(), x.origin()), (3, 4, (1, 2)));
    assert_eq!((x.logical_width(), x.logical_height()), (3, 4));
    assert_eq!((x.is_online(), x.is_primary()), (true, false));
    assert_eq!(x.scale(), Scale::Ratio { num: 1, den: 1 });
    let w = Display::WAYLAND(wayland_display("W"));
    assert_eq!((w.width(), w.height(), w.origin()), (70, 80, (5, 6)));
    assert_eq!((w.logical_width(), w.logical_height()), (35, 40));
    assert_eq!((w.is_online(), w.is_primary()), (false, true));
    assert_eq!(w.scale(), Scale::Reported(2.0f64.to_bits()));
    let d = Display::DRM(drm_display("D"));
    assert_eq!((d.width(), d.height(), d.origin()), (13, 14, (11, 12)));
    assert_eq!((d.logical_width(), d.logical_height()), (13, 14));
    assert_eq!((d.is_online(), d.is_primary(), d.name()), (true, false, "D".to_string()));
    assert_eq!(d.scale(), Scale::Ratio { num: 1, den: 1 });
}

#[test]
fn captures_belong_to_the_backend_of_the_display() {
    let c = Capturer::new(
        Display::X11(x11_display("X")),
        |d| Ok(x11::Capturer { width: d.width, height: d.height }),
        |_| panic!("other backend"),
        |_| panic!("other backend"),
    )
    .unwrap();
    assert_eq!((c.width(), c.height()), (3, 4));
    let c = Capturer::new(
        Display::WAYLAND(wayland_display("W")),
        |_| panic!("other backend"),
        |d| Ok(wayland::Capturer { width: d.width, height: d.height }),
        |_| panic!("other backend"),
    )
    .unwrap();
    assert_eq!((c.width(), c.height()), (70, 80));
    let c = Capturer::new(
        Display::DRM(drm_display("D")),
        |_| panic!("other backend"),
        |_| panic!("other backend"),
        |d| drmcap::drm::Capturer::new(d, true, 0),
    )
    .unwrap();
    assert_eq!((c.width(), c.height()), (13, 14));
    let e = Capturer::new(
        Display::DRM(drm_display("D")),
        |_| panic!("other backend"),
        |_| panic!("other backend"),
        |d| drmcap::drm::Capturer::new(d, false, 0),
    );
    assert_eq!(e.unwrap_err().message, "drmtap_open failed");
}

#[test]
fn rows_are_packed_without_padding() {
    let mut buf = vec![9; 100];
    drmcap::pixels::pack_rows(&mut buf, &[1, 2, 3, 4, 0, 5, 6, 7, 8], 1, 2, 5);
    assert_eq!(buf, [1, 2, 3, 4, 5, 6, 7, 8]);
    drmcap::pixels::pack_rows(&mut buf, &[], 7, 0, 5);
    assert!(buf.is_empty());
}
