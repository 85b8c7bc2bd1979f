//! Choice between the backends: DRM first, then X11 or the portal.

use crate::common::{IoError, Scale};
use crate::drm;
use crate::wayland;
use crate::x11;
use vstd::prelude::*;

verus! {

/// A display of one of the backends.
#[derive(Debug)]
pub enum Display {
    X11(x11::Display),
    WAYLAND(wayland::Display),
    DRM(drm::display::Display),
}

/// A capture by one of the backends.
#[derive(Debug)]
pub enum Capturer {
    X11(x11::Capturer),
    WAYLAND(wayland::Capturer),
    DRM(drm::capture::Capturer),
}

/// What the X11 backend answers, as an answer of all backends.
pub open spec fn from_x11(r: Result<x11::Display, IoError>) -> Result<Display, IoError> {
    match r {
        Ok(d) => Ok(Display::X11(d)),
        Err(e) => Err(e),
    }
}

/// What the portal backend answers, as an answer of all backends.
pub open spec fn from_wayland(r: Result<wayland::Display, IoError>) -> Result<Display, IoError> {
    match r {
        Ok(d) => Ok(Display::WAYLAND(d)),
        Err(e) => Err(e),
    }
}

/// Displays of the X11 backend among those of all backends.
pub open spec fn as_x11(ds: Seq<x11::Display>) -> Seq<Display> {
    Seq::new(ds.len(), |i: int| Display::X11(ds[i]))
}

/// Displays of the portal backend among those of all backends.
pub open spec fn as_wayland(ds: Seq<wayland::Display>) -> Seq<Display> {
    Seq::new(ds.len(), |i: int| Display::WAYLAND(ds[i]))
}

/// Displays of the DRM backend among those of all backends.
pub open spec fn as_drm(ds: Seq<drm::display::Display>) -> Seq<Display> {
    Seq::new(ds.len(), |i: int| Display::DRM(ds[i]))
}

/// Whether `r` is the X11 backend's answer.
pub open spec fn lists_x11(
    r: Result<Vec<Display>, IoError>,
    answer: Result<Vec<x11::Display>, IoError>,
) -> bool {
    match answer {
        Ok(ds) => r matches Ok(v) && v@ == as_x11(ds@),
        Err(e) => r == Err::<Vec<Display>, IoError>(e),
    }
}

/// Whether `r` is the portal backend's answer.
pub open spec fn lists_wayland(
    r: Result<Vec<Display>, IoError>,
    answer: Result<Vec<wayland::Display>, IoError>,
) -> bool {
    match answer {
        Ok(ds) => r matches Ok(v) && v@ == as_wayland(ds@),
        Err(e) => r == Err::<Vec<Display>, IoError>(e),
    }
}

/// Whether the DRM backend answers with displays, and `r` lists them.
pub open spec fn lists_drm(
    r: Result<Vec<Display>, IoError>,
    answer: Result<Vec<drm::display::Display>, IoError>,
) -> bool {
    match answer {
        Ok(ds) => ds@.len() > 0 && (r matches Ok(v) && v@ == as_drm(ds@)),
        Err(_) => false,
    }
}

fn wrap_x11(ds: Vec<x11::Display>) -> (r: Vec<Display>)
    ensures
        r@ == as_x11(ds@),
{
    let ghost all = ds@;
    let mut out: Vec<Display> = Vec::new();
    for d in it: ds
        invariant
            it.seq() == all,
            out@ =~= Seq::new(it.index() as nat, |i: int| Display::X11(all[i])),
    {
        out.push(Display::X11(d));
    }
    out
}

fn wrap_wayland(ds: Vec<wayland::Display>) -> (r: Vec<Display>)
    ensures
        r@ == as_wayland(ds@),
{
    let ghost all = ds@;
    let mut out: Vec<Display> = Vec::new();
    for d in it: ds
        invariant
            it.seq() == all,
            out@ =~= Seq::new(it.index() as nat, |i: int| Display::WAYLAND(all[i])),
    {
        out.push(Display::WAYLAND(d));
    }
    out
}

fn wrap_drm(ds: Vec<drm::display::Display>) -> (r: Vec<Display>)
    ensures
        r@ == as_drm(ds@),
{
    let ghost all = ds@;
    let mut out: Vec<Display> = Vec::new();
    for d in it: ds
        invariant
            it.seq() == all,
            out@ =~= Seq::new(it.index() as nat, |i: int| Display::DRM(all[i])),
    {
        out.push(Display::DRM(d));
    }
    out
}

impl Display {
    /// The primary display. `available` says whether DRM capture works; `drm_primary`,
    /// `x11_primary` and `wayland_primary` ask the backends. Where DRM works and has a primary
    /// display, that is it; else the one of the session's own backend.
    pub fn primary<
        D: FnOnce() -> Result<drm::display::Display, IoError>,
        X: FnOnce() -> Result<x11::Display, IoError>,
        W: FnOnce() -> Result<wayland::Display, IoError>,
    >(available: bool, drm_primary: D, is_x11: bool, x11_primary: X, wayland_primary: W) -> (r:
        Result<Display, IoError>)
        requires
            available ==> drm_primary.requires(()),
            is_x11 ==> x11_primary.requires(()),
            !is_x11 ==> wayland_primary.requires(()),
        ensures
            (available && exists|d: drm::display::Display| #[trigger]
                drm_primary.ensures((), Ok(d)) && r == Ok::<Display, IoError>(Display::DRM(d)))
                || ((!available || exists|e: IoError| #[trigger] drm_primary.ensures((), Err(e)))
                && if is_x11 {
                exists|a: Result<x11::Display, IoError>| #[trigger]
                    x11_primary.ensures((), a) && r == from_x11(a)
            } else {
                exists|a: Result<wayland::Display, IoError>| #[trigger]
                    wayland_primary.ensures((), a) && r == from_wayland(a)
            }),
    {
        if available {
            match drm_primary() {
                Ok(d) => {
                    return Ok(Display::DRM(d));
                },
                Err(_) => {},
            }
        }
        if is_x11 {
            match x11_primary() {
                Ok(d) => Ok(Display::X11(d)),
                Err(e) => Err(e),
            }
        } else {
            match wayland_primary() {
                Ok(d) => Ok(Display::WAYLAND(d)),
                Err(e) => Err(e),
            }
        }
    }

    /// All displays. `available` says whether DRM capture works; `drm_all`, `x11_all` and
    /// `wayland_all` ask the backends. Where DRM works and has displays, those are they; else
    /// those of the session's own backend.
    pub fn all<
        D: FnOnce() -> Result<Vec<drm::display::Display>, IoError>,
        X: FnOnce() -> Result<Vec<x11::Display>, IoError>,
        W: FnOnce() -> Result<Vec<wayland::Display>, IoError>,
    >(available: bool, drm_all: D, is_x11: bool, x11_all: X, wayland_all: W) -> (r: Result<
        Vec<Display>,
        IoError,
    >)
        requires
            available ==> drm_all.requires(()),
            is_x11 ==> x11_all.requires(()),
            !is_x11 ==> wayland_all.requires(()),
        ensures
            (available && exists|a: Result<Vec<drm::display::Display>, IoError>| #[trigger]
                drm_all.ensures((), a) && lists_drm(r, a)) || ((!available || exists|
                a: Result<Vec<drm::display::Display>, IoError>,
            | #[trigger] drm_all.ensures((), a) && !has_displays(a)) && if is_x11 {
                exists|a: Result<Vec<x11::Display>, IoError>| #[trigger]
                    x11_all.ensures((), a) && lists_x11(r, a)
            } else {
                exists|a: Result<Vec<wayland::Display>, IoError>| #[trigger]
                    wayland_all.ensures((), a) && lists_wayland(r, a)
            }),
    {
        if available {
            match drm_all() {
                Ok(ds) => if ds.len() > 0 {
                    return Ok(wrap_drm(ds));
                },
                Err(_) => {},
            }
        }
        if is_x11 {
            match x11_all() {
                Ok(ds) => Ok(wrap_x11(ds)),
                Err(e) => Err(e),
            }
        } else {
            match wayland_all() {
                Ok(ds) => Ok(wrap_wayland(ds)),
                Err(e) => Err(e),
            }
        }
    }

    /// Width in pixels.
    pub fn width(&self) -> (r: usize)
        ensures
            r == match *self {
                Display::X11(d) => d.width,
                Display::WAYLAND(d) => d.width,
                Display::DRM(d) => d@.w,
            },
    {
        match self {
            Display::X11(d) => d.width,
            Display::WAYLAND(d) => d.width,
            Display::DRM(d) => d.width(),
        }
    }

    /// Height in pixels.
    pub fn height(&self) -> (r: usize)
        ensures
            r == match *self {
                Display::X11(d) => d.height,
                Display::WAYLAND(d) => d.height,
                Display::DRM(d) => d@.h,
            },
    {
        match self {
            Display::X11(d) => d.height,
            Display::WAYLAND(d) => d.height,
            Display::DRM(d) => d.height(),
        }
    }

    /// Physical over logical size. An X11 display is not scaled.
    pub fn scale(&self) -> (r: Scale)
        ensures
            r == match *self {
                Display::X11(d) => Scale::one(),
                Display::WAYLAND(d) => d.scale,
                Display::DRM(d) => d@.scale,
            },
    {
        match self {
            Display::X11(_) => Scale::unscaled(),
            Display::WAYLAND(d) => d.scale,
            Display::DRM(d) => d.scale(),
        }
    }

    /// Width in logical pixels.
    pub fn logical_width(&self) -> (r: usize)
        ensures
            r == match *self {
                Display::X11(d) => d.width,
                Display::WAYLAND(d) => d.logical_width,
                Display::DRM(d) => d@.logical_w,
            },
    {
        match self {
            Display::X11(d) => d.width,
            Display::WAYLAND(d) => d.logical_width,
            Display::DRM(d) => d.logical_width(),
        }
    }

    /// Height in logical pixels.
    pub fn logical_height(&self) -> (r: usize)
        ensures
            r == match *self {
                Display::X11(d) => d.height,
                Display::WAYLAND(d) => d.logical_height,
                Display::DRM(d) => d@.logical_h,
            },
    {
        match self {
            Display::X11(d) => d.height,
            Display::WAYLAND(d) => d.logical_height,
            Display::DRM(d) => d.logical_height(),
        }
    }

    /// Upper left corner on the desktop.
    pub fn origin(&self) -> (r: (i32, i32))
        ensures
            r == match *self {
                Display::X11(d) => (d.x, d.y),
                Display::WAYLAND(d) => (d.x, d.y),
                Display::DRM(d) => (d@.x, d@.y),
            },
    {
        match self {
            Display::X11(d) => (d.x, d.y),
            Display::WAYLAND(d) => (d.x, d.y),
            Display::DRM(d) => d.origin(),
        }
    }

    /// Whether the display is connected and on. A DRM display that was enumerated is.
    pub fn is_online(&self) -> (r: bool)
        ensures
            r == match *self {
                Display::X11(d) => d.online,
                Display::WAYLAND(d) => d.online,
                Display::DRM(d) => true,
            },
    {
        match self {
            Display::X11(d) => d.online,
            Display::WAYLAND(d) => d.online,
            Display::DRM(d) => d.is_online(),
        }
    }

    /// Whether this is the primary display.
    pub fn is_primary(&self) -> (r: bool)
        ensures
            r == match *self {
                Display::X11(d) => d.primary,
                Display::WAYLAND(d) => d.primary,
                Display::DRM(d) => d@.primary,
            },
    {
        match self {
            Display::X11(d) => d.primary,
            Display::WAYLAND(d) => d.primary,
            Display::DRM(d) => d.is_primary(),
        }
    }

    /// The name of the display.
    pub fn name(&self) -> (r: String)
        ensures
            r@ == match *self {
                Display::X11(d) => d.name@,
                Display::WAYLAND(d) => d.name@,
                Display::DRM(d) => d@.name,
            },
    {
        match self {
            Display::X11(d) => d.name.clone(),
            Display::WAYLAND(d) => d.name.clone(),
            Display::DRM(d) => d.name(),
        }
    }
}

/// Whether the DRM backend answers with displays.
pub open spec fn has_displays(answer: Result<Vec<drm::display::Display>, IoError>) -> bool {
    answer matches Ok(ds) && ds@.len() > 0
}

impl Capturer {
    /// A capture of a display by the backend that the display belongs to. `x11_new`,
    /// `wayland_new` and `drm_new` start a capture.
    pub fn new<
        X: FnOnce(x11::Display) -> Result<x11::Capturer, IoError>,
        W: FnOnce(wayland::Display) -> Result<wayland::Capturer, IoError>,
        D: FnOnce(drm::display::Display) -> Result<drm::capture::Capturer, IoError>,
    >(display: Display, x11_new: X, wayland_new: W, drm_new: D) -> (r: Result<Capturer, IoError>)
        requires
            match display {
                Display::X11(d) => x11_new.requires((d,)),
                Display::WAYLAND(d) => wayland_new.requires((d,)),
                Display::DRM(d) => drm_new.requires((d,)),
            },
        ensures
            match display {
                Display::X11(d) => exists|a: Result<x11::Capturer, IoError>| #[trigger]
                    x11_new.ensures((d,), a) && match a {
                        Ok(c) => r == Ok::<Capturer, IoError>(Capturer::X11(c)),
                        Err(e) => r == Err::<Capturer, IoError>(e),
                    },
                Display::WAYLAND(d) => exists|a: Result<wayland::Capturer, IoError>| #[trigger]
                    wayland_new.ensures((d,), a) && match a {
                        Ok(c) => r == Ok::<Capturer, IoError>(Capturer::WAYLAND(c)),
                        Err(e) => r == Err::<Capturer, IoError>(e),
                    },
                Display::DRM(d) => exists|a: Result<drm::capture::Capturer, IoError>| #[trigger]
                    drm_new.ensures((d,), a) && match a {
                        Ok(c) => r == Ok::<Capturer, IoError>(Capturer::DRM(c)),
                        Err(e) => r == Err::<Capturer, IoError>(e),
                    },
            },
    {
        match display {
            Display::X11(d) => match x11_new(d) {
                Ok(c) => Ok(Capturer::X11(c)),
                Err(e) => Err(e),
            },
            Display::WAYLAND(d) => match wayland_new(d) {
                Ok(c) => Ok(Capturer::WAYLAND(c)),
                Err(e) => Err(e),
            },
            Display::DRM(d) => match drm_new(d) {
                Ok(c) => Ok(Capturer::DRM(c)),
                Err(e) => Err(e),
            },
        }
    }

    /// Width of the picture.
    pub fn width(&self) -> (r: usize)
        ensures
            r == match *self {
                Capturer::X11(c) => c.width,
                Capturer::WAYLAND(c) => c.width,
                Capturer::DRM(c) => c@.w,
            },
    {
        match self {
            Capturer::X11(c) => c.width,
            Capturer::WAYLAND(c) => c.width,
            Capturer::DRM(c) => c.width(),
        }
    }

    /// Height of the picture.
    pub fn height(&self) -> (r: usize)
        ensures
            r == match *self {
                Capturer::X11(c) => c.height,
                Capturer::WAYLAND(c) => c.height,
                Capturer::DRM(c) => c@.h,
            },
    {
        match self {
            Capturer::X11(c) => c.height,
            Capturer::WAYLAND(c) => c.height,
            Capturer::DRM(c) => c.height(),
        }
    }
}

} // verus!
