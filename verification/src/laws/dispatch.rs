//! Laws of the choice between the backends.

use crate::common::{IoError, Scale};
use crate::drm;
use crate::linux::{Capturer, Display};
use crate::wayland;
use crate::x11;
use vstd::prelude::*;
use vstd::string::*;

verus! {

/// The primary display is that of DRM exactly if DRM is available and has one. Otherwise it is
/// that of the session's own backend, or that backend's error.
pub proof fn law_primary_display<
    D: FnOnce() -> Result<drm::display::Display, IoError>,
    X: FnOnce() -> Result<x11::Display, IoError>,
    W: FnOnce() -> Result<wayland::Display, IoError>,
>(
    available: bool,
    drm_primary: D,
    is_x11: bool,
    x11_primary: X,
    wayland_primary: W,
    r: Result<Display, IoError>,
)
    requires
        call_ensures(
            Display::primary::<D, X, W>,
            (available, drm_primary, is_x11, x11_primary, wayland_primary),
            r,
        ),
    ensures
        match r {
            Ok(Display::DRM(d)) => available && drm_primary.ensures((), Ok(d)),
            Ok(Display::X11(d)) => is_x11 && x11_primary.ensures((), Ok(d)),
            Ok(Display::WAYLAND(d)) => !is_x11 && wayland_primary.ensures((), Ok(d)),
            Err(e) => if is_x11 {
                x11_primary.ensures((), Err(e))
            } else {
                wayland_primary.ensures((), Err(e))
            },
        },
        !(r matches Ok(d) && d is DRM) && available ==> exists|e: IoError| #[trigger]
            drm_primary.ensures((), Err(e)),
{
}

/// The displays are those of DRM, all and in order, exactly if DRM is available and has any.
/// Otherwise they are those of the session's own backend, all and in order, or its error.
pub proof fn law_all_displays<
    D: FnOnce() -> Result<Vec<drm::display::Display>, IoError>,
    X: FnOnce() -> Result<Vec<x11::Display>, IoError>,
    W: FnOnce() -> Result<Vec<wayland::Display>, IoError>,
>(
    available: bool,
    drm_all: D,
    is_x11: bool,
    x11_all: X,
    wayland_all: W,
    r: Result<Vec<Display>, IoError>,
)
    requires
        call_ensures(
            Display::all::<D, X, W>,
            (available, drm_all, is_x11, x11_all, wayland_all),
            r,
        ),
    ensures
        ({
            ||| available && exists|ds: Vec<drm::display::Display>| {
                &&& #[trigger] drm_all.ensures((), Ok(ds))
                &&& ds@.len() >= 1
                &&& r matches Ok(v) && v@.len() == ds@.len() && forall|i: int|
                    0 <= i < v@.len() ==> #[trigger] v@[i] == Display::DRM(ds@[i])
            }
            ||| is_x11 && exists|ds: Vec<x11::Display>| {
                &&& #[trigger] x11_all.ensures((), Ok(ds))
                &&& r matches Ok(v) && v@.len() == ds@.len() && forall|i: int|
                    0 <= i < v@.len() ==> #[trigger] v@[i] == Display::X11(ds@[i])
            }
            ||| !is_x11 && exists|ds: Vec<wayland::Display>| {
                &&& #[trigger] wayland_all.ensures((), Ok(ds))
                &&& r matches Ok(v) && v@.len() == ds@.len() && forall|i: int|
                    0 <= i < v@.len() ==> #[trigger] v@[i] == Display::WAYLAND(ds@[i])
            }
            ||| r matches Err(e) && if is_x11 {
                x11_all.ensures((), Err(e))
            } else {
                wayland_all.ensures((), Err(e))
            }
        }),
        available && (r matches Ok(v) ==> v@.len() == 0 || !(v@[0] is DRM)) ==> (exists|
            e: IoError,
        | #[trigger] drm_all.ensures((), Err(e))) || exists|ds: Vec<drm::display::Display>|
            #[trigger] drm_all.ensures((), Ok(ds)) && ds@.len() == 0,
{
    let by_drm = available && exists|a: Result<Vec<drm::display::Display>, IoError>| #[trigger]
        drm_all.ensures((), a) && crate::linux::lists_drm(r, a);
    if by_drm {
        let a = choose|a: Result<Vec<drm::display::Display>, IoError>| #[trigger]
            drm_all.ensures((), a) && crate::linux::lists_drm(r, a);
        let ds = a->Ok_0;
        let v = r->Ok_0;
        assert(drm_all.ensures((), Ok(ds)));
        assert(v@ == crate::linux::as_drm(ds@));
        assert(v@.len() == ds@.len());
        assert(v@[0] is DRM);
    } else {
        if available {
            let a = choose|a: Result<Vec<drm::display::Display>, IoError>| #[trigger]
                drm_all.ensures((), a) && !crate::linux::has_displays(a);
            match a {
                Ok(ds) => {
                    assert(drm_all.ensures((), Ok(ds)));
                },
                Err(e) => {
                    assert(drm_all.ensures((), Err(e)));
                },
            }
        }
        if is_x11 {
            let a = choose|a: Result<Vec<x11::Display>, IoError>| #[trigger]
                x11_all.ensures((), a) && crate::linux::lists_x11(r, a);
            if let Ok(ds) = a {
                assert(x11_all.ensures((), Ok(ds)));
                assert(r->Ok_0@ == crate::linux::as_x11(ds@));
            }
        } else {
            let a = choose|a: Result<Vec<wayland::Display>, IoError>| #[trigger]
                wayland_all.ensures((), a) && crate::linux::lists_wayland(r, a);
            if let Ok(ds) = a {
                assert(wayland_all.ensures((), Ok(ds)));
                assert(r->Ok_0@ == crate::linux::as_wayland(ds@));
            }
        }
    }
}

/// A capture is made by the backend of its display, of that display.
pub proof fn law_capture_of_a_display<
    X: FnOnce(x11::Display) -> Result<x11::Capturer, IoError>,
    W: FnOnce(wayland::Display) -> Result<wayland::Capturer, IoError>,
    D: FnOnce(drm::display::Display) -> Result<drm::capture::Capturer, IoError>,
>(display: Display, x11_new: X, wayland_new: W, drm_new: D, r: Result<Capturer, IoError>)
    requires
        call_ensures(Capturer::new::<X, W, D>, (display, x11_new, wayland_new, drm_new), r),
    ensures
        match (display, r) {
            (Display::X11(d), Ok(c)) => c matches Capturer::X11(x) && x11_new.ensures((d,), Ok(x)),
            (Display::X11(d), Err(e)) => x11_new.ensures((d,), Err(e)),
            (Display::WAYLAND(d), Ok(c)) => c matches Capturer::WAYLAND(x) && wayland_new.ensures(
                (d,),
                Ok(x),
            ),
            (Display::WAYLAND(d), Err(e)) => wayland_new.ensures((d,), Err(e)),
            (Display::DRM(d), Ok(c)) => c matches Capturer::DRM(x) && drm_new.ensures((d,), Ok(x)),
            (Display::DRM(d), Err(e)) => drm_new.ensures((d,), Err(e)),
        },
{
}

/// What is asked of a display is what its backend says of it. An X11 display is not scaled, and
/// a DRM display is always online.
pub proof fn law_display_answers(
    d: &Display,
    w: usize,
    h: usize,
    lw: usize,
    lh: usize,
    origin: (i32, i32),
    name: String,
    online: bool,
    primary: bool,
    scale: Scale,
)
    requires
        call_ensures(Display::width, (d,), w),
        call_ensures(Display::height, (d,), h),
        call_ensures(Display::logical_width, (d,), lw),
        call_ensures(Display::logical_height, (d,), lh),
        call_ensures(Display::origin, (d,), origin),
        call_ensures(Display::name, (d,), name),
        call_ensures(Display::is_online, (d,), online),
        call_ensures(Display::is_primary, (d,), primary),
        call_ensures(Display::scale, (d,), scale),
    ensures
        match *d {
            Display::X11(x) => {
                &&& w == x.width && h == x.height && lw == x.width && lh == x.height
                &&& origin.0 == x.x && origin.1 == x.y && name@ == x.name@
                &&& online == x.online && primary == x.primary
                &&& (scale matches Scale::Ratio { num, den } && num == den && den > 0)
            },
            Display::WAYLAND(x) => {
                &&& w == x.width && h == x.height
                &&& lw == x.logical_width && lh == x.logical_height
                &&& origin.0 == x.x && origin.1 == x.y && name@ == x.name@
                &&& online == x.online && primary == x.primary && scale == x.scale
            },
            Display::DRM(x) => {
                &&& w == x.w && h == x.h && lw == x.logical_w && lh == x.logical_h
                &&& origin.0 == x.x && origin.1 == x.y && name@ == x.name@
                &&& online && primary == x.primary && scale == x.scale
            },
        },
{
}

/// What is asked of a display of the DRM backend is what it was enumerated with.
pub proof fn law_drm_display_answers(
    d: &drm::display::Display,
    w: usize,
    h: usize,
    lw: usize,
    lh: usize,
    origin: (i32, i32),
    name: String,
    online: bool,
    primary: bool,
    scale: Scale,
)
    requires
        call_ensures(drm::display::Display::width, (d,), w),
        call_ensures(drm::display::Display::height, (d,), h),
        call_ensures(drm::display::Display::logical_width, (d,), lw),
        call_ensures(drm::display::Display::logical_height, (d,), lh),
        call_ensures(drm::display::Display::origin, (d,), origin),
        call_ensures(drm::display::Display::name, (d,), name),
        call_ensures(drm::display::Display::is_online, (d,), online),
        call_ensures(drm::display::Display::is_primary, (d,), primary),
        call_ensures(drm::display::Display::scale, (d,), scale),
    ensures
        w == d.w && h == d.h && lw == d.logical_w && lh == d.logical_h,
        origin.0 == d.x && origin.1 == d.y && name@ == d.name@,
        online && primary == d.primary && scale == d.scale,
{
}

/// A capture is as wide and as high as its backend says.
pub proof fn law_capture_answers(c: &Capturer, w: usize, h: usize)
    requires
        call_ensures(Capturer::width, (c,), w),
        call_ensures(Capturer::height, (c,), h),
    ensures
        match *c {
            Capturer::X11(x) => w == x.width && h == x.height,
            Capturer::WAYLAND(x) => w == x.width && h == x.height,
            Capturer::DRM(x) => w == x.w && h == x.h,
        },
{
}

} // verus!
