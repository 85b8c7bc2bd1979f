//! The configuration with which a capture context is opened.

use vstd::prelude::*;
use vstd::string::*;

verus! {

/// How to open a capture context.
#[derive(Debug)]
pub struct DrmConfig {
    /// The device node; `None` picks one.
    pub device_path: Option<String>,
    /// The CRTC to capture; 0 picks an active one.
    pub crtc_id: u32,
    /// 1 turns debug output on.
    pub debug: i32,
}

/// The device of a configuration, as text.
pub open spec fn device_text(device: Option<String>) -> Option<Seq<char>> {
    match device {
        Some(d) => Some(d@),
        None => None,
    }
}

/// A device path that can be handed on: one without a zero character.
pub open spec fn usable_device(device: Option<Seq<char>>) -> Option<Seq<char>> {
    match device {
        Some(d) => if d.contains('\0') {
            None
        } else {
            Some(d)
        },
        None => None,
    }
}

/// Whether a text holds a zero character, which no path can.
pub fn has_nul(s: &str) -> (r: bool)
    ensures
        r == s@.contains('\0'),
{
    let len: usize = s.unicode_len();
    let mut i: usize = 0;
    while i < len
        invariant
            len == s@.len(),
            i <= len,
            forall|j: int| 0 <= j < i ==> s@[j] != '\0',
        decreases len - i,
    {
        let c: char = s.get_char(i);
        if c == '\0' {
            assert(s@[i as int] == '\0');
            return true;
        }
        i = i + 1;
    }
    false
}

/// The configuration for a CRTC. `device` is the device that the user asks for; one that
/// cannot be a path counts as not given. `debug` says whether debug output is asked for.
pub fn build_drm_config(crtc_id: u32, device: Option<String>, debug: bool) -> (r: DrmConfig)
    ensures
        device_text(r.device_path) == usable_device(device_text(device)),
        r.crtc_id == crtc_id,
        r.debug == (if debug {
            1i32
        } else {
            0i32
        }),
{
    let device_path: Option<String> = match device {
        Some(d) => if has_nul(d.as_str()) {
            None
        } else {
            Some(d)
        },
        None => None,
    };
    DrmConfig {
        device_path,
        crtc_id,
        debug: if debug {
            1
        } else {
            0
        },
    }
}

} // verus!
