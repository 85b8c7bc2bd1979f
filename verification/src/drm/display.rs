//! Displays: which connectors are captured and where they lie on the desktop.

use crate::common::Scale;
use crate::drm::connector::normalize_connector;
use crate::wayland::WaylandDisplayInfo;
use vstd::prelude::*;

verus! {

/// A connector as the kernel lists it.
#[derive(Debug)]
pub struct RawDisplay {
    /// The CRTC bound to it, 0 if none.
    pub crtc_id: u32,
    /// The connector name, closed by a zero byte unless it fills the field.
    pub name: Vec<u8>,
    /// Offset of the CRTC.
    pub x: u32,
    pub y: u32,
    /// Size of the mode.
    pub width: u32,
    pub height: u32,
    /// Whether the CRTC scans out.
    pub active: i32,
}

/// What a listing returns: how many connectors there are, or a negative errno, and the
/// entries that were filled in. There may be more connectors than entries.
#[derive(Debug)]
pub struct Listing {
    pub found: i32,
    pub entries: Vec<RawDisplay>,
}

/// A display that can be captured.
#[derive(Debug)]
pub struct Display {
    pub name: String,
    /// Origin in the compositor's coordinate space, or the offset of the CRTC where no
    /// compositor output matches.
    pub x: i32,
    pub y: i32,
    /// Size in pixels of what is captured.
    pub w: usize,
    pub h: usize,
    /// Size in the compositor's coordinate space, or the physical size.
    pub logical_w: usize,
    pub logical_h: usize,
    pub scale: Scale,
    pub crtc_id: u32,
    pub primary: bool,
}

/// The contents of a display.
pub struct DisplayView {
    pub name: Seq<char>,
    pub x: i32,
    pub y: i32,
    pub w: usize,
    pub h: usize,
    pub logical_w: usize,
    pub logical_h: usize,
    pub scale: Scale,
    pub crtc_id: u32,
    pub primary: bool,
}

impl View for Display {
    type V = DisplayView;

    open spec fn view(&self) -> DisplayView {
        DisplayView {
            name: self.name@,
            x: self.x,
            y: self.y,
            w: self.w,
            h: self.h,
            logical_w: self.logical_w,
            logical_h: self.logical_h,
            scale: self.scale,
            crtc_id: self.crtc_id,
            primary: self.primary,
        }
    }
}

/// A place on the desktop.
#[derive(Clone, Copy, Debug, PartialEq, Eq, Structural)]
pub struct Geometry {
    pub x: i32,
    pub y: i32,
    pub w: usize,
    pub h: usize,
    pub scale: Scale,
}

/// A list of strings as texts.
pub open spec fn texts(v: Seq<String>) -> Seq<Seq<char>> {
    Seq::new(v.len(), |i: int| v[i]@)
}

/// Being a certain text.
pub open spec fn is_text(t: Seq<char>) -> spec_fn(Seq<char>) -> bool {
    |n: Seq<char>| n == t
}

/// The position of a text in a list.
pub open spec fn find_text(list: Seq<Seq<char>>, t: Seq<char>) -> Option<int> {
    crate::common::find_first(list, is_text(t))
}

/// The first name that is the wanted one, else the first whose key is the wanted key.
pub open spec fn matched_by(
    names: Seq<Seq<char>>,
    keys: Seq<Seq<char>>,
    name: Seq<char>,
    key: Seq<char>,
) -> Option<int> {
    match find_text(names, name) {
        Some(i) => Some(i),
        None => find_text(keys, key),
    }
}

/// The normalized forms of a list of names.
pub open spec fn normalized_all(names: Seq<Seq<char>>) -> Seq<Seq<char>> {
    Seq::new(names.len(), |i: int| crate::drm::connector::normalized(names[i]))
}

/// The connector that a name means: one of exactly that name, else one whose name has the
/// same normalized form.
pub open spec fn matched(names: Seq<Seq<char>>, name: Seq<char>) -> Option<int> {
    matched_by(names, normalized_all(names), name, crate::drm::connector::normalized(name))
}

fn position_of(list: &Vec<String>, t: &String) -> (r: Option<usize>)
    ensures
        match r {
            Some(i) => find_text(texts(list@), t@) == Some(i as int),
            None => find_text(texts(list@), t@) is None,
        },
{
    let ghost all = texts(list@);
    let ghost p = is_text(t@);
    let mut i: usize = 0;
    while i < list.len()
        invariant
            i <= list@.len(),
            all == texts(list@),
            p == is_text(t@),
            forall|j: int| 0 <= j < i ==> !p(#[trigger] all[j]),
        decreases list@.len() - i,
    {
        if list[i] == *t {
            proof {
                crate::common::lemma_find_first_some(all, p, i as int);
            }
            return Some(i);
        }
        i = i + 1;
    }
    proof {
        crate::common::lemma_find_first_none(all, p);
    }
    None
}

/// Finds a connector among names of which the normalized forms are known.
pub fn match_names(names: &Vec<String>, keys: &Vec<String>, name: &String, key: &String) -> (r:
    Option<usize>)
    ensures
        match r {
            Some(i) => matched_by(texts(names@), texts(keys@), name@, key@) == Some(i as int),
            None => matched_by(texts(names@), texts(keys@), name@, key@) is None,
        },
{
    match position_of(names, name) {
        Some(i) => Some(i),
        None => position_of(keys, key),
    }
}

fn normalize_all(names: &Vec<String>) -> (r: Vec<String>)
    ensures
        texts(r@) == normalized_all(texts(names@)),
{
    let mut out: Vec<String> = Vec::new();
    let mut i: usize = 0;
    while i < names.len()
        invariant
            i <= names@.len(),
            out@.len() == i,
            forall|j: int|
                0 <= j < i ==> (#[trigger] out@[j])@ == crate::drm::connector::normalized(
                    names@[j]@,
                ),
        decreases names@.len() - i,
    {
        out.push(normalize_connector(names[i].as_str()));
        i = i + 1;
    }
    assert(texts(out@) =~= normalized_all(texts(names@)));
    out
}

pub(crate) fn match_connector(names: &Vec<String>, name: &String) -> (r: Option<usize>)
    ensures
        match r {
            Some(i) => matched(texts(names@), name@) == Some(i as int),
            None => matched(texts(names@), name@) is None,
        },
{
    let keys = normalize_all(names);
    let key = normalize_connector(name.as_str());
    match_names(names, &keys, name, &key)
}

/// At least 1.
pub open spec fn at_least_one(v: i32) -> usize {
    if v < 1 {
        1
    } else {
        v as usize
    }
}

/// Where the compositor puts an output.
pub open spec fn output_geometry(d: WaylandDisplayInfo) -> Geometry {
    let (lw, lh) = match d.logical_size {
        Some(size) => size,
        None => (d.width, d.height),
    };
    Geometry {
        x: d.x,
        y: d.y,
        w: at_least_one(lw),
        h: at_least_one(lh),
        scale: if d.width > 0 {
            Scale::Ratio { num: d.width as u64, den: at_least_one(lw) as u64 }
        } else {
            Scale::one()
        },
    }
}

/// The names of the outputs.
pub open spec fn output_names(outputs: Seq<WaylandDisplayInfo>) -> Seq<Seq<char>> {
    Seq::new(outputs.len(), |i: int| outputs[i].name@)
}

/// Where a connector lies: where the compositor puts the output of that name, or at its
/// physical place, unscaled, where the compositor knows no such output.
pub open spec fn logical_geometry(
    outputs: Seq<WaylandDisplayInfo>,
    name: Seq<char>,
    x: i32,
    y: i32,
    w: usize,
    h: usize,
) -> Geometry {
    match matched(output_names(outputs), name) {
        Some(i) => output_geometry(outputs[i]),
        None => Geometry { x, y, w, h, scale: Scale::one() },
    }
}

/// Where the compositor puts an output.
pub fn geometry_of(d: &WaylandDisplayInfo) -> (r: Geometry)
    ensures
        r == output_geometry(*d),
{
    let (lw, lh): (i32, i32) = match d.logical_size {
        Some(size) => size,
        None => (d.width, d.height),
    };
    let w: usize = if lw < 1 {
        1
    } else {
        lw as usize
    };
    let h: usize = if lh < 1 {
        1
    } else {
        lh as usize
    };
    let scale = if d.width > 0 {
        Scale::Ratio { num: d.width as u64, den: w as u64 }
    } else {
        Scale::unscaled()
    };
    Geometry { x: d.x, y: d.y, w, h, scale }
}

/// Where a connector lies on the desktop. Video is captured in physical pixels while input
/// is injected in logical ones, so both have to be known.
pub fn logical_geometry_for(
    outputs: &Vec<WaylandDisplayInfo>,
    name: &str,
    phys_x: i32,
    phys_y: i32,
    phys_w: usize,
    phys_h: usize,
) -> (r: Geometry)
    ensures
        r == logical_geometry(outputs@, name@, phys_x, phys_y, phys_w, phys_h),
{
    let mut names: Vec<String> = Vec::new();
    let mut i: usize = 0;
    while i < outputs.len()
        invariant
            i <= outputs@.len(),
            names@.len() == i,
            forall|j: int| 0 <= j < i ==> (#[trigger] names@[j])@ == outputs@[j].name@,
        decreases outputs@.len() - i,
    {
        names.push(outputs[i].name.clone());
        i = i + 1;
    }
    assert(texts(names@) =~= output_names(outputs@));
    let wanted: String = name.to_owned();
    match match_connector(&names, &wanted) {
        Some(k) => {
            proof {
                lemma_matched_in_range(output_names(outputs@), name@);
            }
            geometry_of(&outputs[k])
        },
        None => Geometry {
            x: phys_x,
            y: phys_y,
            w: phys_w,
            h: phys_h,
            scale: Scale::unscaled(),
        },
    }
}

/// The logical size of an output is never empty, and its scale is a proper quotient: its
/// physical over its logical width.
pub proof fn lemma_output_geometry(d: WaylandDisplayInfo)
    ensures
        output_geometry(d).w >= 1,
        output_geometry(d).h >= 1,
        output_geometry(d).scale matches Scale::Ratio { num, den } && den > 0 && num > 0 && (d.width
            > 0 ==> num == d.width && den == output_geometry(d).w),
{
}

/// A match is a position of the list. It is of exactly the wanted name, or no name of the
/// list is and it has the same normalized form.
pub proof fn lemma_matched_in_range(names: Seq<Seq<char>>, name: Seq<char>)
    ensures
        matched(names, name) matches Some(i) ==> {
            &&& 0 <= i < names.len()
            &&& names[i] == name || {
                &&& !names.contains(name)
                &&& crate::drm::connector::normalized(names[i])
                    == crate::drm::connector::normalized(name)
            }
        },
        names.contains(name) ==> (matched(names, name) matches Some(i) && names[i] == name),
        matched(names, name) is None ==> forall|i: int|
            0 <= i < names.len() ==> crate::drm::connector::normalized(#[trigger] names[i])
                != crate::drm::connector::normalized(name),
{
    let key = crate::drm::connector::normalized(name);
    let keys = normalized_all(names);
    crate::common::lemma_find_first_none(names, is_text(name));
    crate::common::lemma_find_first_none(keys, is_text(key));
    if names.contains(name) {
        let k = choose|k: int| 0 <= k < names.len() && names[k] == name;
        assert(is_text(name)(names[k]));
    }
    assert forall|i: int| 0 <= i < names.len() && matched(names, name) is None implies
        crate::drm::connector::normalized(#[trigger] names[i]) != key by {
        assert(keys[i] == crate::drm::connector::normalized(names[i]));
    }
}

} // verus!
