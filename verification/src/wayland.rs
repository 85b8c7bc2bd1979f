//! The compositor's view of its outputs, and the displays of the portal backend.

use crate::common::Scale;
use vstd::prelude::*;

verus! {

/// An output of the compositor.
#[derive(Debug)]
pub struct WaylandDisplayInfo {
    pub name: String,
    pub x: i32,
    pub y: i32,
    /// Physical size.
    pub width: i32,
    pub height: i32,
    /// Size in the compositor's coordinate space, where it is known.
    pub logical_size: Option<(i32, i32)>,
}

/// The outputs of the compositor and the position of its primary one.
#[derive(Debug)]
pub struct Displays {
    pub primary: usize,
    pub displays: Vec<WaylandDisplayInfo>,
}

/// A display of the portal backend.
#[derive(Debug)]
pub struct Display {
    pub name: String,
    pub x: i32,
    pub y: i32,
    pub width: usize,
    pub height: usize,
    pub logical_width: usize,
    pub logical_height: usize,
    pub scale: Scale,
    pub online: bool,
    pub primary: bool,
}

/// A capture of the portal backend, as far as it is asked about its picture.
#[derive(Debug)]
pub struct Capturer {
    pub width: usize,
    pub height: usize,
}

} // verus!
