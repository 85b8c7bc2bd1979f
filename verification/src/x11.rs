//! The displays of the X11 backend.

use vstd::prelude::*;

verus! {

/// A display of the X11 backend.
#[derive(Debug)]
pub struct Display {
    pub name: String,
    pub x: i32,
    pub y: i32,
    pub width: usize,
    pub height: usize,
    pub online: bool,
    pub primary: bool,
}

/// A capture of the X11 backend, as far as it is asked about its picture.
#[derive(Debug)]
pub struct Capturer {
    pub width: usize,
    pub height: usize,
}

} // verus!
