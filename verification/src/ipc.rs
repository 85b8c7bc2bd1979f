//! The messages between the capturing service and its consumer.

use vstd::prelude::*;

verus! {

/// A display as the service describes it.
#[derive(Debug)]
pub struct DrmDisplayInfo {
    pub name: String,
    pub x: i32,
    pub y: i32,
    pub width: u32,
    pub height: u32,
    pub active: bool,
}

/// A message. The messages that carry pixels are followed by a raw body.
#[derive(Debug)]
pub enum Data {
    /// The displays that can be captured; the service sends it on connect.
    DrmDisplayList(Vec<DrmDisplayInfo>),
    /// Asks for the stream of a display.
    DrmStart { display: i32 },
    /// Announces a picture; its body is packed BGRA.
    DrmFrame { width: u32, height: u32 },
    /// Announces a cursor; its body is RGBA.
    DrmCursor { id: u64, width: u32, height: u32, hotx: i32, hoty: i32 },
    /// Anything else.
    Other,
}

} // verus!
