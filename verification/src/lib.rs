//! Decision logic of a DRM/KMS screen capture backend: enumeration, grabbing, cursor
//! decoding, backend fallback and the consumer of a remote capture stream.
//!
//! Every function here works on plain values. The device, the compositor and the
//! connection are read outside and their answers are handed in.

pub mod common;
pub mod drm;
pub mod drm_capturer;
pub mod drm_reader;
pub mod errno;
pub mod fourcc;
pub mod ipc;
pub mod laws;
pub mod linux;
pub mod pixels;
pub mod text;
pub mod wayland;
pub mod x11;
