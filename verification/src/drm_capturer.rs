//! The unprivileged consumer of a capture stream: it learns the displays from the capturing
//! service and presents the pictures and cursors that the service sends.

pub mod availability;
pub mod cursors;
pub mod layout;
pub mod session;
pub mod stream;

pub use crate::drm_capturer::cursors::{drm_cursor, drm_cursor_id, DrmCursorData};
pub use crate::drm_capturer::session::IpcDrmCapturer;
