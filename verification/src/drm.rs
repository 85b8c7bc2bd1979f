//! The DRM/KMS capture backend: which displays there are, whether capture works, what a
//! grab means, and the hardware cursor.

pub mod capture;
pub mod config;
pub mod connector;
pub mod cursor;
pub mod display;
pub mod enumerate;
pub mod probe;
pub mod state;

pub use crate::drm::capture::Capturer;
pub use crate::drm::cursor::DrmCursor;
pub use crate::drm::display::Display;
pub use crate::drm::probe::capture_available;
pub use crate::drm::state::{drm_cursor, drm_cursor_id};
