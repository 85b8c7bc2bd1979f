//! What the operations promise, each stated of the operation's own contract over the values that
//! go in and come out.

pub mod cursor;
pub mod device;
pub mod dispatch;
pub mod enumeration;
pub mod layout;
pub mod names;
pub mod reader;
pub mod service;
pub mod stream;
