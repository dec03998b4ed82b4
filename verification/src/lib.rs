//! Verified core of a binding to libguestfs: the handle and its registry
//! of event callbacks, the conversions between native memory and owned
//! values, and the error model.
//!
//! Nothing here touches native memory. A native pointer is held as its
//! address, and the memory it refers to is handed in as plain bytes by
//! the caller that made the native call.

pub mod base;
pub mod cstring;
pub mod error;
pub mod event;
pub mod utils;

pub use base::{CreateFlags, Handle, UUID};
pub use error::{APIError, Error};
pub use event::{event_to_string, Event, EventHandle, EVENT_ALL};
