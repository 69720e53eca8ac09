//! The device inquiry of the Mystrix Pro: the shared universal reply.
pub use crate::sys::sysex::device_inquiry::{inquiry_reply, is_device_inquiry, Handler};
