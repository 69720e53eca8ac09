//! Novation Launchpad MK2.
pub mod descriptors;
pub mod sysex;
pub mod usb;
