//! Novation Launchpad Pro MK3.
pub mod midi_class;
pub mod sysex;
pub mod usb;
