//! Verified core logic of a replacement firmware for Launchpad-style MIDI
//! grid controllers: SysEx parsing, USB-MIDI packet framing, LED and input
//! state machines, coordinate mappings, and the device-specific helpers built
//! on them.
pub mod driver;
pub mod sys;
pub mod app;
pub mod devices;
pub mod packaging;
