//! Mystrix Pro.
pub mod board;
pub mod diagnostics;
pub mod grid;
pub mod leds;
pub mod sysex;
pub mod usb;
pub mod runloop;
