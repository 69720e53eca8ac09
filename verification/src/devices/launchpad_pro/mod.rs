//! Novation Launchpad Pro (first generation).
pub mod flash;
pub mod grid;
pub mod inputs;
pub mod leds;
pub mod sysex;
pub mod runloop;
