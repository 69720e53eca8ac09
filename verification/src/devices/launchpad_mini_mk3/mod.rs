//! Novation Launchpad Mini MK3.
pub mod app;
pub mod led_scan;
pub mod sysex;
