//! SysEx handling of the Launchpad MK2.
pub mod device_inquiry;
pub mod led_control;
