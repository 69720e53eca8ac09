//! SysEx messages: the handler interface and the handlers shared by devices.
pub mod device_inquiry;
pub mod led_control;
pub mod output;
pub mod roadrunner;
pub mod version_inquiry;

pub use output::{DefaultSysExHandler, MidiReply, SysExHandler, SysExOutput};
