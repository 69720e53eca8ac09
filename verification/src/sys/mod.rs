pub mod midi;
pub mod led;
pub mod sysex;
pub mod usb_midi;
pub mod spsc;
pub mod rotation;
pub mod settings_flash;
pub mod driver;
