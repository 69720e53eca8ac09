//! The Launchpad S and Launchpad Mini (MK1), which share one USB controller.
pub mod descriptors;
pub mod ring;
pub mod usb;
