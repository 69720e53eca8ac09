//! USB descriptors and control requests of the Launchpad MK2.

use vstd::prelude::*;
use crate::sys::driver::launchpad_s_and_mini::descriptors::{
    string_descriptor, utf16_string, DESC_CONFIGURATION, DESC_DEVICE, DESC_STRING, MANUFACTURER,
    STRING_ZERO,
};
use crate::sys::driver::launchpad_s_and_mini::usb::{
    opt_bytes, setup_action_view, setup_effect, ControlState, SetupAction,
};

verus! {

/// Size of a control packet.
pub const EP0_MAX_PACKET: usize = 8;

/// "Launchpad MK2"
pub const PRODUCT: [u8; 13] = [76, 97, 117, 110, 99, 104, 112, 97, 100, 32, 77, 75, 50];

/// "COREFW-MK2"
pub const SERIAL: [u8; 10] = [67, 79, 82, 69, 70, 87, 45, 77, 75, 50];

/// "MK2 (DAW)"
pub const PORT1: [u8; 9] = [77, 75, 50, 32, 40, 68, 65, 87, 41];

/// "MK2 (MIDI)"
pub const PORT2: [u8; 10] = [77, 75, 50, 32, 40, 77, 73, 68, 73, 41];

/// The device descriptor: USB 2.0, 8-byte control packets, vendor 0x1235,
/// product 0x0069, strings 1 to 3, one configuration.
pub const DEVICE_DESCRIPTOR: [u8; 18] = [18, 1, 0x00, 0x02, 0, 0, 0, 8, 0x35, 0x12, 0x69, 0x00, 0x01, 0x00, 1, 2, 3, 1];

/// The configuration descriptor: an audio control and a MIDI streaming
/// interface with two cables each way on bulk endpoints 1 OUT and 1 IN.
pub const CONFIG_DESCRIPTOR: [u8; 133] = [
    0x09, 0x02, 0x85, 0x00, 0x02, 0x01, 0x00, 0x80, 0xfa, 0x09, 0x04, 0x00, 0x00, 0x00, 0x01, 0x01,
    0x00, 0x02, 0x09, 0x24, 0x01, 0x00, 0x01, 0x09, 0x00, 0x01, 0x01, 0x09, 0x04, 0x01, 0x00, 0x02,
    0x01, 0x03, 0x00, 0x02, 0x07, 0x24, 0x01, 0x00, 0x01, 0x43, 0x00, 0x06, 0x24, 0x02, 0x01, 0x01,
    0x04, 0x06, 0x24, 0x02, 0x02, 0x02, 0x04, 0x09, 0x24, 0x03, 0x01, 0x09, 0x01, 0x02, 0x01, 0x04,
    0x09, 0x24, 0x03, 0x02, 0x0a, 0x01, 0x01, 0x01, 0x04, 0x06, 0x24, 0x02, 0x01, 0x03, 0x05, 0x06,
    0x24, 0x02, 0x02, 0x04, 0x05, 0x09, 0x24, 0x03, 0x01, 0x0b, 0x01, 0x04, 0x01, 0x05, 0x09, 0x24,
    0x03, 0x02, 0x0c, 0x01, 0x03, 0x01, 0x05, 0x09, 0x05, 0x01, 0x02, 0x40, 0x00, 0x00, 0x00, 0x00,
    0x06, 0x25, 0x01, 0x02, 0x01, 0x03, 0x09, 0x05, 0x81, 0x02, 0x40, 0x00, 0x00, 0x00, 0x00, 0x06,
    0x25, 0x01, 0x02, 0x09, 0x0b,
];

/// The text of string `index` (1 to 5).
pub open spec fn string_text(index: u8) -> Seq<u8> {
    if index == 1 {
        MANUFACTURER@
    } else if index == 2 {
        PRODUCT@
    } else if index == 3 {
        SERIAL@
    } else if index == 4 {
        PORT1@
    } else {
        PORT2@
    }
}

/// The descriptor of type `desc_type` and index `index`, if the device has
/// one.
pub open spec fn descriptor_bytes(desc_type: u8, index: u8) -> Option<Seq<u8>> {
    if desc_type == DESC_DEVICE && index == 0 {
        Some(DEVICE_DESCRIPTOR@)
    } else if desc_type == DESC_CONFIGURATION && index == 0 {
        Some(CONFIG_DESCRIPTOR@)
    } else if desc_type == DESC_STRING && index == 0 {
        Some(STRING_ZERO@)
    } else if desc_type == DESC_STRING && 1 <= index <= 5 {
        Some(string_descriptor(string_text(index)))
    } else {
        None
    }
}

/// The descriptor of type `desc_type` and index `index`, if the device has
/// one.
pub fn descriptor(desc_type: u8, index: u8) -> (r: Option<Vec<u8>>)
    ensures
        opt_bytes(r) == descriptor_bytes(desc_type, index),
{
    if desc_type == DESC_DEVICE && index == 0 {
        Some(vstd::slice::slice_to_vec(DEVICE_DESCRIPTOR.as_slice()))
    } else if desc_type == DESC_CONFIGURATION && index == 0 {
        Some(vstd::slice::slice_to_vec(CONFIG_DESCRIPTOR.as_slice()))
    } else if desc_type == DESC_STRING && index == 0 {
        Some(vstd::slice::slice_to_vec(STRING_ZERO.as_slice()))
    } else if desc_type == DESC_STRING && index == 1 {
        Some(utf16_string(MANUFACTURER.as_slice()))
    } else if desc_type == DESC_STRING && index == 2 {
        Some(utf16_string(PRODUCT.as_slice()))
    } else if desc_type == DESC_STRING && index == 3 {
        Some(utf16_string(SERIAL.as_slice()))
    } else if desc_type == DESC_STRING && index == 4 {
        Some(utf16_string(PORT1.as_slice()))
    } else if desc_type == DESC_STRING && index == 5 {
        Some(utf16_string(PORT2.as_slice()))
    } else {
        None
    }
}

/// Answers a SETUP packet: standard requests to the device, its
/// configuration and its interfaces; anything else stalls.
pub fn handle_setup(control: &mut ControlState, setup: [u8; 8]) -> (r: SetupAction)
    requires
        old(control).tx_pos <= old(control).tx_data.len(),
        old(control).ep0_max == EP0_MAX_PACKET,
    ensures
        final(control).tx_pos <= final(control).tx_data.len(),
        final(control).ep0_max == EP0_MAX_PACKET,
        (final(control).view(), setup_action_view(r)) == setup_effect(
            old(control).view(),
            descriptor_bytes(setup@[3], setup@[2]),
            setup@,
            EP0_MAX_PACKET as int,
        ),
{
    let desc = descriptor(setup[3], setup[2]);
    control.handle_setup_with(desc, setup)
}

} // verus!
