//! The Launchpad MK2's legacy LED messages: device id 0x18, LEDs up to 111.

use vstd::prelude::*;
use crate::sys::led::LedCommand;
use crate::sys::sysex::led_control::{
    grid_led, handle_legacy, has_novation_header, is_framed, legacy_commands,
    map_grid as shared_map_grid, GridMap,
};

verus! {

/// Device id of the MK2's LED messages.
pub const MK2_DEVICE_ID: u8 = 0x18;
/// Highest LED index of the MK2.
pub const MAX_LED_INDEX: u8 = 111;

/// The LED at `row`, `col`: the 8x8 grid, the top buttons as row 8 and the
/// right-hand buttons as column 8.
pub fn map_grid(row: u8, col: u8) -> (r: Option<u8>)
    ensures
        r == grid_led(GridMap::Mk2, row, col),
{
    shared_map_grid(GridMap::Mk2, row, col)
}

/// Handles an LED message of the MK2; `false` when `data` is not one.
pub fn handle(data: &[u8], leds: &mut Vec<LedCommand>) -> (r: bool)
    ensures
        r == (is_framed(data@) && has_novation_header(data@, MK2_DEVICE_ID)),
        final(leds)@ == old(leds)@ + (if r {
            legacy_commands(data@, GridMap::Mk2, MAX_LED_INDEX)
        } else {
            Seq::empty()
        }),
{
    handle_legacy(data, MK2_DEVICE_ID, GridMap::Mk2, MAX_LED_INDEX, leds)
}

} // verus!
