//! The Launchpad Pro's legacy LED messages: device id 0x10, LEDs up to 99.

use vstd::prelude::*;
use crate::sys::led::LedCommand;
use crate::sys::sysex::led_control::{
    grid_led, handle_legacy, has_novation_header, is_framed, legacy_commands,
    map_grid as shared_map_grid, GridMap,
};

verus! {

/// Device id of the Pro's LED messages.
pub const PRO_DEVICE_ID: u8 = 0x10;
/// Highest LED index of the Pro.
pub const MAX_LED_INDEX: u8 = 99;

/// The LED at `row`, `col` of the 10x10 layout without its corners.
pub fn map_grid(row: u8, col: u8) -> (r: Option<u8>)
    ensures
        r == grid_led(GridMap::Pro, row, col),
{
    shared_map_grid(GridMap::Pro, row, col)
}

/// Handles an LED message of the Pro; `false` when `data` is not one.
pub fn handle(data: &[u8], leds: &mut Vec<LedCommand>) -> (r: bool)
    ensures
        r == (is_framed(data@) && has_novation_header(data@, PRO_DEVICE_ID)),
        final(leds)@ == old(leds)@ + (if r {
            legacy_commands(data@, GridMap::Pro, MAX_LED_INDEX)
        } else {
            Seq::empty()
        }),
{
    handle_legacy(data, PRO_DEVICE_ID, GridMap::Pro, MAX_LED_INDEX, leds)
}

} // verus!
