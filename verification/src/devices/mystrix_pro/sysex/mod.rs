//! SysEx handling of the Mystrix Pro: device inquiry, the Launchpad Pro LED
//! messages (device id 0x10), then the shared handlers.
pub mod device_inquiry;

use vstd::prelude::*;
use crate::app::AppId;
use crate::sys::led::LedCommand;
use crate::sys::midi::MidiPort;
use crate::sys::sysex::led_control::{
    grid_led, has_novation_header, is_framed, is_framed_exec, legacy_frame, legacy_frame_exec,
    legacy_pairs, legacy_pairs_exec, legacy_quads, legacy_quads_exec, map_grid as pro_map_grid,
    matches_novation_header, palette_at, GridMap,
};
use crate::sys::sysex::output::{replies_view, SysExHandler, SysExOutput};
use crate::sys::sysex::{version_inquiry, DefaultSysExHandler};

verus! {

/// Device id of the Launchpad Pro LED messages.
pub const PRO_DEVICE_ID: u8 = 0x10;

/// Highest LED index that pair and quadruple messages may address.
pub const MAX_LED_INDEX: u8 = 99;

/// Palette entries of a column (`by_column`) or row message: entry `k` (of
/// ten at most) is for row (or column) `k` of the line `fixed`.
pub open spec fn palette_line(data: Seq<u8>, fixed: u8, by_column: bool, k: int) -> Seq<LedCommand>
    decreases 10 - k,
{
    if k < 0 || k >= 10 || 8 + k >= data.len() - 1 {
        Seq::empty()
    } else {
        palette_at(
            if by_column {
                grid_led(GridMap::Pro, k as u8, fixed)
            } else {
                grid_led(GridMap::Pro, fixed, k as u8)
            },
            data[8 + k],
        ) + palette_line(data, fixed, by_column, k + 1)
    }
}

/// The LED requests of an LED message (framed, with the header of device 0x10).
///
/// `0A` palette pairs and `0B` RGB quadruples for LEDs up to 99; `0C` and
/// `0D` a column and a row of palette entries; `0F` a full frame, of the 8x8
/// grid when byte 7 is 1 and of the 10x10 layout otherwise.
pub open spec fn led_commands(data: Seq<u8>) -> Seq<LedCommand> {
    let command = data[6];
    if command == 0x0a {
        legacy_pairs(data, MAX_LED_INDEX, 7)
    } else if command == 0x0b {
        legacy_quads(data, MAX_LED_INDEX, 7)
    } else if command == 0x0c || command == 0x0d {
        if data.len() < 9 || data[7] > 9 {
            Seq::empty()
        } else {
            palette_line(data, data[7], command == 0x0c, 0)
        }
    } else if command == 0x0f && data.len() >= 11 {
        legacy_frame(data, GridMap::Pro, if data[7] == 1 { 1 } else { 0 }, 0)
    } else {
        Seq::empty()
    }
}

/// `data` is an LED message of device 0x10.
pub open spec fn is_led_message(data: Seq<u8>) -> bool {
    is_framed(data) && has_novation_header(data, PRO_DEVICE_ID)
}

/// The LED index at `row`, `column` of the 10x10 layout without its corners.
pub fn map_grid(row: u8, column: u8) -> (r: Option<u8>)
    ensures
        r == grid_led(GridMap::Pro, row, column),
{
    pro_map_grid(GridMap::Pro, row, column)
}

fn palette_line_exec(data: &[u8], by_column: bool, leds: &mut Vec<LedCommand>)
    requires
        data.len() >= 9,
        data[7] <= 9,
    ensures
        final(leds)@ == old(leds)@ + palette_line(data@, data[7], by_column, 0),
{
    let fixed = data[7];
    let end = data.len() - 1;
    let mut k: usize = 0;
    while k < 10 && 8 + k < end
        invariant
            end == data.len() - 1,
            data.len() >= 9,
            fixed == data[7],
            k <= 10,
            old(leds)@ + palette_line(data@, fixed, by_column, 0) == leds@ + palette_line(
                data@,
                fixed,
                by_column,
                k as int,
            ),
        decreases 10 - k,
    {
        let led = if by_column {
            map_grid(k as u8, fixed)
        } else {
            map_grid(fixed, k as u8)
        };
        let ghost before = leds@;
        if let Some(index) = led {
            leds.push(LedCommand::Novation { index, velocity: data[8 + k] });
        }
        proof {
            assert(leds@ == before + palette_at(led, data@[8 + k]));
            assert(palette_line(data@, fixed, by_column, k as int) == palette_at(led, data@[8 + k])
                + palette_line(data@, fixed, by_column, k + 1));
        }
        k += 1;
    }
    assert(leds@ + Seq::<LedCommand>::empty() == leds@);
}

/// A palette column message (`0C`): byte 7 is the column, then one entry per row.
fn handle_palette_column(data: &[u8], leds: &mut Vec<LedCommand>)
    requires
        data.len() >= 8,
    ensures
        final(leds)@ == old(leds)@ + (if data.len() < 9 || data[7] > 9 {
            Seq::empty()
        } else {
            palette_line(data@, data[7], true, 0)
        }),
{
    if data.len() < 9 || data[7] > 9 {
        assert(leds@ + Seq::<LedCommand>::empty() == leds@);
        return;
    }
    palette_line_exec(data, true, leds);
}

/// A palette row message (`0D`): byte 7 is the row, then one entry per column.
fn handle_palette_row(data: &[u8], leds: &mut Vec<LedCommand>)
    requires
        data.len() >= 8,
    ensures
        final(leds)@ == old(leds)@ + (if data.len() < 9 || data[7] > 9 {
            Seq::empty()
        } else {
            palette_line(data@, data[7], false, 0)
        }),
{
    if data.len() < 9 || data[7] > 9 {
        assert(leds@ + Seq::<LedCommand>::empty() == leds@);
        return;
    }
    palette_line_exec(data, false, leds);
}

/// Handles a Launchpad Pro LED message; `false` when `data` is not one.
pub fn handle_led(data: &[u8], leds: &mut Vec<LedCommand>) -> (r: bool)
    ensures
        r == is_led_message(data@),
        final(leds)@ == old(leds)@ + (if r {
            led_commands(data@)
        } else {
            Seq::empty()
        }),
{
    if !is_framed_exec(data) || !matches_novation_header(data, PRO_DEVICE_ID) {
        assert(leds@ + Seq::<LedCommand>::empty() == leds@);
        return false;
    }
    let command = data[6];
    if command == 0x0a {
        legacy_pairs_exec(data, MAX_LED_INDEX, leds);
    } else if command == 0x0b {
        legacy_quads_exec(data, MAX_LED_INDEX, leds);
    } else if command == 0x0c {
        handle_palette_column(data, leds);
    } else if command == 0x0d {
        handle_palette_row(data, leds);
    } else if command == 0x0f && data.len() >= 11 {
        let mode: u8 = if data[7] == 1 {
            1
        } else {
            0
        };
        legacy_frame_exec(data, GridMap::Pro, mode, leds);
    } else {
        assert(leds@ + Seq::<LedCommand>::empty() == leds@);
    }
    true
}

/// The Mystrix Pro's SysEx handler.
pub struct Handler;

impl SysExHandler for Handler {
    fn execute(app: AppId, port: MidiPort, device_id: u8, data: &[u8], out: &mut SysExOutput) -> (r: bool)
        ensures
            r == (device_inquiry::is_device_inquiry(data@) || is_led_message(data@)
                || version_inquiry::is_version_inquiry(data@)),
            device_inquiry::is_device_inquiry(data@) ==> final(out).leds == old(out).leds
                && replies_view(final(out).replies@) == replies_view(old(out).replies@).push(
                (port, device_inquiry::inquiry_reply()),
            ),
            !device_inquiry::is_device_inquiry(data@) && is_led_message(data@) ==> final(out).leds@
                == old(out).leds@ + led_commands(data@) && final(out).replies == old(out).replies,
            !device_inquiry::is_device_inquiry(data@) && !is_led_message(data@) ==> final(out).leds@
                == old(out).leds@ && replies_view(final(out).replies@) == replies_view(
                old(out).replies@,
            ) + (if r {
                seq![(port, version_inquiry::version_reply(device_id))]
            } else {
                Seq::empty()
            }),
    {
        if device_inquiry::Handler::execute(app, port, device_id, data, out) {
            return true;
        }
        if handle_led(data, &mut out.leds) {
            return true;
        }
        DefaultSysExHandler::execute(app, port, device_id, data, out)
    }
}

} // verus!
