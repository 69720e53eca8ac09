//! SysEx handling of the Launchpad Mini MK3: the device inquiry, its modern
//! LED messages, then the shared handlers.

use vstd::prelude::*;
use crate::app::AppId;
use crate::sys::led::LedCommand;
use crate::sys::midi::MidiPort;
use crate::sys::sysex::device_inquiry::{self, inquiry_reply, is_device_inquiry};
use crate::sys::sysex::led_control::{handle_modern, is_modern_led_message, modern_commands};
use crate::sys::sysex::output::{replies_view, SysExHandler, SysExOutput};
use crate::sys::sysex::{version_inquiry, DefaultSysExHandler};

verus! {

/// Device id of the modern LED messages.
pub const LED_SYSEX_DEVICE_ID: u8 = 0x0d;

/// The Launchpad Mini MK3's SysEx handler.
pub struct Handler;

impl SysExHandler for Handler {
    fn execute(app: AppId, port: MidiPort, device_id: u8, data: &[u8], out: &mut SysExOutput) -> (r: bool)
        ensures
            r == (is_device_inquiry(data@) || is_modern_led_message(data@, LED_SYSEX_DEVICE_ID)
                || version_inquiry::is_version_inquiry(data@)),
            is_device_inquiry(data@) ==> final(out).leds == old(out).leds && replies_view(
                final(out).replies@,
            ) == replies_view(old(out).replies@).push((port, inquiry_reply())),
            !is_device_inquiry(data@) && is_modern_led_message(data@, LED_SYSEX_DEVICE_ID)
                ==> final(out).leds@ == old(out).leds@ + modern_commands(data@, 7)
                && final(out).replies == old(out).replies,
            !is_device_inquiry(data@) && !is_modern_led_message(data@, LED_SYSEX_DEVICE_ID)
                ==> final(out).leds@ == old(out).leds@ && replies_view(final(out).replies@)
                == replies_view(old(out).replies@) + (if r {
                seq![(port, version_inquiry::version_reply(device_id))]
            } else {
                Seq::empty()
            }),
    {
        if device_inquiry::Handler::execute(app, port, device_id, data, out) {
            return true;
        }
        if handle_modern(data, LED_SYSEX_DEVICE_ID, &mut out.leds) {
            return true;
        }
        assert(old(out).leds@ + Seq::<LedCommand>::empty() == old(out).leds@);
        DefaultSysExHandler::execute(app, port, device_id, data, out)
    }
}

} // verus!
