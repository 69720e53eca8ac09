//! SysEx handling of the Launchpad Pro: its LED messages, then the shared
//! handlers.
pub mod led_control;

use vstd::prelude::*;
use crate::app::AppId;
use crate::sys::midi::MidiPort;
use crate::sys::sysex::led_control::{has_novation_header, is_framed, legacy_commands, GridMap};
use crate::sys::sysex::output::{replies_view, SysExHandler, SysExOutput};
use crate::sys::sysex::{version_inquiry, DefaultSysExHandler};

verus! {

/// The Launchpad Pro's SysEx handler.
pub struct Handler;

impl SysExHandler for Handler {
    fn execute(app: AppId, port: MidiPort, device_id: u8, data: &[u8], out: &mut SysExOutput) -> (r: bool)
        ensures
            r == ((is_framed(data@) && has_novation_header(
                data@,
                led_control::PRO_DEVICE_ID,
            )) || version_inquiry::is_version_inquiry(data@)),
            is_framed(data@) && has_novation_header(data@, led_control::PRO_DEVICE_ID)
                ==> final(out).leds@ == old(out).leds@ + legacy_commands(data@, GridMap::Pro, 99)
                && final(out).replies == old(out).replies,
            !(is_framed(data@) && has_novation_header(data@, led_control::PRO_DEVICE_ID))
                ==> final(out).leds@ == old(out).leds@ && replies_view(final(out).replies@)
                == replies_view(old(out).replies@) + (if r {
                seq![(port, version_inquiry::version_reply(device_id))]
            } else {
                Seq::empty()
            }),
    {
        if led_control::handle(data, &mut out.leds) {
            return true;
        }
        DefaultSysExHandler::execute(app, port, device_id, data, out)
    }
}

} // verus!
