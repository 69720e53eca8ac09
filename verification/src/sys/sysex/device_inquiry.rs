//! The universal device inquiry (`F0 7E 7F 06 01 F7`), answered as a
//! Novation device of family 105, version 999.

use vstd::prelude::*;
use crate::app::AppId;
use crate::sys::midi::MidiPort;
use crate::sys::sysex::output::{replies_view, SysExHandler, SysExOutput};

verus! {

/// The device inquiry message.
pub open spec fn is_device_inquiry(data: Seq<u8>) -> bool {
    data == seq![0xf0u8, 0x7e, 0x7f, 0x06, 0x01, 0xf7]
}

/// The identity reply: Novation's manufacturer id, family 105, version 999.
pub open spec fn inquiry_reply() -> Seq<u8> {
    seq![0xf0u8, 0x7e, 0x00, 0x06, 0x02, 0x00, 0x20, 0x29, 105, 0, 0, 0, 0, 9, 9, 9, 0xf7]
}

/// Answers the device inquiry.
pub struct Handler;

impl SysExHandler for Handler {
    fn execute(app: AppId, port: MidiPort, device_id: u8, data: &[u8], out: &mut SysExOutput) -> (r: bool)
        ensures
            r == is_device_inquiry(data@),
            final(out).leds == old(out).leds,
            r ==> replies_view(final(out).replies@) == replies_view(old(out).replies@).push(
                (port, inquiry_reply()),
            ),
            !r ==> final(out).replies == old(out).replies,
    {
        let is_inquiry = data.len() == 6 && data[0] == 0xf0 && data[1] == 0x7e && data[2] == 0x7f
            && data[3] == 0x06 && data[4] == 0x01 && data[5] == 0xf7;
        proof {
            if is_inquiry {
                assert(data@ =~= seq![0xf0u8, 0x7e, 0x7f, 0x06, 0x01, 0xf7]);
            } else if is_device_inquiry(data@) {
                assert(data@.len() == 6 && data@[0] == 0xf0 && data@[1] == 0x7e && data@[2] == 0x7f
                    && data@[3] == 0x06 && data@[4] == 0x01 && data@[5] == 0xf7);
            }
        }
        if is_inquiry {
            let response = vec![
                0xf0u8, 0x7e, 0x00, 0x06, 0x02, 0x00, 0x20, 0x29, 105, 0, 0, 0, 0, 9, 9, 9, 0xf7,
            ];
            assert(response@ =~= inquiry_reply());
            out.send_midi(port, response);
            true
        } else {
            false
        }
    }
}

} // verus!
