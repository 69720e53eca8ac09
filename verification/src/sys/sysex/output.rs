//! What handling a SysEx message asks of the device, and the handler interface.

use vstd::prelude::*;
use crate::app::AppId;
use crate::sys::led::LedCommand;
use crate::sys::midi::MidiPort;
use super::version_inquiry;

verus! {

/// A MIDI message to send on a port.
#[derive(Clone, Debug)]
pub struct MidiReply {
    pub port: MidiPort,
    pub data: Vec<u8>,
}

/// The LED requests and MIDI replies of handled SysEx messages, in order.
pub struct SysExOutput {
    pub leds: Vec<LedCommand>,
    pub replies: Vec<MidiReply>,
}

/// Port and bytes of each reply.
pub open spec fn replies_view(r: Seq<MidiReply>) -> Seq<(MidiPort, Seq<u8>)> {
    r.map_values(|m: MidiReply| (m.port, m.data@))
}

impl SysExOutput {
    /// No requests and no replies yet.
    pub fn new() -> (r: SysExOutput)
        ensures
            r.leds@ == Seq::<LedCommand>::empty(),
            replies_view(r.replies@) == Seq::<(MidiPort, Seq<u8>)>::empty(),
    {
        let r = SysExOutput { leds: Vec::new(), replies: Vec::new() };
        assert(replies_view(r.replies@) =~= Seq::<(MidiPort, Seq<u8>)>::empty());
        r
    }

    /// Adds a reply on `port`.
    pub fn send_midi(&mut self, port: MidiPort, data: Vec<u8>)
        ensures
            final(self).leds == old(self).leds,
            replies_view(final(self).replies@) == replies_view(old(self).replies@).push(
                (port, data@),
            ),
    {
        let ghost before = self.replies@;
        let reply = MidiReply { port, data };
        self.replies.push(reply);
        assert(replies_view(before.push(reply)) =~= replies_view(before).push((port, reply.data@)));
    }
}

/// A handler of SysEx messages for the running application: `execute` says
/// whether it took the message, and adds what the message asks for to `out`.
pub trait SysExHandler {
    fn execute(app: AppId, port: MidiPort, device_id: u8, data: &[u8], out: &mut SysExOutput) -> bool;

    /// The application a handled message asked to switch to, if any; none
    /// unless a handler says otherwise.
    fn take_requested_app_switch() -> (r: Option<AppId>)
        default_ensures
            r is None,
    {
        None
    }
}

/// The handler every device falls back to: it answers version inquiries.
pub struct DefaultSysExHandler;

impl SysExHandler for DefaultSysExHandler {
    fn execute(app: AppId, port: MidiPort, device_id: u8, data: &[u8], out: &mut SysExOutput) -> (r: bool)
        ensures
            r == version_inquiry::is_version_inquiry(data@),
            final(out).leds == old(out).leds,
            replies_view(final(out).replies@) == replies_view(old(out).replies@) + (if r {
                seq![(port, version_inquiry::version_reply(device_id))]
            } else {
                Seq::empty()
            }),
    {
        if version_inquiry::Handler::execute(app, port, device_id, data, out) {
            return true;
        }
        assert(replies_view(out.replies@) + Seq::empty() =~= replies_view(out.replies@));
        false
    }
}

} // verus!
