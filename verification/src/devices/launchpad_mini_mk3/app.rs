//! The Launchpad Mini MK3's live application: the top buttons talk to the
//! DAW as control changes, and the DAW drives the LEDs.

use vstd::prelude::*;
use crate::app::{AftertouchEvent, App, MidiEvent, SurfaceEvent};
use crate::sys::led::LedCommand;
use crate::sys::midi::MidiPort;

verus! {

/// Control change status on channel 1.
pub const CONTROL_CHANGE: u8 = 176;

/// The message a press or release of `event` sends, if any: top buttons 91
/// to 98 send a control change of 127 or 0 to the DAW.
pub open spec fn surface_message(event: SurfaceEvent) -> Option<MidiEvent> {
    if 90 < event.index < 99 {
        Some(
            MidiEvent {
                port: MidiPort::Daw,
                status: CONTROL_CHANGE,
                data1: event.index,
                data2: if event.pressed {
                    127
                } else {
                    0
                },
            },
        )
    } else {
        None
    }
}

/// The LED request of a MIDI message from the DAW, if any: note on and off
/// light a pad from the palette, control changes 90 to 99 a button.
pub open spec fn midi_leds(event: MidiEvent) -> Seq<LedCommand> {
    if event.status == 0x90 {
        seq![LedCommand::Novation { index: event.data1, velocity: event.data2 }]
    } else if event.status == 0x80 {
        seq![LedCommand::Novation { index: event.data1, velocity: 0 }]
    } else if event.status == 0xb0 && 90 <= event.data1 <= 99 {
        seq![LedCommand::Palette { index: event.data1, velocity: event.data2 }]
    } else {
        Seq::empty()
    }
}

/// The LED requests on entering: the top-row buttons dim, the session button
/// green.
pub open spec fn enter_leds() -> Seq<LedCommand> {
    seq![
        LedCommand::Color { index: 95, color: 0x101010 },
        LedCommand::Color { index: 96, color: 0x101010 },
        LedCommand::Color { index: 97, color: 0x101010 },
        LedCommand::Color { index: 98, color: 0x101010 },
        LedCommand::Color { index: 95, color: 0xccffcc },
    ]
}

/// The live application, with the messages it has yet to send.
pub struct LiveApp {
    pub outgoing: Vec<MidiEvent>,
}

impl LiveApp {
    /// The live application, with nothing to send.
    pub fn new() -> (r: LiveApp)
        ensures
            r.outgoing@ == Seq::<MidiEvent>::empty(),
    {
        LiveApp { outgoing: Vec::new() }
    }
}

impl App for LiveApp {
    fn on_enter(&mut self, leds: &mut Vec<LedCommand>)
        ensures
            final(leds)@ == old(leds)@ + enter_leds(),
            final(self).outgoing@ == old(self).outgoing@,
    {
        let mut i: u8 = 0;
        while i < 4
            invariant
                i <= 4,
                leds@ == old(leds)@ + enter_leds().take(i as int),
            decreases 4 - i,
        {
            leds.push(LedCommand::Color { index: 95 + i, color: 0x101010 });
            i = i + 1;
            assert(enter_leds().take(i as int) =~= enter_leds().take(i - 1).push(
                enter_leds()[i - 1],
            ));
        }
        leds.push(LedCommand::Color { index: 95, color: 0xccffcc });
        assert(leds@ =~= old(leds)@ + enter_leds());
    }

    fn on_exit(&mut self, leds: &mut Vec<LedCommand>)
        ensures
            final(leds)@ == old(leds)@,
            final(self).outgoing@ == old(self).outgoing@,
    {
    }

    fn on_surface(&mut self, event: SurfaceEvent, leds: &mut Vec<LedCommand>)
        ensures
            final(leds)@ == old(leds)@,
            final(self).outgoing@ == old(self).outgoing@ + (match surface_message(event) {
                Some(m) => seq![m],
                None => Seq::empty(),
            }),
    {
        if event.index > 90 && event.index < 99 {
            let value: u8 = if event.pressed {
                127
            } else {
                0
            };
            self.outgoing.push(
                MidiEvent { port: MidiPort::Daw, status: CONTROL_CHANGE, data1: event.index, data2: value },
            );
        } else {
            assert(self.outgoing@ + Seq::<MidiEvent>::empty() =~= self.outgoing@);
        }
    }

    fn on_midi(&mut self, event: MidiEvent, leds: &mut Vec<LedCommand>)
        ensures
            final(leds)@ == old(leds)@ + midi_leds(event),
            final(self).outgoing@ == old(self).outgoing@,
    {
        if event.status == 0x90 {
            leds.push(LedCommand::Novation { index: event.data1, velocity: event.data2 });
        } else if event.status == 0x80 {
            leds.push(LedCommand::Novation { index: event.data1, velocity: 0 });
        } else if event.status == 0xb0 && event.data1 >= 90 && event.data1 <= 99 {
            leds.push(LedCommand::Palette { index: event.data1, velocity: event.data2 });
        }
        assert(leds@ =~= old(leds)@ + midi_leds(event));
    }

    fn on_aftertouch(&mut self, _event: AftertouchEvent, leds: &mut Vec<LedCommand>)
        ensures
            final(leds)@ == old(leds)@,
            final(self).outgoing@ == old(self).outgoing@,
    {
    }

    fn on_tick(&mut self, leds: &mut Vec<LedCommand>)
        ensures
            final(leds)@ == old(leds)@,
            final(self).outgoing@ == old(self).outgoing@,
    {
    }

    fn take_outgoing_midi(&mut self) -> (r: Vec<MidiEvent>)
        ensures
            r@ == old(self).outgoing@,
            final(self).outgoing@ == Seq::<MidiEvent>::empty(),
    {
        let mut taken: Vec<MidiEvent> = Vec::new();
        std::mem::swap(&mut taken, &mut self.outgoing);
        taken
    }
}

/// The live application.
pub fn new() -> (r: LiveApp)
    ensures
        r.outgoing@ == Seq::<MidiEvent>::empty(),
{
    LiveApp::new()
}

} // verus!
