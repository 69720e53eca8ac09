//! The Launchpad Mini's applications: a boot application that lights
//! pressed keys green, and a live application that plays notes to the DAW.

use vstd::prelude::*;
use crate::app::{AftertouchEvent, App, AppId, MidiEvent, SurfaceEvent};
use crate::sys::led::LedCommand;
use crate::sys::midi::MidiPort;

verus! {

/// What a key event shows and sends in the live application: a press lights
/// the key amber by its velocity (at least 10) and sends a note on, a release
/// turns it off and sends a note off.
pub open spec fn live_surface(event: SurfaceEvent) -> (LedCommand, MidiEvent) {
    if event.pressed {
        let v: u8 = if event.value < 10 {
            5
        } else {
            (event.value / 2) as u8
        };
        (
            LedCommand::RawRgb { index: event.index, r: v, g: (v / 2) as u8, b: 0 },
            MidiEvent { port: MidiPort::Daw, status: 0x90, data1: event.index, data2: event.value },
        )
    } else {
        (
            LedCommand::RawRgb { index: event.index, r: 0, g: 0, b: 0 },
            MidiEvent { port: MidiPort::Daw, status: 0x80, data1: event.index, data2: 0 },
        )
    }
}

/// The live application, with the messages it has yet to send.
pub struct LiveApp {
    pub outgoing: Vec<MidiEvent>,
}

impl LiveApp {
    /// The live application, with nothing to send.
    pub fn new() -> (r: LiveApp)
        ensures
            r.outgoing@ == Seq::<MidiEvent>::empty(),
    {
        LiveApp { outgoing: Vec::new() }
    }
}

impl App for LiveApp {
    fn on_enter(&mut self, leds: &mut Vec<LedCommand>)
        ensures
            final(leds)@ == old(leds)@.push(LedCommand::RawFill { color: 0 }),
            final(self).outgoing@ == old(self).outgoing@,
    {
        leds.push(LedCommand::RawFill { color: 0 });
    }

    fn on_exit(&mut self, leds: &mut Vec<LedCommand>)
        ensures
            final(leds)@ == old(leds)@,
            final(self).outgoing@ == old(self).outgoing@,
    {
    }

    fn on_surface(&mut self, event: SurfaceEvent, leds: &mut Vec<LedCommand>)
        ensures
            final(leds)@ == old(leds)@.push(live_surface(event).0),
            final(self).outgoing@ == old(self).outgoing@.push(live_surface(event).1),
    {
        if event.pressed {
            let v: u8 = if event.value < 10 {
                5
            } else {
                event.value / 2
            };
            leds.push(LedCommand::RawRgb { index: event.index, r: v, g: v / 2, b: 0 });
            self.outgoing.push(
                MidiEvent { port: MidiPort::Daw, status: 0x90, data1: event.index, data2: event.value },
            );
        } else {
            leds.push(LedCommand::RawRgb { index: event.index, r: 0, g: 0, b: 0 });
            self.outgoing.push(
                MidiEvent { port: MidiPort::Daw, status: 0x80, data1: event.index, data2: 0 },
            );
        }
    }

    fn on_midi(&mut self, _event: MidiEvent, leds: &mut Vec<LedCommand>)
        ensures
            final(leds)@ == old(leds)@,
            final(self).outgoing@ == old(self).outgoing@,
    {
    }

    fn on_aftertouch(&mut self, event: AftertouchEvent, leds: &mut Vec<LedCommand>)
        ensures
            final(leds)@ == old(leds)@,
            final(self).outgoing@ == old(self).outgoing@.push(
                MidiEvent { port: MidiPort::Daw, status: 0xa0, data1: event.index, data2: event.value },
            ),
    {
        self.outgoing.push(
            MidiEvent { port: MidiPort::Daw, status: 0xa0, data1: event.index, data2: event.value },
        );
    }

    fn on_tick(&mut self, leds: &mut Vec<LedCommand>)
        ensures
            final(leds)@ == old(leds)@,
            final(self).outgoing@ == old(self).outgoing@,
    {
    }

    fn take_outgoing_midi(&mut self) -> (r: Vec<MidiEvent>)
        ensures
            r@ == old(self).outgoing@,
            final(self).outgoing@ == Seq::<MidiEvent>::empty(),
    {
        let mut taken: Vec<MidiEvent> = Vec::new();
        std::mem::swap(&mut taken, &mut self.outgoing);
        taken
    }
}

/// The boot application: pressed keys light green until released.
pub struct BootApp {
    pub tick: u16,
    pub next_app: Option<AppId>,
}

impl BootApp {
    /// At its first tick, with no switch asked for.
    pub fn new() -> (r: BootApp)
        ensures
            r.tick == 0,
            r.next_app is None,
    {
        BootApp { tick: 0, next_app: None }
    }
}

impl App for BootApp {
    fn on_enter(&mut self, leds: &mut Vec<LedCommand>)
        ensures
            final(leds)@ == old(leds)@,
            final(self).tick == 0,
            final(self).next_app is None,
    {
        self.tick = 0;
        self.next_app = None;
    }

    fn on_exit(&mut self, leds: &mut Vec<LedCommand>)
        ensures
            final(leds)@ == old(leds)@,
            *final(self) == *old(self),
    {
    }

    fn on_surface(&mut self, event: SurfaceEvent, leds: &mut Vec<LedCommand>)
        ensures
            final(leds)@ == old(leds)@.push(
                LedCommand::RawRgb {
                    index: event.index,
                    r: 0,
                    g: if event.pressed {
                        63
                    } else {
                        0
                    },
                    b: 0,
                },
            ),
            *final(self) == *old(self),
    {
        if event.pressed {
            leds.push(LedCommand::RawRgb { index: event.index, r: 0, g: 63, b: 0 });
        } else {
            leds.push(LedCommand::RawRgb { index: event.index, r: 0, g: 0, b: 0 });
        }
    }

    fn on_midi(&mut self, _event: MidiEvent, leds: &mut Vec<LedCommand>)
        ensures
            final(leds)@ == old(leds)@,
            *final(self) == *old(self),
    {
    }

    fn on_aftertouch(&mut self, _event: AftertouchEvent, leds: &mut Vec<LedCommand>)
        ensures
            final(leds)@ == old(leds)@,
            *final(self) == *old(self),
    {
    }

    fn on_tick(&mut self, leds: &mut Vec<LedCommand>)
        ensures
            final(leds)@ == old(leds)@,
            *final(self) == *old(self),
    {
    }

    fn take_requested_app_switch(&mut self) -> (r: Option<AppId>)
        ensures
            r == old(self).next_app,
            final(self).next_app is None,
            final(self).tick == old(self).tick,
    {
        let r = self.next_app;
        self.next_app = None;
        r
    }
}

} // verus!
