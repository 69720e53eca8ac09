//! The interface every application implements.

use vstd::prelude::*;
use super::events::{AftertouchEvent, AppId, MidiEvent, SurfaceEvent};
use crate::sys::led::LedCommand;

verus! {

/// An application: it reacts to surface, MIDI and aftertouch events and to
/// the tick, appending the LED requests it makes to `leds`, may ask for
/// another application to take over, and may have MIDI messages to send.
pub trait App {
    fn on_enter(&mut self, leds: &mut Vec<LedCommand>);

    fn on_exit(&mut self, leds: &mut Vec<LedCommand>);

    fn on_surface(&mut self, event: SurfaceEvent, leds: &mut Vec<LedCommand>);

    fn on_midi(&mut self, event: MidiEvent, leds: &mut Vec<LedCommand>);

    fn on_aftertouch(&mut self, event: AftertouchEvent, leds: &mut Vec<LedCommand>);

    fn on_tick(&mut self, leds: &mut Vec<LedCommand>);

    /// The application another one asked to switch to, if any; none unless
    /// an application says otherwise.
    fn take_requested_app_switch(&mut self) -> (r: Option<AppId>)
        default_ensures
            r is None,
    {
        None
    }

    /// The short MIDI messages the application has asked to send since last
    /// asked, in order.
    fn take_outgoing_midi(&mut self) -> (r: Vec<MidiEvent>)
        default_ensures
            r@ == Seq::<MidiEvent>::empty(),
    {
        Vec::new()
    }
}

} // verus!
