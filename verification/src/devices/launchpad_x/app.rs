//! The Launchpad X's live application: it leaves the surface to the host.

use vstd::prelude::*;
use crate::app::{AftertouchEvent, App, MidiEvent, SurfaceEvent};
use crate::sys::led::LedCommand;

verus! {

/// The live application; it reacts to nothing.
pub struct LiveApp;

impl LiveApp {
    /// The live application.
    pub fn new() -> (r: LiveApp) {
        LiveApp
    }
}

impl App for LiveApp {
    fn on_enter(&mut self, leds: &mut Vec<LedCommand>)
        ensures
            final(leds)@ == old(leds)@,
    {
    }

    fn on_exit(&mut self, leds: &mut Vec<LedCommand>)
        ensures
            final(leds)@ == old(leds)@,
    {
    }

    fn on_surface(&mut self, _event: SurfaceEvent, leds: &mut Vec<LedCommand>)
        ensures
            final(leds)@ == old(leds)@,
    {
    }

    fn on_midi(&mut self, _event: MidiEvent, leds: &mut Vec<LedCommand>)
        ensures
            final(leds)@ == old(leds)@,
    {
    }

    fn on_aftertouch(&mut self, _event: AftertouchEvent, leds: &mut Vec<LedCommand>)
        ensures
            final(leds)@ == old(leds)@,
    {
    }

    fn on_tick(&mut self, leds: &mut Vec<LedCommand>)
        ensures
            final(leds)@ == old(leds)@,
    {
    }
}

/// The live application.
pub fn new() -> (r: LiveApp) {
    LiveApp::new()
}

} // verus!
