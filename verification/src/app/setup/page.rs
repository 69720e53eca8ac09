//! Pages of the setup application: a smaller version of the application
//! interface.

use vstd::prelude::*;
use crate::app::events::SurfaceEvent;
use crate::sys::led::LedCommand;

verus! {

/// The setup pages.
#[derive(Copy, Clone, Debug, PartialEq, Eq, Structural)]
pub enum PageId {
    Init,
    Leds,
}

/// What a page works with: the LED requests it makes, the LED brightness of
/// the device, the brightness to store in the settings when it changes, and
/// the stored mirror setting (nonzero when on).
pub struct SetupContext {
    pub leds: Vec<LedCommand>,
    pub brightness: u8,
    pub stored_brightness: Option<u8>,
    pub mirror_enabled: u8,
}

/// A page of the setup application.
pub trait Page {
    fn on_enter(&mut self, ctx: &mut SetupContext);

    fn on_surface(&mut self, event: SurfaceEvent, ctx: &mut SetupContext);

    fn on_tick(&mut self, ctx: &mut SetupContext) {
    }
}

} // verus!
