//! The Launchpad S's interrupt numbers and the tick events its 1 kHz timer
//! raises for the main loop.

use vstd::prelude::*;

verus! {

/// Start of the application's vector table.
pub const APP_VECTOR_TABLE: u32 = 0x0800_3000;

/// System clock frequency.
pub const SYSCLK_HZ: u32 = 48_000_000;

/// Raised on every tick.
pub const EVENT_1KHZ: u32 = 1;

/// Raised on every fifth tick.
pub const EVENT_200HZ: u32 = 2;

/// Raised on every fiftieth tick.
pub const EVENT_20HZ: u32 = 4;

/// The interrupts the firmware enables.
#[derive(Copy, Clone, Debug, PartialEq, Eq, Structural)]
pub enum Interrupt {
    UsbLpCanRx0,
    Tim2,
    Tim4,
}

impl Interrupt {
    /// Position of the interrupt in the vector table.
    pub fn number(self) -> (r: u16)
        ensures
            r == (match self {
                Interrupt::UsbLpCanRx0 => 20u16,
                Interrupt::Tim2 => 28u16,
                Interrupt::Tim4 => 30u16,
            }),
    {
        match self {
            Interrupt::UsbLpCanRx0 => 20,
            Interrupt::Tim2 => 28,
            Interrupt::Tim4 => 30,
        }
    }
}

/// The events one tick raises, the tick counter having reached `tick`.
pub open spec fn tick_events(tick: u32) -> u32 {
    EVENT_1KHZ | (if tick % 5 == 0 {
        EVENT_200HZ
    } else {
        0
    }) | (if tick % 50 == 0 {
        EVENT_20HZ
    } else {
        0
    })
}

/// The pending tick events and the tick counter.
pub struct TickEvents {
    pub events: u32,
    pub tick_div: u32,
}

impl TickEvents {
    /// No events pending, no ticks counted.
    pub fn new() -> (r: TickEvents)
        ensures
            r.events == 0,
            r.tick_div == 0,
    {
        TickEvents { events: 0, tick_div: 0 }
    }

    /// One timer tick: counts it, wrapping, and raises its events.
    pub fn tick(&mut self)
        ensures
            final(self).tick_div == old(self).tick_div.wrapping_add(1),
            final(self).events == old(self).events | tick_events(final(self).tick_div),
    {
        let tick = self.tick_div.wrapping_add(1);
        self.tick_div = tick;
        let e200: u32 = if tick % 5 == 0 {
            EVENT_200HZ
        } else {
            0
        };
        let e20: u32 = if tick % 50 == 0 {
            EVENT_20HZ
        } else {
            0
        };
        let events = EVENT_1KHZ | e200 | e20;
        self.events = self.events | events;
    }

    /// The pending events among `mask`; they are no longer pending.
    pub fn take_events(&mut self, mask: u32) -> (r: u32)
        ensures
            r == old(self).events & mask,
            final(self).events == old(self).events & !mask,
            final(self).tick_div == old(self).tick_div,
    {
        let pending = self.events;
        self.events = pending & !mask;
        pending & mask
    }
}

} // verus!
