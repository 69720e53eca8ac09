//! The millisecond loop of the Mystrix Pro: which work each tick does, and
//! where each input event goes.

use vstd::prelude::*;
use super::grid::HardwareEvent;
use crate::app::{AftertouchEvent, SurfaceEvent};

verus! {

/// LED refreshes per second.
pub const LED_REFRESH_HZ: u16 = 300;

/// The loop's clock: milliseconds since start (wrapping) and the LED
/// refresh accumulator, in thousandths of a refresh.
pub struct LoopState {
    pub now_ms: u32,
    pub led_phase: u16,
}

/// The work of one tick.
#[derive(Copy, Clone, Debug, PartialEq, Eq, Structural)]
pub struct TickActions {
    /// Scan the controls.
    pub scan: bool,
    /// The scan covers every control, not only the fast ones.
    pub full_scan: bool,
    /// Show the pad pressures (diagnostics only).
    pub pressure_display: bool,
    /// Send the frame to the LEDs.
    pub show_leds: bool,
    /// Hand MIDI and SysEx messages to the applications.
    pub deliver_messages: bool,
}

/// Where an input event goes.
#[derive(Copy, Clone, Debug, PartialEq, Eq, Structural)]
pub enum EventRoute {
    /// To the diagnostic display.
    Diagnostic(HardwareEvent),
    Surface(SurfaceEvent),
    Aftertouch(AftertouchEvent),
}

impl LoopState {
    /// The accumulator holds less than one refresh.
    pub open spec fn wf(self) -> bool {
        self.led_phase < 1000
    }

    /// The clock at start.
    pub fn new() -> (r: LoopState)
        ensures
            r.wf(),
            r.now_ms == 0 && r.led_phase == 0,
    {
        LoopState { now_ms: 0, led_phase: 0 }
    }
}

/// One millisecond: the clock advances; the controls are scanned every 4 ms,
/// all of them every 8 ms; in diagnostics the pressures are shown every
/// 16 ms and no message reaches the applications; the LEDs are refreshed
/// 300 times a second.
pub fn loop_tick(state: &mut LoopState, diagnostics: bool) -> (r: TickActions)
    requires
        old(state).wf(),
    ensures
        final(state).wf(),
        final(state).now_ms == old(state).now_ms.wrapping_add(1),
        r.scan == (final(state).now_ms % 4 == 0),
        r.full_scan == (final(state).now_ms % 8 == 0),
        r.pressure_display == (diagnostics && final(state).now_ms % 16 == 0),
        r.deliver_messages == !diagnostics,
        r.show_leds == (old(state).led_phase + LED_REFRESH_HZ >= 1000),
        final(state).led_phase == (if old(state).led_phase + LED_REFRESH_HZ >= 1000 {
            old(state).led_phase + LED_REFRESH_HZ - 1000
        } else {
            old(state).led_phase + LED_REFRESH_HZ
        }),
{
    state.now_ms = state.now_ms.wrapping_add(1);
    let now = state.now_ms;
    let phase = state.led_phase + LED_REFRESH_HZ;
    let show = phase >= 1000;
    state.led_phase = if show {
        phase - 1000
    } else {
        phase
    };
    TickActions {
        scan: now % 4 == 0,
        full_scan: now % 8 == 0,
        pressure_display: diagnostics && now % 16 == 0,
        show_leds: show,
        deliver_messages: !diagnostics,
    }
}

/// Where an input event goes: in diagnostics to the display, otherwise to
/// the applications as a surface or aftertouch event.
pub fn route_hardware_event(event: HardwareEvent, diagnostics: bool) -> (r: EventRoute)
    ensures
        diagnostics ==> r == EventRoute::Diagnostic(event),
        !diagnostics ==> r == match event {
            HardwareEvent::Surface { pressed, index, value } => EventRoute::Surface(
                SurfaceEvent { pressed, index, value },
            ),
            HardwareEvent::Aftertouch { index, value } => EventRoute::Aftertouch(
                AftertouchEvent { index, value },
            ),
        },
{
    if diagnostics {
        return EventRoute::Diagnostic(event);
    }
    match event {
        HardwareEvent::Surface { pressed, index, value } => EventRoute::Surface(
            SurfaceEvent { pressed, index, value },
        ),
        HardwareEvent::Aftertouch { index, value } => EventRoute::Aftertouch(
            AftertouchEvent { index, value },
        ),
    }
}

} // verus!
