//! The millisecond loop of the Launchpad Pro: the 200 Hz divider, and the
//! surface events the applications receive.

use vstd::prelude::*;
use super::inputs::GridEvent;
use crate::app::{AftertouchEvent, SurfaceEvent};

verus! {

/// An input event as the applications receive it.
#[derive(Copy, Clone, Debug, PartialEq, Eq, Structural)]
pub enum AppInput {
    Surface(SurfaceEvent),
    Aftertouch(AftertouchEvent),
}

/// One millisecond of the 200 Hz divider: the next count, and whether the
/// 200 Hz work runs (every fifth millisecond).
pub fn tick_divider(divider: u8) -> (r: (u8, bool))
    ensures
        r.0 == (divider as int + 1) % 5,
        r.1 == (r.0 == 0),
{
    let next: u8 = ((divider as u16 + 1) % 5) as u8;
    (next, next == 0)
}

/// The application event of an input event: a release carries value 0.
pub fn app_input(event: GridEvent) -> (r: AppInput)
    ensures
        r == match event {
            GridEvent::Press { index, value } => AppInput::Surface(
                SurfaceEvent { pressed: true, index, value },
            ),
            GridEvent::Release { index } => AppInput::Surface(
                SurfaceEvent { pressed: false, index, value: 0 },
            ),
            GridEvent::Aftertouch { index, value } => AppInput::Aftertouch(
                AftertouchEvent { index, value },
            ),
        },
{
    match event {
        GridEvent::Press { index, value } => AppInput::Surface(
            SurfaceEvent { pressed: true, index, value },
        ),
        GridEvent::Release { index } => AppInput::Surface(
            SurfaceEvent { pressed: false, index, value: 0 },
        ),
        GridEvent::Aftertouch { index, value } => AppInput::Aftertouch(
            AftertouchEvent { index, value },
        ),
    }
}

} // verus!
