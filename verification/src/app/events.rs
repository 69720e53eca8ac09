use vstd::prelude::*;
use crate::sys::midi::MidiPort;

verus! {

/// The applications a device runs, one at a time.
#[derive(Copy, Clone, Debug, PartialEq, Eq, Structural)]
pub enum AppId {
    Boot,
    Setup,
    Performance,
    Live,
    Programmer,
    PaletteEditor,
}

/// A pad or button was pressed (with a velocity) or released.
#[derive(Copy, Clone, Debug, PartialEq, Eq, Structural)]
pub struct SurfaceEvent {
    pub pressed: bool,
    pub index: u8,
    pub value: u8,
}

/// A short MIDI message received on a port.
#[derive(Copy, Clone, Debug, PartialEq, Eq, Structural)]
pub struct MidiEvent {
    pub port: MidiPort,
    pub status: u8,
    pub data1: u8,
    pub data2: u8,
}

/// A new pressure value for a pad.
#[derive(Copy, Clone, Debug, PartialEq, Eq, Structural)]
pub struct AftertouchEvent {
    pub index: u8,
    pub value: u8,
}

} // verus!
