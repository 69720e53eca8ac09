use vstd::prelude::*;

verus! {

/// The three MIDI endpoints a device talks to.
#[derive(Copy, Clone, Debug, PartialEq, Eq, Structural)]
pub enum MidiPort {
    Daw,
    Midi,
    Din,
}

/// The cable number of a port: `Daw` is 0, `Midi` is 1, `Din` is 2.
pub open spec fn port_cable(port: MidiPort) -> u8 {
    match port {
        MidiPort::Daw => 0,
        MidiPort::Midi => 1,
        MidiPort::Din => 2,
    }
}

impl MidiPort {
    /// Port of a USB cable number; only cables 0 and 1 exist on USB.
    pub fn from_usb_cable(cable: u8) -> (r: Option<MidiPort>)
        ensures
            r == (if cable == 0 {
                Some(MidiPort::Daw)
            } else if cable == 1 {
                Some(MidiPort::Midi)
            } else {
                None::<MidiPort>
            }),
    {
        match cable {
            0 => Some(MidiPort::Daw),
            1 => Some(MidiPort::Midi),
            _ => None,
        }
    }

    /// Port of any cable number; every number above 1 is the DIN port.
    pub fn from_cable(cable: u8) -> (r: MidiPort)
        ensures
            r == (if cable == 0 {
                MidiPort::Daw
            } else if cable == 1 {
                MidiPort::Midi
            } else {
                MidiPort::Din
            }),
    {
        match cable {
            0 => MidiPort::Daw,
            1 => MidiPort::Midi,
            _ => MidiPort::Din,
        }
    }

    /// The cable number of this port.
    pub fn as_cable(self) -> (r: u8)
        ensures
            r == port_cable(self),
    {
        match self {
            MidiPort::Daw => 0,
            MidiPort::Midi => 1,
            MidiPort::Din => 2,
        }
    }
}

/// A cable number read back through `from_cable` gives the port again.
pub proof fn lemma_cable_roundtrip(port: MidiPort)
    ensures
        (if port_cable(port) == 0 {
            MidiPort::Daw
        } else if port_cable(port) == 1 {
            MidiPort::Midi
        } else {
            MidiPort::Din
        }) == port,
{
}

} // verus!
