//! USB descriptors of the Launchpad S and Launchpad Mini.

use vstd::prelude::*;

verus! {

/// The two controllers that share this USB firmware.
#[derive(Copy, Clone, Debug, PartialEq, Eq, Structural)]
pub enum Model {
    LaunchpadS,
    LaunchpadMini,
}

/// Descriptor type of the device descriptor.
pub const DESC_DEVICE: u8 = 0x01;
/// Descriptor type of the configuration descriptor.
pub const DESC_CONFIGURATION: u8 = 0x02;
/// Descriptor type of a string descriptor.
pub const DESC_STRING: u8 = 0x03;

/// "Focusrite A.E. Ltd"
pub const MANUFACTURER: [u8; 18] = [70, 111, 99, 117, 115, 114, 105, 116, 101, 32, 65, 46, 69, 46, 32, 76, 116, 100];

/// "Launchpad Mini"
pub const MINI_PRODUCT: [u8; 14] = [76, 97, 117, 110, 99, 104, 112, 97, 100, 32, 77, 105, 110, 105];

/// "COREFW-MINI"
pub const MINI_SERIAL: [u8; 11] = [67, 79, 82, 69, 70, 87, 45, 77, 73, 78, 73];

/// "MINI (DAW)"
pub const MINI_JACK_DAW: [u8; 10] = [77, 73, 78, 73, 32, 40, 68, 65, 87, 41];

/// "MINI (MIDI)"
pub const MINI_JACK_MIDI: [u8; 11] = [77, 73, 78, 73, 32, 40, 77, 73, 68, 73, 41];

/// "Launchpad S"
pub const S_PRODUCT: [u8; 11] = [76, 97, 117, 110, 99, 104, 112, 97, 100, 32, 83];

/// "COREFW-LPS"
pub const S_SERIAL: [u8; 10] = [67, 79, 82, 69, 70, 87, 45, 76, 80, 83];

/// "LPS (DAW)"
pub const S_JACK_DAW: [u8; 9] = [76, 80, 83, 32, 40, 68, 65, 87, 41];

/// "LPS (MIDI)"
pub const S_JACK_MIDI: [u8; 10] = [76, 80, 83, 32, 40, 77, 73, 68, 73, 41];

/// The configuration descriptor: one audio control and one MIDI streaming
/// interface, two embedded and two external jacks each way, and the bulk
/// endpoints 2 OUT and 1 IN.
pub const CONFIG_DESCRIPTOR: [u8; 129] = [
    9, 2, 129, 0, 2, 1, 0, 128, 30, 9, 4, 0, 0, 0, 1, 1,
    0, 3, 9, 36, 1, 0, 1, 9, 0, 1, 1, 9, 4, 1, 0, 2,
    1, 3, 0, 3, 7, 36, 1, 0, 1, 93, 0, 6, 36, 2, 1, 1,
    0, 6, 36, 2, 1, 3, 0, 6, 36, 2, 1, 6, 5, 6, 36, 2,
    1, 8, 6, 9, 36, 3, 1, 5, 1, 6, 1, 0, 9, 36, 3, 1,
    7, 1, 8, 1, 0, 9, 36, 3, 1, 2, 1, 1, 1, 5, 9, 36,
    3, 1, 4, 1, 3, 1, 6, 7, 5, 2, 3, 64, 0, 1, 6, 37,
    1, 2, 6, 8, 7, 5, 129, 3, 64, 0, 1, 6, 37, 1, 2, 2,
    4,
];

/// Language table: US English only.
pub const STRING_ZERO: [u8; 4] = [4, 3, 0x09, 0x04];

/// USB product id of a model.
pub open spec fn product_id(model: Model) -> u8 {
    match model {
        Model::LaunchpadMini => 0x36,
        Model::LaunchpadS => 0x20,
    }
}

/// The device descriptor of a model: USB 1.1, 64-byte control packets,
/// vendor 0x1235, strings 1, 2 and 4, one configuration.
pub open spec fn device_descriptor_bytes(model: Model) -> Seq<u8> {
    seq![
        18u8, 1, 0x10, 0x01, 0, 0, 0, 64, 0x35, 0x12, product_id(model), 0, 0, 0, 1, 2, 4, 1,
    ]
}

/// A string descriptor holding `text` as UTF-16: length, type, then each
/// byte followed by a zero.
pub open spec fn string_descriptor(text: Seq<u8>) -> Seq<u8> {
    seq![(2 + 2 * text.len()) as u8, DESC_STRING] + Seq::new(
        2 * text.len(),
        |i: int|
            if i % 2 == 0 {
                text[i / 2]
            } else {
                0u8
            },
    )
}

/// The text of string `index` (1 to 6) of a model.
pub open spec fn string_text(model: Model, index: u8) -> Seq<u8> {
    if index == 1 {
        MANUFACTURER@
    } else if model == Model::LaunchpadMini {
        if index == 2 || index == 3 {
            MINI_PRODUCT@
        } else if index == 4 {
            MINI_SERIAL@
        } else if index == 5 {
            MINI_JACK_DAW@
        } else {
            MINI_JACK_MIDI@
        }
    } else {
        if index == 2 || index == 3 {
            S_PRODUCT@
        } else if index == 4 {
            S_SERIAL@
        } else if index == 5 {
            S_JACK_DAW@
        } else {
            S_JACK_MIDI@
        }
    }
}

/// The descriptor of type `desc_type` and index `index`, if the device has one.
pub open spec fn descriptor_bytes(model: Model, desc_type: u8, index: u8) -> Option<Seq<u8>> {
    if desc_type == DESC_DEVICE && index == 0 {
        Some(device_descriptor_bytes(model))
    } else if desc_type == DESC_CONFIGURATION && index == 0 {
        Some(CONFIG_DESCRIPTOR@)
    } else if desc_type == DESC_STRING && index == 0 {
        Some(STRING_ZERO@)
    } else if desc_type == DESC_STRING && 1 <= index <= 6 {
        Some(string_descriptor(string_text(model, index)))
    } else {
        None
    }
}

/// A string descriptor holding `value` as UTF-16.
pub fn utf16_string(value: &[u8]) -> (r: Vec<u8>)
    requires
        2 + 2 * value.len() <= 255,
    ensures
        r@ == string_descriptor(value@),
{
    let mut out: Vec<u8> = Vec::new();
    out.push((2 + 2 * value.len()) as u8);
    out.push(DESC_STRING);
    let mut i: usize = 0;
    while i < value.len()
        invariant
            i <= value.len(),
            2 + 2 * value.len() <= 255,
            out@ == string_descriptor(value@).take(2 + 2 * i),
        decreases value.len() - i,
    {
        out.push(value[i]);
        out.push(0);
        i += 1;
        assert(out@ =~= string_descriptor(value@).take(2 + 2 * i));
    }
    assert(string_descriptor(value@).take(2 + 2 * i) =~= string_descriptor(value@));
    out
}

/// The device descriptor of a model.
pub fn device_descriptor(model: Model) -> (r: Vec<u8>)
    ensures
        r@ == device_descriptor_bytes(model),
{
    let pid: u8 = match model {
        Model::LaunchpadMini => 0x36,
        Model::LaunchpadS => 0x20,
    };
    let r = vec![18u8, 1, 0x10, 0x01, 0, 0, 0, 64, 0x35, 0x12, pid, 0, 0, 0, 1, 2, 4, 1];
    assert(r@ =~= device_descriptor_bytes(model));
    r
}

/// The descriptor of type `desc_type` and index `index`; `None` for one the
/// device does not have.
pub fn descriptor(model: Model, desc_type: u8, index: u8) -> (r: Option<Vec<u8>>)
    ensures
        r is None <==> descriptor_bytes(model, desc_type, index) is None,
        r matches Some(v) ==> Some(v@) == descriptor_bytes(model, desc_type, index),
{
    if desc_type == DESC_DEVICE && index == 0 {
        Some(device_descriptor(model))
    } else if desc_type == DESC_CONFIGURATION && index == 0 {
        Some(vstd::slice::slice_to_vec(CONFIG_DESCRIPTOR.as_slice()))
    } else if desc_type == DESC_STRING && index == 0 {
        Some(vstd::slice::slice_to_vec(STRING_ZERO.as_slice()))
    } else if desc_type == DESC_STRING && 1 <= index && index <= 6 {
        let mini = model == Model::LaunchpadMini;
        let text: &[u8] = if index == 1 {
            MANUFACTURER.as_slice()
        } else if mini {
            if index == 2 || index == 3 {
                MINI_PRODUCT.as_slice()
            } else if index == 4 {
                MINI_SERIAL.as_slice()
            } else if index == 5 {
                MINI_JACK_DAW.as_slice()
            } else {
                MINI_JACK_MIDI.as_slice()
            }
        } else {
            if index == 2 || index == 3 {
                S_PRODUCT.as_slice()
            } else if index == 4 {
                S_SERIAL.as_slice()
            } else if index == 5 {
                S_JACK_DAW.as_slice()
            } else {
                S_JACK_MIDI.as_slice()
            }
        };
        Some(utf16_string(text))
    } else {
        None
    }
}

} // verus!
