//! Class-specific descriptors of the USB-MIDI function: the audio-control
//! header, the MIDI-streaming header with its total length, one external and
//! one embedded jack for each direction of each cable, and the jack lists of
//! the two bulk endpoints.

use vstd::prelude::*;

verus! {

/// Most jacks per direction: the endpoint descriptors hold at most sixteen ids.
pub const MAX_JACKS: u8 = 16;

/// Size of a MIDI IN jack descriptor.
pub const MIDI_IN_SIZE: u8 = 0x06;

/// Size of a MIDI OUT jack descriptor with one source.
pub const MIDI_OUT_SIZE: u8 = 0x09;

/// Id of the external IN jack of input cable `i`.
pub open spec fn in_jack_id_ext(i: int) -> int {
    2 * i + 1
}

/// Id of the embedded OUT jack of input cable `i`.
pub open spec fn out_jack_id_emb(i: int) -> int {
    2 * i + 2
}

/// Id of the external OUT jack of output cable `i`.
pub open spec fn out_jack_id_ext(n_in: int, i: int) -> int {
    2 * n_in + 2 * i + 1
}

/// Id of the embedded IN jack of output cable `i`.
pub open spec fn in_jack_id_emb(n_in: int, i: int) -> int {
    2 * n_in + 2 * i + 2
}

/// The string of cable `i`: its own name for the first two, else the
/// interface's.
pub open spec fn jack_string(i: int, interface_string: u8, jack_strings: Seq<u8>) -> u8 {
    if i < 2 {
        jack_strings[i]
    } else {
        interface_string
    }
}

/// Total length of the class-specific MIDI-streaming descriptors: the header,
/// the jacks, and the two endpoint descriptors.
pub open spec fn ms_total_length(n_in: int, n_out: int) -> int {
    7 + (n_in + n_out) * (MIDI_IN_SIZE + MIDI_OUT_SIZE) + 7 + (4 + n_out) + 7 + (4 + n_in)
}

/// The jack descriptors, in the order they are written: external IN jacks,
/// embedded IN jacks, external OUT jacks, embedded OUT jacks.
pub open spec fn jack_descriptors_spec(
    n_in: int,
    n_out: int,
    interface_string: u8,
    jack_strings: Seq<u8>,
) -> Seq<Seq<u8>> {
    Seq::new(n_in as nat, |i: int| seq![0x02u8, 0x02u8, in_jack_id_ext(i) as u8, 0x00u8])
        + Seq::new(
            n_out as nat,
            |i: int|
                seq![
                    0x02u8,
                    0x01u8,
                    in_jack_id_emb(n_in, i) as u8,
                    jack_string(i, interface_string, jack_strings),
                ],
        ) + Seq::new(
            n_out as nat,
            |i: int|
                seq![
                    0x03u8,
                    0x02u8,
                    out_jack_id_ext(n_in, i) as u8,
                    0x01u8,
                    in_jack_id_emb(n_in, i) as u8,
                    0x01u8,
                    0x00u8,
                ],
        ) + Seq::new(
            n_in as nat,
            |i: int|
                seq![
                    0x03u8,
                    0x01u8,
                    out_jack_id_emb(i) as u8,
                    0x01u8,
                    in_jack_id_ext(i) as u8,
                    0x01u8,
                    jack_string(i, interface_string, jack_strings),
                ],
        )
}

/// The audio-control header, which names the MIDI-streaming interface that
/// follows `audio_interface`.
pub fn audio_control_header(audio_interface: u8) -> (r: [u8; 7])
    requires
        audio_interface < 255,
    ensures
        r@ == seq![0x01u8, 0x00u8, 0x01u8, 0x09u8, 0x00u8, 0x01u8, (audio_interface + 1) as u8],
{
    let r = [0x01u8, 0x00, 0x01, 0x09, 0x00, 0x01, audio_interface + 1];
    assert(r@ =~= seq![0x01u8, 0x00u8, 0x01u8, 0x09u8, 0x00u8, 0x01u8, (audio_interface + 1) as u8]);
    r
}

/// The MIDI-streaming header, with the total length of its descriptors in
/// little-endian order.
pub fn midi_streaming_header(n_in_jacks: u8, n_out_jacks: u8) -> (r: [u8; 5])
    requires
        n_in_jacks <= MAX_JACKS,
        n_out_jacks <= MAX_JACKS,
    ensures
        r@ == seq![
            0x01u8,
            0x00u8,
            0x01u8,
            (ms_total_length(n_in_jacks as int, n_out_jacks as int) % 256) as u8,
            (ms_total_length(n_in_jacks as int, n_out_jacks as int) / 256) as u8,
        ],
{
    let jacks: usize = (n_in_jacks + n_out_jacks) as usize;
    let jack_bytes: usize = (MIDI_IN_SIZE + MIDI_OUT_SIZE) as usize;
    assert(jacks * jack_bytes <= 480) by (nonlinear_arith)
        requires
            jacks <= 32,
            jack_bytes == 15,
    ;
    let total: usize = 7 + jacks * jack_bytes + 7 + (4 + n_out_jacks as usize) + 7 + (4
        + n_in_jacks as usize);
    assert(total < 65536) by (nonlinear_arith)
        requires
            total == ms_total_length(n_in_jacks as int, n_out_jacks as int),
            n_in_jacks <= 16,
            n_out_jacks <= 16,
    ;
    assert((total & 0xff) == total % 256) by (bit_vector);
    assert(((total >> 8) & 0xff) == total / 256) by (bit_vector)
        requires
            total < 65536,
    ;
    let r = [0x01u8, 0x00, 0x01, (total & 0xff) as u8, ((total >> 8) & 0xff) as u8];
    assert(r@ =~= seq![
        0x01u8,
        0x00u8,
        0x01u8,
        (ms_total_length(n_in_jacks as int, n_out_jacks as int) % 256) as u8,
        (ms_total_length(n_in_jacks as int, n_out_jacks as int) / 256) as u8,
    ]);
    r
}

/// Every jack descriptor of the MIDI-streaming interface, in order.
pub fn jack_descriptors(
    n_in_jacks: u8,
    n_out_jacks: u8,
    interface_string: u8,
    jack_strings: [u8; 2],
) -> (r: Vec<Vec<u8>>)
    requires
        n_in_jacks <= MAX_JACKS,
        n_out_jacks <= MAX_JACKS,
    ensures
        r@.map_values(|d: Vec<u8>| d@) == jack_descriptors_spec(
            n_in_jacks as int,
            n_out_jacks as int,
            interface_string,
            jack_strings@,
        ),
{
    let ghost n_in = n_in_jacks as int;
    let ghost n_out = n_out_jacks as int;
    let ghost spec = jack_descriptors_spec(n_in, n_out, interface_string, jack_strings@);
    let mut r: Vec<Vec<u8>> = Vec::new();
    let mut i: u8 = 0;
    while i < n_in_jacks
        invariant
            i <= n_in_jacks <= MAX_JACKS,
            r@.len() == i,
            forall|k: int| 0 <= k < i ==> #[trigger] r@[k]@ == spec[k],
            spec == jack_descriptors_spec(n_in, n_out, interface_string, jack_strings@),
            n_in == n_in_jacks,
            n_out == n_out_jacks <= MAX_JACKS,
        decreases n_in_jacks - i,
    {
        let d = vec![0x02u8, 0x02, 2 * i + 1, 0x00];
        assert(d@ =~= spec[i as int]);
        r.push(d);
        i = i + 1;
    }
    let mut i: u8 = 0;
    while i < n_out_jacks
        invariant
            i <= n_out_jacks <= MAX_JACKS,
            n_in_jacks <= MAX_JACKS,
            r@.len() == n_in + i,
            forall|k: int| 0 <= k < n_in + i ==> #[trigger] r@[k]@ == spec[k],
            spec == jack_descriptors_spec(n_in, n_out, interface_string, jack_strings@),
            n_in == n_in_jacks,
            n_out == n_out_jacks,
        decreases n_out_jacks - i,
    {
        let s = if i < 2 { jack_strings[i as usize] } else { interface_string };
        let d = vec![0x02u8, 0x01, 2 * n_in_jacks + 2 * i + 2, s];
        assert(d@ =~= spec[n_in + i]);
        r.push(d);
        i = i + 1;
    }
    let mut i: u8 = 0;
    while i < n_out_jacks
        invariant
            i <= n_out_jacks <= MAX_JACKS,
            n_in_jacks <= MAX_JACKS,
            r@.len() == n_in + n_out + i,
            forall|k: int| 0 <= k < n_in + n_out + i ==> #[trigger] r@[k]@ == spec[k],
            spec == jack_descriptors_spec(n_in, n_out, interface_string, jack_strings@),
            n_in == n_in_jacks,
            n_out == n_out_jacks,
        decreases n_out_jacks - i,
    {
        let d = vec![
            0x03u8,
            0x02,
            2 * n_in_jacks + 2 * i + 1,
            0x01,
            2 * n_in_jacks + 2 * i + 2,
            0x01,
            0x00,
        ];
        assert(d@ =~= spec[n_in + n_out + i]);
        r.push(d);
        i = i + 1;
    }
    let mut i: u8 = 0;
    while i < n_in_jacks
        invariant
            i <= n_in_jacks <= MAX_JACKS,
            n_out_jacks <= MAX_JACKS,
            r@.len() == n_in + 2 * n_out + i,
            forall|k: int| 0 <= k < n_in + 2 * n_out + i ==> #[trigger] r@[k]@ == spec[k],
            spec == jack_descriptors_spec(n_in, n_out, interface_string, jack_strings@),
            n_in == n_in_jacks,
            n_out == n_out_jacks,
        decreases n_in_jacks - i,
    {
        let s = if i < 2 { jack_strings[i as usize] } else { interface_string };
        let d = vec![0x03u8, 0x01, 2 * i + 2, 0x01, 2 * i + 1, 0x01, s];
        assert(d@ =~= spec[n_in + 2 * n_out + i]);
        r.push(d);
        i = i + 1;
    }
    assert(r@.map_values(|d: Vec<u8>| d@) =~= spec);
    r
}

/// The class-specific descriptor of the bulk OUT endpoint: the embedded IN
/// jack of each output cable.
pub fn out_endpoint_descriptor(n_in_jacks: u8, n_out_jacks: u8) -> (r: Vec<u8>)
    requires
        n_in_jacks <= MAX_JACKS,
        n_out_jacks <= MAX_JACKS,
    ensures
        r@ == seq![0x01u8, n_out_jacks] + Seq::new(
            n_out_jacks as nat,
            |i: int| in_jack_id_emb(n_in_jacks as int, i) as u8,
        ),
{
    let mut r: Vec<u8> = vec![0x01u8, n_out_jacks];
    let mut i: u8 = 0;
    while i < n_out_jacks
        invariant
            i <= n_out_jacks <= MAX_JACKS,
            n_in_jacks <= MAX_JACKS,
            r@ == seq![0x01u8, n_out_jacks] + Seq::new(
                i as nat,
                |k: int| in_jack_id_emb(n_in_jacks as int, k) as u8,
            ),
        decreases n_out_jacks - i,
    {
        r.push(2 * n_in_jacks + 2 * i + 2);
        i = i + 1;
        assert(r@ =~= seq![0x01u8, n_out_jacks] + Seq::new(
            i as nat,
            |k: int| in_jack_id_emb(n_in_jacks as int, k) as u8,
        ));
    }
    r
}

/// The class-specific descriptor of the bulk IN endpoint: the embedded OUT
/// jack of each input cable.
pub fn in_endpoint_descriptor(n_in_jacks: u8) -> (r: Vec<u8>)
    requires
        n_in_jacks <= MAX_JACKS,
    ensures
        r@ == seq![0x01u8, n_in_jacks] + Seq::new(
            n_in_jacks as nat,
            |i: int| out_jack_id_emb(i) as u8,
        ),
{
    let mut r: Vec<u8> = vec![0x01u8, n_in_jacks];
    let mut i: u8 = 0;
    while i < n_in_jacks
        invariant
            i <= n_in_jacks <= MAX_JACKS,
            r@ == seq![0x01u8, n_in_jacks] + Seq::new(i as nat, |k: int| out_jack_id_emb(k) as u8),
        decreases n_in_jacks - i,
    {
        r.push(2 * i + 2);
        i = i + 1;
        assert(r@ =~= seq![0x01u8, n_in_jacks] + Seq::new(
            i as nat,
            |k: int| out_jack_id_emb(k) as u8,
        ));
    }
    r
}

/// Which name a string index asks for: the interface's, one of the two
/// jacks', or none.
pub fn named_string(
    index: u8,
    interface_index: u8,
    interface_value: &'static str,
    jack_indices: [u8; 2],
    jack_values: [&'static str; 2],
) -> (r: Option<&'static str>)
    ensures
        r == (if index == interface_index {
            Some(interface_value)
        } else if index == jack_indices@[0] {
            Some(jack_values@[0])
        } else if index == jack_indices@[1] {
            Some(jack_values@[1])
        } else {
            None
        }),
{
    if index == interface_index {
        Some(interface_value)
    } else if index == jack_indices[0] {
        Some(jack_values[0])
    } else if index == jack_indices[1] {
        Some(jack_values[1])
    } else {
        None
    }
}

} // verus!
