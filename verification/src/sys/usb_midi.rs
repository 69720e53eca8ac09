//! USB-MIDI event packets: the code index numbers (CIN) of short messages and
//! how a system exclusive message is cut into four-byte packets.

use vstd::prelude::*;
use crate::sys::midi::MidiPort;

verus! {

/// A received system exclusive message.
#[derive(Clone, Debug)]
pub struct SysexMessage {
    pub port: MidiPort,
    pub data: Vec<u8>,
}

/// A MIDI message waiting to be sent: the port's cable number and its bytes.
#[derive(Clone, Debug)]
pub struct MidiTxMessage {
    pub port: u8,
    pub data: Vec<u8>,
}

/// One four-byte USB-MIDI event packet: cable and CIN, then up to three MIDI bytes.
#[derive(Copy, Clone, Debug)]
pub struct UsbMidiPacket {
    pub data: [u8; 4],
}

impl UsbMidiPacket {
    /// The packet's four bytes.
    pub open spec fn bytes(self) -> Seq<u8> {
        self.data@
    }

    /// A packet from its four bytes.
    pub fn from_bytes(b0: u8, b1: u8, b2: u8, b3: u8) -> (r: UsbMidiPacket)
        ensures
            r.bytes() == seq![b0, b1, b2, b3],
    {
        let r = UsbMidiPacket { data: [b0, b1, b2, b3] };
        assert(r.bytes() =~= seq![b0, b1, b2, b3]);
        r
    }
}

/// CIN and length of the short message that starts with `status`, if any.
pub open spec fn short_format(status: u8) -> Option<(u8, usize)> {
    if 0x80 <= status <= 0x8f {
        Some((0x8u8, 3usize))
    } else if 0x90 <= status <= 0x9f {
        Some((0x9u8, 3usize))
    } else if 0xa0 <= status <= 0xaf {
        Some((0xau8, 3usize))
    } else if 0xb0 <= status <= 0xbf {
        Some((0xbu8, 3usize))
    } else if 0xc0 <= status <= 0xcf {
        Some((0xcu8, 2usize))
    } else if 0xd0 <= status <= 0xdf {
        Some((0xdu8, 2usize))
    } else if 0xe0 <= status <= 0xef {
        Some((0xeu8, 3usize))
    } else if status == 0xf1 || status == 0xf3 {
        Some((0x2u8, 2usize))
    } else if status == 0xf2 {
        Some((0x3u8, 3usize))
    } else if status == 0xf6 {
        Some((0x5u8, 1usize))
    } else if status >= 0xf8 {
        Some((0xfu8, 1usize))
    } else {
        None
    }
}

/// A channel message is framed by its status: its CIN is the status's high
/// nibble, and it is three bytes long (status and two data bytes), except
/// program change and channel pressure, which carry one data byte. A data
/// byte starts no message, nor do the SysEx start and end bytes or the
/// undefined system bytes; a real-time byte is a message of its own, and
/// the other system messages take their own CIN and length.
pub proof fn lemma_channel_message_lengths(status: u8)
    ensures
        0x80 <= status <= 0xef ==> short_format(status) == Some(
            (
                (status / 16) as u8,
                if 0xc0 <= status <= 0xdf {
                    2usize
                } else {
                    3usize
                },
            ),
        ),
        status < 0x80 ==> short_format(status) is None,
        short_format(0xf0) is None && short_format(0xf7) is None,
        status >= 0xf8 ==> short_format(status) == Some((0xfu8, 1usize)),
        short_format(0xf1) == Some((0x2u8, 2usize)) && short_format(0xf3) == Some((0x2u8, 2usize)),
        short_format(0xf2) == Some((0x3u8, 3usize)) && short_format(0xf6) == Some((0x5u8, 1usize)),
        short_format(0xf4) is None && short_format(0xf5) is None,
{
}

/// CIN and length of the short message that starts with `status`; `None` for
/// sysex bytes, undefined status bytes and data bytes.
pub fn short_message_format(status: u8) -> (r: Option<(u8, usize)>)
    ensures
        r == short_format(status),
{
    if 0x80 <= status && status <= 0x8f {
        Some((0x8, 3))
    } else if 0x90 <= status && status <= 0x9f {
        Some((0x9, 3))
    } else if 0xa0 <= status && status <= 0xaf {
        Some((0xa, 3))
    } else if 0xb0 <= status && status <= 0xbf {
        Some((0xb, 3))
    } else if 0xc0 <= status && status <= 0xcf {
        Some((0xc, 2))
    } else if 0xd0 <= status && status <= 0xdf {
        Some((0xd, 2))
    } else if 0xe0 <= status && status <= 0xef {
        Some((0xe, 3))
    } else if status == 0xf1 || status == 0xf3 {
        Some((0x2, 2))
    } else if status == 0xf2 {
        Some((0x3, 3))
    } else if status == 0xf6 {
        Some((0x5, 1))
    } else if status >= 0xf8 {
        Some((0xf, 1))
    } else {
        None
    }
}

/// The packet of a short message `m` (whose length `short_format` gives) on `cable`.
pub open spec fn short_packet(cable: u8, cin: u8, m: Seq<u8>) -> Seq<u8> {
    seq![
        cable | cin,
        m[0],
        if m.len() > 1 { m[1] } else { 0u8 },
        if m.len() > 2 { m[2] } else { 0u8 },
    ]
}

/// The packet that ends a sysex message whose last one to three bytes are `s`:
/// CIN 5, 6 or 7 by the number of bytes.
pub open spec fn sysex_end_packet(cable: u8, s: Seq<u8>) -> Seq<u8> {
    seq![
        cable | ((4 + s.len()) as u8),
        s[0],
        if s.len() > 1 { s[1] } else { 0u8 },
        if s.len() > 2 { s[2] } else { 0u8 },
    ]
}

/// A sysex packet that continues the message with three bytes (CIN 4).
pub open spec fn sysex_cont_packet(cable: u8, s: Seq<u8>) -> Seq<u8> {
    seq![cable | 4u8, s[0], s[1], s[2]]
}

/// The packets of a whole sysex message `s` on `cable`: CIN 4 packets of three
/// bytes while more than three bytes remain, then one end packet.
pub open spec fn sysex_packets(cable: u8, s: Seq<u8>) -> Seq<Seq<u8>>
    decreases s.len(),
{
    if s.len() == 0 {
        Seq::empty()
    } else if s.len() > 3 {
        seq![sysex_cont_packet(cable, s)] + sysex_packets(cable, s.skip(3))
    } else {
        seq![sysex_end_packet(cable, s)]
    }
}

/// Number of packets that `sysex_packets` gives for `n` bytes.
pub open spec fn sysex_packet_count(n: nat) -> nat {
    (n + 2) / 3
}

/// The concatenation of packets.
pub open spec fn flatten(ps: Seq<Seq<u8>>) -> Seq<u8>
    decreases ps.len(),
{
    if ps.len() == 0 {
        Seq::empty()
    } else {
        ps[0] + flatten(ps.skip(1))
    }
}

/// `sysex_packets` gives one packet per started group of three bytes.
pub proof fn lemma_sysex_packet_count(cable: u8, s: Seq<u8>)
    ensures
        sysex_packets(cable, s).len() == sysex_packet_count(s.len()),
        forall|i: int|
            0 <= i < sysex_packets(cable, s).len() ==> (#[trigger] sysex_packets(cable, s)[i]).len()
                == 4,
    decreases s.len(),
{
    if s.len() > 3 {
        lemma_sysex_packet_count(cable, s.skip(3));
        let rest = sysex_packets(cable, s.skip(3));
        assert(sysex_packets(cable, s) == seq![sysex_cont_packet(cable, s)] + rest);
        assert forall|i: int| 0 <= i < sysex_packets(cable, s).len() implies (
        #[trigger] sysex_packets(cable, s)[i]).len() == 4 by {
            if i > 0 {
                assert(sysex_packets(cable, s)[i] == rest[i - 1]);
            }
        }
    }
}

/// The header byte of a packet on cable `c` with code index `cin`.
pub open spec fn header(c: u8, cin: u8) -> u8 {
    ((c << 4u8) | cin) as u8
}

/// A header byte splits back into its cable number and code index.
pub proof fn lemma_header(c: u8, cin: u8)
    requires
        c <= 15,
        cin <= 15,
    ensures
        header(c, cin) & 0x0f == cin,
        header(c, cin) >> 4u8 == c,
        (c << 4u8) | cin == header(c, cin),
        header(c, 0) | cin == header(c, cin),
{
    assert(((c << 4u8) | cin) & 0x0f == cin && ((c << 4u8) | cin) >> 4u8 == c && ((c << 4u8) | 0u8)
        | cin == (c << 4u8) | cin) by (bit_vector)
        requires
            c <= 15,
            cin <= 15,
    ;
}

/// The four-byte packets of a received buffer; a short tail is ignored.
pub open spec fn chunks4(buf: Seq<u8>) -> Seq<Seq<u8>> {
    Seq::new(buf.len() / 4, |i: int| buf.subrange(4 * i, 4 * i + 4))
}

/// Cutting the bytes of four-byte packets into chunks of four gives the packets.
pub proof fn lemma_chunks4_flatten(ps: Seq<Seq<u8>>)
    requires
        forall|i: int| 0 <= i < ps.len() ==> (#[trigger] ps[i]).len() == 4,
    ensures
        flatten(ps).len() == 4 * ps.len(),
        chunks4(flatten(ps)) == ps,
    decreases ps.len(),
{
    if ps.len() == 0 {
        assert(chunks4(flatten(ps)) =~= ps);
    } else {
        let tail = ps.skip(1);
        assert forall|i: int| 0 <= i < tail.len() implies (#[trigger] tail[i]).len() == 4 by {
            assert(tail[i] == ps[i + 1]);
        }
        lemma_chunks4_flatten(tail);
        let f = flatten(ps);
        assert(f == ps[0] + flatten(tail));
        assert forall|i: int| 0 <= i < ps.len() implies #[trigger] chunks4(f)[i] == ps[i] by {
            if i == 0 {
                assert(f.subrange(0, 4) =~= ps[0]);
            } else {
                assert(f.subrange(4 * i, 4 * i + 4) =~= flatten(tail).subrange(
                    4 * (i - 1),
                    4 * (i - 1) + 4,
                ));
                assert(chunks4(flatten(tail))[i - 1] == tail[i - 1]);
            }
        }
        assert(chunks4(f) =~= ps);
    }
}

/// Appending a packet appends its bytes.
pub proof fn lemma_flatten_push(ps: Seq<Seq<u8>>, p: Seq<u8>)
    ensures
        flatten(ps.push(p)) == flatten(ps) + p,
    decreases ps.len(),
{
    if ps.len() == 0 {
        assert(flatten(ps.push(p)) == p + flatten(ps.push(p).skip(1)));
        assert(ps.push(p).skip(1) =~= Seq::<Seq<u8>>::empty());
        assert(flatten(ps.push(p)) =~= flatten(ps) + p);
    } else {
        lemma_flatten_push(ps.skip(1), p);
        assert(ps.push(p).skip(1) =~= ps.skip(1).push(p));
        assert(flatten(ps.push(p)) =~= flatten(ps) + p);
    }
}

/// The packets held in `v`, as byte sequences.
pub open spec fn packet_bytes(v: Seq<UsbMidiPacket>) -> Seq<Seq<u8>> {
    v.map_values(|p: UsbMidiPacket| p.bytes())
}

} // verus!
