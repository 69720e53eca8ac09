//! The USB-MIDI logic of the Launchpad S and Mini: received packets become
//! MIDI events, outgoing byte streams become packets, and control requests
//! on endpoint 0 are answered.
//!
//! The registers and packet memory of the USB peripheral stay with the
//! caller; these functions decide what is written there.

use vstd::prelude::*;
use crate::app::MidiEvent;
use crate::sys::midi::MidiPort;
use crate::sys::usb_midi::{
    chunks4, flatten, packet_bytes, short_format, short_message_format, short_packet,
    sysex_cont_packet, UsbMidiPacket,
};
use super::descriptors::{descriptor, descriptor_bytes, Model};
use super::ring::Ring;

verus! {

/// Largest packet on any endpoint.
pub const EP_MAX_PACKET: usize = 64;

/// Packets that fit in one IN transfer.
pub const MIDI_TX_MAX_PACKET_COUNT: usize = 16;

/// Size of the receive and transmit rings.
pub const MIDI_QUEUE_SIZE: usize = 64;

/// What a received packet stands for: its cable's port and, by CIN, how many
/// of its three bytes are MIDI data; `None` for reserved code indexes.
pub open spec fn packet_event(p: Seq<u8>) -> Option<MidiEvent> {
    let cin = p[0] & 0x0f;
    let cable = p[0] >> 4u8;
    let port = if cable == 0 {
        MidiPort::Daw
    } else if cable == 1 {
        MidiPort::Midi
    } else {
        MidiPort::Din
    };
    let len: int = if cin == 0x5 || cin == 0xf {
        1
    } else if cin == 0x2 || cin == 0x6 || cin == 0xc || cin == 0xd {
        2
    } else if cin == 0x3 || cin == 0x4 || cin == 0x7 || (0x8 <= cin <= 0xb) || cin == 0xe {
        3
    } else {
        0
    };
    if len == 0 {
        None
    } else {
        Some(
            MidiEvent {
                port,
                status: p[1],
                data1: if len > 1 {
                    p[2]
                } else {
                    0
                },
                data2: if len > 2 {
                    p[3]
                } else {
                    0
                },
            },
        )
    }
}

/// The events of the packets `ps`, in order.
pub open spec fn packet_events(ps: Seq<Seq<u8>>) -> Seq<MidiEvent>
    decreases ps.len(),
{
    if ps.len() == 0 {
        Seq::empty()
    } else {
        let before = packet_events(ps.drop_last());
        match packet_event(ps.last()) {
            Some(e) => before.push(e),
            None => before,
        }
    }
}

/// `q` after pushing each of `es` into a ring that holds `cap` items at most:
/// what does not fit is dropped.
pub open spec fn push_all<T>(q: Seq<T>, es: Seq<T>, cap: int) -> Seq<T> {
    if q.len() + es.len() <= cap {
        q + es
    } else {
        q + es.take(cap - q.len())
    }
}

/// Index, within `d`, just past the sysex message that starts it: through the
/// first `F7` at or after `i`, or to the end of `d`.
pub open spec fn sysex_end(d: Seq<u8>, i: int) -> int
    decreases d.len() - i,
{
    if i >= d.len() {
        d.len() as int
    } else if d[i] == 0xf7 {
        i + 1
    } else {
        sysex_end(d, i + 1)
    }
}

/// The packets of one sysex message `s` in a byte stream: CIN 4 while more
/// than three bytes remain; a last group of three is CIN 7 only when it ends
/// in `F7`; a last group of one or two is CIN 5 or 6.
pub open spec fn stream_sysex_packets(cable: u8, s: Seq<u8>) -> Seq<Seq<u8>>
    decreases s.len(),
{
    if s.len() == 0 {
        Seq::empty()
    } else if s.len() > 3 {
        seq![sysex_cont_packet(cable, s)] + stream_sysex_packets(cable, s.skip(3))
    } else if s.len() == 3 {
        seq![seq![cable | if s[2] == 0xf7 { 7u8 } else { 4u8 }, s[0], s[1], s[2]]]
    } else if s.len() == 2 {
        seq![seq![cable | 6u8, s[0], s[1], 0u8]]
    } else {
        seq![seq![cable | 5u8, s[0], 0u8, 0u8]]
    }
}

/// `o` with `pre` in front, when there is a value.
pub open spec fn prefixed(pre: Seq<Seq<u8>>, o: Option<Seq<Seq<u8>>>) -> Option<Seq<Seq<u8>>> {
    match o {
        Some(rest) => Some(pre + rest),
        None => None,
    }
}

/// The packets of the byte stream `d` on `cable` when `room` packets are
/// left; `None` when they do not fit.
///
/// A sysex message runs to its `F7` (or the end); a short message takes the
/// bytes its status asks for and ends the stream when they are missing; a
/// byte that starts neither is skipped.
pub open spec fn stream_packets(d: Seq<u8>, cable: u8, room: nat) -> Option<Seq<Seq<u8>>>
    decreases d.len(),
{
    if d.len() == 0 {
        Some(Seq::empty())
    } else if room == 0 {
        None
    } else if d[0] == 0xf0 {
        let l = sysex_end(d, 0);
        proof {
            lemma_sysex_end_bounds(d, 0);
        }
        let ps = stream_sysex_packets(cable, d.take(l));
        if ps.len() > room {
            None
        } else {
            prefixed(ps, stream_packets(d.skip(l), cable, (room - ps.len()) as nat))
        }
    } else {
        match short_format(d[0]) {
            None => stream_packets(d.skip(1), cable, room),
            Some((cin, len)) => if len > d.len() {
                Some(Seq::empty())
            } else {
                prefixed(
                    seq![short_packet(cable, cin, d.take(len as int))],
                    stream_packets(d.skip(len as int), cable, (room - 1) as nat),
                )
            },
        }
    }
}

/// The end of a sysex message lies after its start and within the stream.
pub proof fn lemma_sysex_end_bounds(d: Seq<u8>, i: int)
    requires
        0 <= i,
    ensures
        i <= d.len() ==> i <= sysex_end(d, i) <= d.len(),
        i < d.len() ==> i < sysex_end(d, i),
    decreases d.len() - i,
{
    if i < d.len() && d[i] != 0xf7 {
        lemma_sysex_end_bounds(d, i + 1);
    }
}

proof fn lemma_stream_sysex_count(cable: u8, s: Seq<u8>)
    ensures
        s.len() > 0 ==> stream_sysex_packets(cable, s).len() >= 1,
        s.len() > 3 ==> stream_sysex_packets(cable, s).len() == 1 + stream_sysex_packets(
            cable,
            s.skip(3),
        ).len(),
{
}

/// The packets of an outgoing byte stream on `cable`; fails when they need
/// more than sixteen packets.
pub fn convert_midi_stream_to_packets(data: &[u8], cable: u8) -> (r: Result<Vec<UsbMidiPacket>, ()>)
    ensures
        r is Err <==> stream_packets(data@, cable, MIDI_TX_MAX_PACKET_COUNT as nat) is None,
        r matches Ok(v) ==> Some(packet_bytes(v@)) == stream_packets(
            data@,
            cable,
            MIDI_TX_MAX_PACKET_COUNT as nat,
        ),
{
    let mut out: Vec<UsbMidiPacket> = Vec::new();
    if data.len() == 0 {
        assert(packet_bytes(out@) =~= Seq::<Seq<u8>>::empty());
        return Ok(out);
    }
    let mut src: usize = 0;
    assert(data@.skip(0) =~= data@);
    assert(prefixed(packet_bytes(out@), stream_packets(data@, cable, 16)) == stream_packets(
        data@,
        cable,
        16,
    )) by {
        assert(packet_bytes(out@) =~= Seq::<Seq<u8>>::empty());
        if let Some(ps) = stream_packets(data@, cable, 16) {
            assert(Seq::<Seq<u8>>::empty() + ps =~= ps);
        }
    }
    while src < data.len()
        invariant
            src <= data.len(),
            out.len() <= MIDI_TX_MAX_PACKET_COUNT,
            stream_packets(data@, cable, 16) == prefixed(
                packet_bytes(out@),
                stream_packets(data@.skip(src as int), cable, (16 - out.len()) as nat),
            ),
        decreases data.len() - src,
    {
        if out.len() >= MIDI_TX_MAX_PACKET_COUNT {
            return Err(());
        }
        let ghost d = data@.skip(src as int);
        let ghost room = (16 - out.len()) as nat;
        let status = data[src];
        if status == 0xf0 {
            let mut sysex_len: usize = 0;
            while src + sysex_len < data.len() && data[src + sysex_len] != 0xf7
                invariant
                    src < data.len(),
                    d == data@.skip(src as int),
                    src + sysex_len <= data.len(),
                    sysex_end(d, 0) == sysex_end(d, sysex_len as int),
                decreases data.len() - src - sysex_len,
            {
                sysex_len += 1;
            }
            if src + sysex_len < data.len() && data[src + sysex_len] == 0xf7 {
                sysex_len += 1;
            }
            proof {
                lemma_sysex_end_bounds(d, 0);
            }
            assert(sysex_len == sysex_end(d, 0));
            let ghost unit = d.take(sysex_len as int);
            let ghost out0 = packet_bytes(out@);
            assert(packet_bytes(out@).len() == out.len());
            let mut sub_src: usize = 0;
            assert(unit.skip(0) =~= unit);
            while sub_src < sysex_len
                invariant
                    src + sysex_len <= data.len(),
                    d == data@.skip(src as int),
                    unit == d.take(sysex_len as int),
                    sub_src <= sysex_len,
                    out0.len() <= out.len() <= MIDI_TX_MAX_PACKET_COUNT,
                    room == 16 - out0.len(),
                    room > 0,
                    d.len() > 0,
                    d[0] == 0xf0,
                    sysex_len == sysex_end(d, 0),
                    stream_packets(data@, cable, 16) == prefixed(
                        out0,
                        stream_packets(d, cable, room),
                    ),
                    packet_bytes(out@) + stream_sysex_packets(cable, unit.skip(sub_src as int))
                        == out0 + stream_sysex_packets(cable, unit),
                decreases sysex_len - sub_src,
            {
                if out.len() >= MIDI_TX_MAX_PACKET_COUNT {
                    proof {
                        lemma_stream_sysex_count(cable, unit.skip(sub_src as int));
                        assert(packet_bytes(out@).len() == out.len());
                        assert((packet_bytes(out@) + stream_sysex_packets(
                            cable,
                            unit.skip(sub_src as int),
                        )).len() == (out0 + stream_sysex_packets(cable, unit)).len());
                        assert(stream_sysex_packets(cable, unit).len() > room);
                    }
                    return Err(());
                }
                let rem = sysex_len - sub_src;
                let take = if rem < 3 {
                    rem
                } else {
                    3
                };
                let ghost s = unit.skip(sub_src as int);
                let b0 = data[src + sub_src];
                let b1 = if take > 1 {
                    data[src + sub_src + 1]
                } else {
                    0
                };
                let b2 = if take > 2 {
                    data[src + sub_src + 2]
                } else {
                    0
                };
                let cin: u8 = if take == 1 {
                    0x05
                } else if take == 2 {
                    0x06
                } else if sub_src + 3 == sysex_len && b2 == 0xf7 {
                    0x07
                } else {
                    0x04
                };
                let p = UsbMidiPacket::from_bytes(cable | cin, b0, b1, b2);
                proof {
                    assert(s[0] == b0);
                    if take > 1 {
                        assert(s[1] == b1);
                    }
                    if take > 2 {
                        assert(s[2] == b2);
                    }
                    assert(s.len() == rem);
                    assert(s.skip(take as int) =~= unit.skip(sub_src + take));
                    if rem > 3 {
                        assert(p.bytes() == sysex_cont_packet(cable, s));
                        assert(stream_sysex_packets(cable, s) == seq![p.bytes()]
                            + stream_sysex_packets(cable, s.skip(3)));
                    } else {
                        assert(s.skip(take as int) =~= Seq::<u8>::empty());
                        assert(stream_sysex_packets(cable, s) == seq![p.bytes()]);
                        assert(seq![p.bytes()] + stream_sysex_packets(cable, s.skip(take as int))
                            =~= seq![p.bytes()]);
                    }
                    assert(stream_sysex_packets(cable, s) =~= seq![p.bytes()]
                        + stream_sysex_packets(cable, unit.skip(sub_src + take)));
                    assert(packet_bytes(out@.push(p)) =~= packet_bytes(out@).push(p.bytes()));
                }
                out.push(p);
                sub_src += take;
            }
            proof {
                assert(unit.skip(sysex_len as int) =~= Seq::<u8>::empty());
                assert(packet_bytes(out@) =~= out0 + stream_sysex_packets(cable, unit));
                assert(d.skip(sysex_len as int) =~= data@.skip(src + sysex_len));
            }
            src += sysex_len;
        } else {
            match short_message_format(status) {
                None => {
                    assert(d.skip(1) =~= data@.skip(src + 1));
                    src += 1;
                },
                Some((cin, len)) => {
                    if len > data.len() - src {
                        assert(packet_bytes(out@) + Seq::<Seq<u8>>::empty() =~= packet_bytes(out@));
                        return Ok(out);
                    }
                    let b1 = if len > 1 {
                        data[src + 1]
                    } else {
                        0
                    };
                    let b2 = if len > 2 {
                        data[src + 2]
                    } else {
                        0
                    };
                    let p = UsbMidiPacket::from_bytes(cable | cin, status, b1, b2);
                    proof {
                        assert(p.bytes() == short_packet(cable, cin, d.take(len as int)));
                        assert(d.skip(len as int) =~= data@.skip(src + len));
                        assert(packet_bytes(out@.push(p)) =~= packet_bytes(out@).push(p.bytes()));
                        if let Some(rest) = stream_packets(
                            d.skip(len as int),
                            cable,
                            (room - 1) as nat,
                        ) {
                            assert(packet_bytes(out@) + (seq![p.bytes()] + rest) =~= packet_bytes(
                                out@,
                            ).push(p.bytes()) + rest);
                        }
                    }
                    out.push(p);
                    src += len;
                },
            }
        }
    }
    proof {
        assert(data@.skip(src as int) =~= Seq::<u8>::empty());
        assert(packet_bytes(out@) + Seq::<Seq<u8>>::empty() =~= packet_bytes(out@));
    }
    Ok(out)
}

/// The cable byte of a port number: port 1 is cable 1, every other port cable 0.
pub open spec fn port_cable_byte(port: u8) -> u8 {
    if port == 1 {
        0x10
    } else {
        0x00
    }
}

/// The reply being sent on endpoint 0 and the device's address and
/// configuration as the host set them.
pub struct ControlState {
    pub pending_address: u8,
    pub configuration: u8,
    pub tx_data: Vec<u8>,
    pub tx_pos: usize,
    pub tx_zlp: bool,
    pub ep0_max: usize,
}

/// The control state as the contracts see it: pending address,
/// configuration, reply bytes, bytes of the reply already sent, and whether a
/// zero-length packet ends the reply.
pub type ControlView = (u8, u8, Seq<u8>, int, bool);

/// What endpoint 0 must do after a SETUP packet.
#[derive(Debug)]
pub enum SetupAction {
    /// Stall both directions.
    Stall,
    /// Send this packet and accept the next OUT packet.
    Send(Vec<u8>),
    /// Arm the MIDI endpoints, then send this packet.
    ConfigureAndSend(Vec<u8>),
}

/// What endpoint 0 must do once an IN packet was taken by the host.
#[derive(Debug)]
pub enum Ep0TxAction {
    /// Switch to this device address.
    SetAddress(u8),
    /// Send this next packet of the reply.
    Send(Vec<u8>),
    /// The reply is done: accept the next OUT packet.
    Receive,
}

/// Kind (0 stall, 1 send, 2 configure and send) and packet of a setup action.
pub open spec fn setup_action_view(a: SetupAction) -> (u8, Seq<u8>) {
    match a {
        SetupAction::Stall => (0, Seq::empty()),
        SetupAction::Send(p) => (1, p@),
        SetupAction::ConfigureAndSend(p) => (2, p@),
    }
}

/// The next packet of the reply, of at most `max` bytes, and the position
/// after it.
pub open spec fn next_packet(c: ControlView, max: int) -> (ControlView, Seq<u8>) {
    let (a, cfg, data, pos, zlp) = c;
    let remain = if data.len() > pos { data.len() - pos } else { 0 };
    let n = if remain < max { remain } else { max };
    ((a, cfg, data, pos + n, zlp), data.subrange(pos, pos + n))
}

/// Starts sending `d` in reply to a request for `requested` bytes: at most
/// that many bytes are sent, and a reply that is shorter than asked for and
/// fills its last packet ends with a zero-length packet.
pub open spec fn start_read(c: ControlView, d: Seq<u8>, requested: int, max: int) -> (
    ControlView,
    Seq<u8>,
) {
    let len = if d.len() < requested { d.len() as int } else { requested };
    let zlp = len != 0 && len % max == 0 && requested > len;
    next_packet((c.0, c.1, d.take(len), 0, zlp), max)
}

/// Acknowledges a request with no data: an empty packet and no reply pending.
pub open spec fn status_stage(c: ControlView) -> (ControlView, Seq<u8>) {
    ((c.0, c.1, Seq::empty(), 0, false), Seq::empty())
}

/// The bytes of a descriptor, if there is one.
pub open spec fn opt_bytes(d: Option<Vec<u8>>) -> Option<Seq<u8>> {
    match d {
        Some(v) => Some(v@),
        None => None,
    }
}

/// What a SETUP packet does to the control state, and what endpoint 0 does,
/// given the descriptor it would ask for and the control packet size.
pub open spec fn setup_effect(c: ControlView, desc: Option<Seq<u8>>, setup: Seq<u8>, max: int) -> (
    ControlView,
    (u8, Seq<u8>),
) {
    let bm = setup[0];
    let request = setup[1];
    let value = setup[2] + 256 * setup[3];
    let index = setup[4] + 256 * setup[5];
    let length = setup[6] + 256 * setup[7];
    let dir_in = bm & 0x80 != 0;
    let send = |x: (ControlView, Seq<u8>)| (x.0, (1u8, x.1));
    if bm & 0x60 != 0 {
        (c, (0, Seq::empty()))
    } else if dir_in && request == 0x06 {
        match desc {
            Some(d) => send(start_read(c, d, length, max)),
            None => (c, (0, Seq::empty())),
        }
    } else if !dir_in && request == 0x05 {
        send(status_stage((setup[2] & 0x7f, c.1, c.2, c.3, c.4)))
    } else if !dir_in && request == 0x09 && value <= 1 {
        let x = status_stage((c.0, setup[2], c.2, c.3, c.4));
        (x.0, (if value != 0 { 2u8 } else { 1u8 }, x.1))
    } else if dir_in && request == 0x08 {
        send(start_read(c, seq![c.1], length, max))
    } else if dir_in && request == 0x00 {
        send(start_read(c, seq![0u8, 0u8], length, max))
    } else if !dir_in && request == 0x01 {
        send(status_stage(c))
    } else if dir_in && request == 0x0a && index <= 1 {
        send(start_read(c, seq![0u8], length, max))
    } else if !dir_in && request == 0x0b && index <= 1 && value == 0 {
        send(status_stage(c))
    } else {
        (c, (0, Seq::empty()))
    }
}

impl ControlState {
    /// No address pending, unconfigured, no reply under way, control
    /// packets of `EP_MAX_PACKET` bytes.
    pub fn new() -> (r: ControlState)
        ensures
            r.view() == (0u8, 0u8, Seq::<u8>::empty(), 0int, false),
            r.ep0_max == EP_MAX_PACKET,
    {
        Self::with_max_packet(EP_MAX_PACKET)
    }

    /// No address pending, unconfigured, no reply under way, control
    /// packets of `ep0_max` bytes.
    pub fn with_max_packet(ep0_max: usize) -> (r: ControlState)
        requires
            ep0_max > 0,
        ensures
            r.view() == (0u8, 0u8, Seq::<u8>::empty(), 0int, false),
            r.ep0_max == ep0_max,
    {
        ControlState {
            pending_address: 0,
            configuration: 0,
            tx_data: Vec::new(),
            tx_pos: 0,
            tx_zlp: false,
            ep0_max,
        }
    }

    /// The control state of the contracts.
    pub open spec fn view(self) -> ControlView {
        (self.pending_address, self.configuration, self.tx_data@, self.tx_pos as int, self.tx_zlp)
    }

    /// The next packet of the reply; the position moves past it.
    pub fn send_next_ep0_packet(&mut self) -> (r: Vec<u8>)
        requires
            old(self).tx_pos <= old(self).tx_data.len(),
        ensures
            final(self).tx_pos <= final(self).tx_data.len(),
            final(self).ep0_max == old(self).ep0_max,
            (final(self).view(), r@) == next_packet(old(self).view(), old(self).ep0_max as int),
    {
        let remain = self.tx_data.len() - self.tx_pos;
        let len = if remain < self.ep0_max {
            remain
        } else {
            self.ep0_max
        };
        let mut packet: Vec<u8> = Vec::new();
        let mut i: usize = 0;
        while i < len
            invariant
                i <= len,
                self.tx_pos + len <= self.tx_data.len(),
                packet@ == self.tx_data@.subrange(self.tx_pos as int, self.tx_pos + i),
            decreases len - i,
        {
            packet.push(self.tx_data[self.tx_pos + i]);
            i += 1;
            assert(packet@ =~= self.tx_data@.subrange(self.tx_pos as int, self.tx_pos + i));
        }
        self.tx_pos = self.tx_pos + len;
        packet
    }

    /// Starts sending `data` in reply to a request for `requested_len` bytes
    /// and gives the first packet.
    pub fn start_control_read(&mut self, data: &[u8], requested_len: usize) -> (r: Vec<u8>)
        requires
            old(self).ep0_max > 0,
        ensures
            final(self).tx_pos <= final(self).tx_data.len(),
            final(self).ep0_max == old(self).ep0_max,
            (final(self).view(), r@) == start_read(
                old(self).view(),
                data@,
                requested_len as int,
                old(self).ep0_max as int,
            ),
    {
        let len = if data.len() < requested_len {
            data.len()
        } else {
            requested_len
        };
        let mut tx: Vec<u8> = Vec::new();
        let mut i: usize = 0;
        while i < len
            invariant
                i <= len <= data.len(),
                tx@ == data@.take(i as int),
            decreases len - i,
        {
            tx.push(data[i]);
            i += 1;
            assert(tx@ =~= data@.take(i as int));
        }
        self.tx_data = tx;
        self.tx_pos = 0;
        self.tx_zlp = len != 0 && len % self.ep0_max == 0 && requested_len > len;
        self.send_next_ep0_packet()
    }

    /// Ends a request without data: an empty packet.
    pub fn status_in(&mut self) -> (r: Vec<u8>)
        ensures
            final(self).tx_pos <= final(self).tx_data.len(),
            final(self).ep0_max == old(self).ep0_max,
            (final(self).view(), r@) == status_stage(old(self).view()),
    {
        self.tx_data = Vec::new();
        self.tx_pos = 0;
        self.tx_zlp = false;
        Vec::new()
    }

    /// Answers a SETUP packet for a model: standard requests to the device,
    /// its configuration and its interfaces; anything else stalls.
    pub fn handle_setup(&mut self, model: Model, setup: [u8; 8]) -> (r: SetupAction)
        requires
            old(self).tx_pos <= old(self).tx_data.len(),
            old(self).ep0_max > 0,
        ensures
            final(self).tx_pos <= final(self).tx_data.len(),
            final(self).ep0_max == old(self).ep0_max,
            (final(self).view(), setup_action_view(r)) == setup_effect(
                old(self).view(),
                descriptor_bytes(model, setup@[3], setup@[2]),
                setup@,
                old(self).ep0_max as int,
            ),
    {
        let desc = descriptor(model, setup[3], setup[2]);
        self.handle_setup_with(desc, setup)
    }

    /// Answers a SETUP packet, `desc` being the descriptor of the type and
    /// index the packet names, if the device has one.
    pub fn handle_setup_with(&mut self, desc: Option<Vec<u8>>, setup: [u8; 8]) -> (r: SetupAction)
        requires
            old(self).tx_pos <= old(self).tx_data.len(),
            old(self).ep0_max > 0,
        ensures
            final(self).tx_pos <= final(self).tx_data.len(),
            final(self).ep0_max == old(self).ep0_max,
            (final(self).view(), setup_action_view(r)) == setup_effect(
                old(self).view(),
                opt_bytes(desc),
                setup@,
                old(self).ep0_max as int,
            ),
    {
        let bm_request_type = setup[0];
        let request = setup[1];
        let value: u16 = setup[2] as u16 + 256 * setup[3] as u16;
        let index: u16 = setup[4] as u16 + 256 * setup[5] as u16;
        let length: usize = setup[6] as usize + 256 * setup[7] as usize;
        if bm_request_type & 0x60 != 0 {
            return SetupAction::Stall;
        }
        let dir_in = bm_request_type & 0x80 != 0;
        if dir_in && request == 0x06 {
            match desc {
                Some(data) => SetupAction::Send(self.start_control_read(data.as_slice(), length)),
                None => SetupAction::Stall,
            }
        } else if !dir_in && request == 0x05 {
            self.pending_address = setup[2] & 0x7f;
            SetupAction::Send(self.status_in())
        } else if !dir_in && request == 0x09 && value <= 1 {
            self.configuration = setup[2];
            let packet = self.status_in();
            if value != 0 {
                SetupAction::ConfigureAndSend(packet)
            } else {
                SetupAction::Send(packet)
            }
        } else if dir_in && request == 0x08 {
            let reply = vec![self.configuration];
            assert(reply@ =~= seq![old(self).configuration]);
            SetupAction::Send(self.start_control_read(reply.as_slice(), length))
        } else if dir_in && request == 0x00 {
            let reply = vec![0u8, 0u8];
            assert(reply@ =~= seq![0u8, 0u8]);
            SetupAction::Send(self.start_control_read(reply.as_slice(), length))
        } else if !dir_in && request == 0x01 {
            SetupAction::Send(self.status_in())
        } else if dir_in && request == 0x0a && index <= 1 {
            let reply = vec![0u8];
            assert(reply@ =~= seq![0u8]);
            SetupAction::Send(self.start_control_read(reply.as_slice(), length))
        } else if !dir_in && request == 0x0b && index <= 1 && value == 0 {
            SetupAction::Send(self.status_in())
        } else {
            SetupAction::Stall
        }
    }

    /// What endpoint 0 does once the host took an IN packet: apply a pending
    /// address, send the rest of the reply, or wait for the next request.
    pub fn ep0_tx_complete(&mut self) -> (r: Ep0TxAction)
        requires
            old(self).tx_pos <= old(self).tx_data.len(),
        ensures
            final(self).tx_pos <= final(self).tx_data.len(),
            final(self).ep0_max == old(self).ep0_max,
            old(self).pending_address != 0 ==> r == Ep0TxAction::SetAddress(
                old(self).pending_address,
            ) && final(self).view() == (
                0u8,
                old(self).configuration,
                old(self).tx_data@,
                old(self).tx_pos as int,
                old(self).tx_zlp,
            ),
            old(self).pending_address == 0 && (old(self).tx_pos < old(self).tx_data.len()
                || old(self).tx_zlp) ==> (r matches Ep0TxAction::Send(p) && (final(self).view(), p@)
                == next_packet(old(self).view(), old(self).ep0_max as int)),
            old(self).pending_address == 0 && old(self).tx_pos >= old(self).tx_data.len()
                && !old(self).tx_zlp ==> r == Ep0TxAction::Receive && *final(self) == *old(self),
    {
        if self.pending_address != 0 {
            let address = self.pending_address;
            self.pending_address = 0;
            Ep0TxAction::SetAddress(address)
        } else if self.tx_pos < self.tx_data.len() || self.tx_zlp {
            Ep0TxAction::Send(self.send_next_ep0_packet())
        } else {
            Ep0TxAction::Receive
        }
    }
}

/// The RX field of a buffer descriptor for a receive buffer of `size` bytes:
/// two-byte blocks up to 62 bytes, otherwise 32-byte blocks with the block
/// size bit set.
pub fn rx_count(size: usize) -> (r: u16)
    requires
        size <= 1024,
    ensures
        size <= 62 ==> r == (size + 1) / 2 * 1024,
        size > 62 ==> r == 0x8000 + ((size + 31) / 32 - 1) * 1024,
{
    let s = size as u16;
    if size <= 62 {
        let blocks: u16 = (s + 1) / 2;
        assert(blocks <= 31);
        assert((blocks << 10u16) & 0x7c00 == blocks * 1024) by (bit_vector)
            requires
                blocks <= 31,
        ;
        (blocks << 10) & 0x7c00
    } else {
        let blocks: u16 = (s + 31) / 32 - 1;
        assert(blocks <= 31);
        assert(0x8000 | (blocks << 10u16) == 0x8000 + blocks * 1024) by (bit_vector)
            requires
                blocks <= 31,
        ;
        0x8000 | (blocks << 10)
    }
}

/// The state of the USB interface: the transmit and receive rings and the
/// control endpoint.
pub struct UsbState {
    pub tx_queue: Ring<UsbMidiPacket, MIDI_QUEUE_SIZE>,
    pub rx_queue: Ring<MidiEvent, MIDI_QUEUE_SIZE>,
    pub control: ControlState,
}

impl UsbState {
    /// Both rings are well formed and the reply position is within the reply.
    pub open spec fn wf(self) -> bool {
        &&& self.tx_queue.wf()
        &&& self.rx_queue.wf()
        &&& self.control.tx_pos <= self.control.tx_data.len()
        &&& self.control.ep0_max == EP_MAX_PACKET
    }

    /// Empty rings, no reply under way, unconfigured.
    pub fn new() -> (r: UsbState)
        ensures
            r.wf(),
            r.tx_queue.view() == Seq::<UsbMidiPacket>::empty(),
            r.rx_queue.view() == Seq::<MidiEvent>::empty(),
            r.control.view() == (0u8, 0u8, Seq::<u8>::empty(), 0int, false),
    {
        UsbState {
            tx_queue: Ring::new(UsbMidiPacket::from_bytes(0, 0, 0, 0)),
            rx_queue: Ring::new(MidiEvent { port: MidiPort::Daw, status: 0, data1: 0, data2: 0 }),
            control: ControlState::new(),
        }
    }

    /// Queues the MIDI events of a buffer received on the OUT endpoint;
    /// events that find the ring full are dropped.
    pub fn parse_usb_midi_packets(&mut self, buf: &[u8])
        requires
            old(self).wf(),
        ensures
            final(self).wf(),
            final(self).rx_queue.view() == push_all(
                old(self).rx_queue.view(),
                packet_events(chunks4(buf@)),
                MIDI_QUEUE_SIZE - 1,
            ),
            final(self).tx_queue == old(self).tx_queue,
            final(self).control == old(self).control,
    {
        let ghost ps = chunks4(buf@);
        let ghost start = self.rx_queue.view();
        let mut offset: usize = 0;
        assert(ps.take(0) =~= Seq::<Seq<u8>>::empty());
        assert(push_all(start, Seq::<MidiEvent>::empty(), 63) =~= start);
        while buf.len() - offset >= 4
            invariant
                offset % 4 == 0,
                offset <= buf.len(),
                ps == chunks4(buf@),
                start.len() <= 63,
                self.wf(),
                self.rx_queue.view() == push_all(start, packet_events(ps.take((offset / 4) as int)), 63),
                self.tx_queue == old(self).tx_queue,
                self.control == old(self).control,
            decreases buf.len() - offset,
        {
            let ghost i: int = (offset / 4) as int;
            let b0 = buf[offset];
            let cin = b0 & 0x0f;
            let cable = b0 >> 4;
            let port = if cable == 0 {
                MidiPort::Daw
            } else if cable == 1 {
                MidiPort::Midi
            } else {
                MidiPort::Din
            };
            let len: usize = if cin == 0x5 || cin == 0xf {
                1
            } else if cin == 0x2 || cin == 0x6 || cin == 0xc || cin == 0xd {
                2
            } else if cin == 0x3 || cin == 0x4 || cin == 0x7 || (0x8 <= cin && cin <= 0xb) || cin
                == 0xe {
                3
            } else {
                0
            };
            let ghost es = packet_events(ps.take(i));
            proof {
                assert(ps[i] == buf@.subrange(offset as int, offset + 4));
                assert(ps.take(i + 1).drop_last() =~= ps.take(i));
                assert(ps.take(i + 1).last() == ps[i]);
            }
            if len > 0 {
                let event = MidiEvent {
                    port,
                    status: buf[offset + 1],
                    data1: if len > 1 {
                        buf[offset + 2]
                    } else {
                        0
                    },
                    data2: if len > 2 {
                        buf[offset + 3]
                    } else {
                        0
                    },
                };
                assert(packet_event(ps[i]) == Some(event));
                let _ = self.rx_queue.push(event);
                proof {
                    assert(packet_events(ps.take(i + 1)) == es.push(event));
                    if start.len() + es.len() < 63 {
                        assert(push_all(start, es.push(event), 63) =~= push_all(start, es, 63).push(
                            event,
                        ));
                    } else {
                        assert(push_all(start, es.push(event), 63) =~= push_all(start, es, 63));
                    }
                }
            } else {
                assert(packet_event(ps[i]) is None);
            }
            offset += 4;
        }
        assert(ps.take((offset / 4) as int) =~= ps);
    }

    /// Takes the oldest received MIDI event.
    pub fn dequeue_midi_event(&mut self) -> (r: Option<MidiEvent>)
        requires
            old(self).wf(),
        ensures
            final(self).wf(),
            old(self).rx_queue.view().len() == 0 ==> r is None,
            old(self).rx_queue.view().len() > 0 ==> r == Some(old(self).rx_queue.view()[0])
                && final(self).rx_queue.view() == old(self).rx_queue.view().drop_first(),
            final(self).tx_queue == old(self).tx_queue,
            final(self).control == old(self).control,
    {
        self.rx_queue.pop()
    }

    /// Queues the packets of an outgoing byte stream on port 0 (cable 0) or
    /// port 1 (cable 1); any other port uses cable 0.
    ///
    /// `false` when the stream needs more than sixteen packets (nothing is
    /// queued) or the ring fills up (the packets that fit stay queued).
    pub fn enqueue_tx_message(&mut self, port: u8, data: &[u8]) -> (r: bool)
        requires
            old(self).wf(),
        ensures
            final(self).wf(),
            final(self).rx_queue == old(self).rx_queue,
            final(self).control == old(self).control,
            ({
                let q = packet_bytes(old(self).tx_queue.view());
                match stream_packets(data@, port_cable_byte(port), 16) {
                    None => !r && final(self).tx_queue.view() == old(self).tx_queue.view(),
                    Some(ps) => r == (q.len() + ps.len() <= MIDI_QUEUE_SIZE - 1) && packet_bytes(
                        final(self).tx_queue.view(),
                    ) == push_all(q, ps, MIDI_QUEUE_SIZE - 1),
                }
            }),
    {
        let cable: u8 = if port == 1 {
            0x10
        } else {
            0x00
        };
        let packets = match convert_midi_stream_to_packets(data, cable) {
            Ok(p) => p,
            Err(()) => return false,
        };
        let ghost start = self.tx_queue.view();
        let ghost all = packet_bytes(packets@);
        let mut i: usize = 0;
        assert(packet_bytes(start) + all.take(0) =~= packet_bytes(start));
        while i < packets.len()
            invariant
                i <= packets.len(),
                all == packet_bytes(packets@),
                stream_packets(data@, port_cable_byte(port), 16) == Some(all),
                start == old(self).tx_queue.view(),
                start.len() <= 63,
                start.len() + i <= 63,
                self.wf(),
                packet_bytes(self.tx_queue.view()) == packet_bytes(start) + all.take(i as int),
                self.rx_queue == old(self).rx_queue,
                self.control == old(self).control,
            decreases packets.len() - i,
        {
            let ghost before = self.tx_queue.view();
            if !self.tx_queue.push(packets[i]) {
                proof {
                    assert(packet_bytes(before).len() == before.len());
                    assert(all.len() == packets.len());
                    assert(packet_bytes(start).len() == start.len());
                    assert((packet_bytes(start) + all.take(i as int)).len() == start.len() + i);
                    assert(start.len() + i == 63);
                    assert(stream_packets(data@, port_cable_byte(port), 16) == Some(all));
                    assert(!(packet_bytes(start).len() + all.len() <= 63));
                    assert(push_all(packet_bytes(start), all, 63) =~= packet_bytes(start)
                        + all.take(i as int));
                }
                return false;
            }
            proof {
                assert(packet_bytes(before.push(packets[i as int])) =~= packet_bytes(before).push(
                    packets[i as int].bytes(),
                ));
                assert(packet_bytes(start) + all.take(i + 1) =~= (packet_bytes(start) + all.take(
                    i as int,
                )).push(all[i as int]));
                assert(packet_bytes(before).len() == before.len());
            }
            i += 1;
        }
        assert(all.take(i as int) =~= all);
        true
    }

    /// The payload for the IN endpoint: up to sixteen queued packets, oldest
    /// first. `None` when the endpoint is still busy or nothing is queued.
    pub fn pump_tx(&mut self, busy: bool) -> (r: Option<Vec<u8>>)
        requires
            old(self).wf(),
        ensures
            final(self).wf(),
            final(self).rx_queue == old(self).rx_queue,
            final(self).control == old(self).control,
            busy ==> r is None && final(self).tx_queue == old(self).tx_queue,
            !busy ==> ({
                let q = old(self).tx_queue.view();
                let k = if q.len() < 16 { q.len() as int } else { 16 };
                &&& r is None <==> q.len() == 0
                &&& r matches Some(payload) ==> payload@ == flatten(packet_bytes(q.take(k)))
                &&& final(self).tx_queue.view() == q.skip(k)
            }),
    {
        if busy {
            return None;
        }
        let ghost q = self.tx_queue.view();
        let mut payload: Vec<u8> = Vec::new();
        let mut count: usize = 0;
        assert(q.take(0) =~= Seq::<UsbMidiPacket>::empty());
        assert(q.skip(0) =~= q);
        assert(payload@ =~= flatten(packet_bytes(q.take(0))));
        while count + 4 <= EP_MAX_PACKET
            invariant_except_break
                count % 4 == 0,
                count <= EP_MAX_PACKET,
                count / 4 <= q.len(),
                self.tx_queue.view() == q.skip((count / 4) as int),
                payload@ == flatten(packet_bytes(q.take((count / 4) as int))),
                self.wf(),
                self.rx_queue == old(self).rx_queue,
                self.control == old(self).control,
            ensures
                count % 4 == 0,
                count <= EP_MAX_PACKET,
                count / 4 <= q.len(),
                count / 4 == q.len() || count == EP_MAX_PACKET,
                self.tx_queue.view() == q.skip((count / 4) as int),
                payload@ == flatten(packet_bytes(q.take((count / 4) as int))),
                self.wf(),
                self.rx_queue == old(self).rx_queue,
                self.control == old(self).control,
            decreases EP_MAX_PACKET - count,
        {
            let packet = match self.tx_queue.pop() {
                Some(p) => p,
                None => break,
            };
            proof {
                let k: int = (count / 4) as int;
                assert(packet == q[k]);
                crate::sys::usb_midi::lemma_flatten_push(
                    packet_bytes(q.take(k)),
                    packet.bytes(),
                );
                assert(packet_bytes(q.take(k + 1)) =~= packet_bytes(q.take(k)).push(
                    packet.bytes(),
                ));
                assert(q.skip(k).drop_first() =~= q.skip(k + 1));
            }
            payload.push(packet.data[0]);
            payload.push(packet.data[1]);
            payload.push(packet.data[2]);
            payload.push(packet.data[3]);
            count += 4;
            assert(payload@ =~= flatten(packet_bytes(q.take((count / 4) as int))));
        }
        if count > 0 {
            Some(payload)
        } else {
            None
        }
    }
}

} // verus!
