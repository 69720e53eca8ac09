//! The MIDI side of the Launchpad Pro MK3's USB interface: received packets
//! become MIDI events and reassembled sysex messages; queued outgoing messages
//! are sent as transfers of up to sixteen packets.

use vstd::prelude::*;
use crate::app::MidiEvent;
use crate::sys::midi::MidiPort;
use crate::sys::spsc::{midi_events, sysex_messages5, tx_messages, SpscQueue};
use crate::sys::usb_midi::{
    chunks4, flatten, header, lemma_chunks4_flatten, lemma_header, lemma_sysex_packet_count,
    short_format, short_message_format, short_packet, sysex_cont_packet, sysex_end_packet,
    sysex_packets, MidiTxMessage, SysexMessage,
};

verus! {

/// Longest sysex message kept; further bytes are dropped.
pub const SYSEX_MAX_LEN: usize = 600;

/// Longest message that can be queued for sending.
pub const MIDI_TX_MAX_LEN: usize = 600;

/// Packet slots in one IN transfer of 64 bytes.
pub const TRANSFER_SLOTS: usize = 16;

/// The receive state as the contracts see it: the sysex bytes gathered so far,
/// the port they came from, the queued events and the queued sysex messages.
pub type RxView = (Seq<u8>, MidiPort, Seq<MidiEvent>, Seq<(MidiPort, Seq<u8>)>);

/// Port and bytes of each queued sysex message.
pub open spec fn sysex_view(q: Seq<SysexMessage>) -> Seq<(MidiPort, Seq<u8>)> {
    q.map_values(|m: SysexMessage| (m.port, m.data@))
}

/// Appends `bytes` to the gathered sysex bytes, dropping what exceeds the limit.
pub open spec fn append_sysex(buf: Seq<u8>, bytes: Seq<u8>) -> Seq<u8> {
    if buf.len() + bytes.len() <= SYSEX_MAX_LEN {
        buf + bytes
    } else {
        (buf + bytes).take(SYSEX_MAX_LEN as int)
    }
}

/// Ends the gathered message: queues it (when there is one and the queue has
/// room) and empties the buffer.
pub open spec fn flush(st: RxView) -> RxView {
    let (buf, port, events, sysex) = st;
    if buf.len() == 0 {
        st
    } else if sysex.len() < 4 {
        (Seq::empty(), port, events, sysex.push((port, buf)))
    } else {
        (Seq::empty(), port, events, sysex)
    }
}

/// The port of a cable number: 0 and 1 are the DAW and MIDI ports, any
/// other number is the DIN port.
pub open spec fn cable_port(c: u8) -> MidiPort {
    if c == 0 {
        MidiPort::Daw
    } else if c == 1 {
        MidiPort::Midi
    } else {
        MidiPort::Din
    }
}

/// What one received packet `p` does to the receive state.
///
/// CIN 4 adds three sysex bytes, CIN 5, 6 and 7 add the last one to three and
/// end the message; any other packet whose status byte is not zero is queued
/// as a MIDI event.
pub open spec fn rx_step(st: RxView, p: Seq<u8>) -> RxView {
    let cin = p[0] & 0x0f;
    let port = cable_port(p[0] >> 4u8);
    let (buf, _, events, sysex) = st;
    if cin == 4 {
        (append_sysex(buf, p.subrange(1, 4)), port, events, sysex)
    } else if 5 <= cin <= 7 {
        flush((append_sysex(buf, p.subrange(1, cin - 3)), port, events, sysex))
    } else if p[1] != 0 && events.len() < 1024 {
        (
            buf,
            st.1,
            events.push(MidiEvent { port, status: p[1], data1: p[2], data2: p[3] }),
            sysex,
        )
    } else {
        st
    }
}

/// The receive state after the packets `ps`, in order.
pub open spec fn rx_fold(st: RxView, ps: Seq<Seq<u8>>) -> RxView
    decreases ps.len(),
{
    if ps.len() == 0 {
        st
    } else {
        rx_fold(rx_step(st, ps[0]), ps.skip(1))
    }
}

/// One transfer of a sysex message's packets with `slots` packet slots free:
/// CIN 4 packets while more than three bytes remain and a slot stays free
/// for what follows, then the end packet when the rest fits in it. Gives the
/// bytes to send and how many message bytes they carry.
pub open spec fn sysex_transfer(cable: u8, d: Seq<u8>, slots: nat) -> (Seq<u8>, nat)
    decreases d.len(),
{
    if d.len() == 0 || slots == 0 {
        (Seq::empty(), 0)
    } else if d.len() > 3 {
        if slots >= 2 {
            let rest = sysex_transfer(cable, d.skip(3), (slots - 1) as nat);
            (sysex_cont_packet(cable, d) + rest.0, 3 + rest.1)
        } else {
            (Seq::empty(), 0)
        }
    } else {
        (sysex_end_packet(cable, d), d.len())
    }
}

/// One transfer of the message `d` for `port`: a sysex message as
/// `sysex_transfer` cuts it, a short message as one packet; nothing for an
/// empty message, an unknown status byte or a short message missing bytes.
pub open spec fn usb_transfer(port: u8, d: Seq<u8>) -> (Seq<u8>, nat) {
    let cable = ((port & 0x0f) << 4u8) as u8;
    if d.len() == 0 {
        (Seq::empty(), 0)
    } else if d[0] == 0xf0 {
        sysex_transfer(cable, d, TRANSFER_SLOTS as nat)
    } else {
        match short_format(d[0]) {
            None => (Seq::empty(), 0),
            Some((cin, len)) => if d.len() < len {
                (Seq::empty(), 0)
            } else {
                (short_packet(cable, cin, d.take(len as int)), len as nat)
            },
        }
    }
}

/// All transfers of a sysex message, one after the other.
pub open spec fn sysex_transfers(cable: u8, d: Seq<u8>) -> Seq<u8>
    decreases d.len(),
{
    let (bytes, used) = sysex_transfer(cable, d, TRANSFER_SLOTS as nat);
    if d.len() == 0 || used == 0 || used > d.len() {
        Seq::empty()
    } else {
        bytes + sysex_transfers(cable, d.skip(used as int))
    }
}

/// Queues a message for sending on `port`.
///
/// Fails on an empty message, one longer than 600 bytes, and when the queue
/// is full; the queue is then left as it was.
pub fn enqueue_tx_message(queue: &mut SpscQueue<MidiTxMessage, 17>, port: u8, data: &[u8]) -> (r:
    Result<(), ()>)
    ensures
        r is Ok <==> (1 <= data.len() <= MIDI_TX_MAX_LEN && tx_messages(*old(queue)).len() < 16),
        r is Ok ==> tx_messages(*final(queue)).len() == tx_messages(*old(queue)).len() + 1
            && tx_messages(*final(queue)).drop_last() == tx_messages(*old(queue))
            && tx_messages(*final(queue)).last().port == port
            && tx_messages(*final(queue)).last().data@ == data@,
        r is Err ==> tx_messages(*final(queue)) == tx_messages(*old(queue)),
{
    if data.len() == 0 || data.len() > MIDI_TX_MAX_LEN {
        return Err(());
    }
    let message = MidiTxMessage { port, data: vstd::slice::slice_to_vec(data) };
    let ghost before = tx_messages(*queue);
    match queue.enqueue(message) {
        Ok(()) => {
            assert(tx_messages(*queue).drop_last() =~= before);
            Ok(())
        },
        Err(_) => Err(()),
    }
}

/// An empty queue of messages waiting to be sent.
pub fn new_tx_queue() -> (r: SpscQueue<MidiTxMessage, 17>)
    ensures
        tx_messages(r) == Seq::<MidiTxMessage>::empty(),
{
    SpscQueue::<MidiTxMessage, 17>::new()
}

/// Takes the oldest message waiting to be sent.
pub fn dequeue_tx_message(queue: &mut SpscQueue<MidiTxMessage, 17>) -> (r: Option<MidiTxMessage>)
    ensures
        tx_messages(*old(queue)).len() == 0 ==> r is None && tx_messages(*final(queue)) == tx_messages(
            *old(queue),
        ),
        tx_messages(*old(queue)).len() > 0 ==> r == Some(tx_messages(*old(queue))[0]) && tx_messages(
            *final(queue),
        ) == tx_messages(*old(queue)).drop_first(),
{
    queue.dequeue()
}

/// One transfer of a sysex message on `cable` (already in the high nibble):
/// the bytes to send and how many message bytes they carry.
pub fn encode_sysex_packets(cable: u8, data: &[u8]) -> (r: (Vec<u8>, usize))
    ensures
        (r.0@, r.1 as nat) == sysex_transfer(cable, data@, TRANSFER_SLOTS as nat),
{
    let mut out: Vec<u8> = Vec::new();
    let mut src: usize = 0;
    let mut slots: usize = TRANSFER_SLOTS;
    assert(data@.skip(0) =~= data@);
    assert(out@ + sysex_transfer(cable, data@, 16).0 =~= sysex_transfer(cable, data@, 16).0);
    while src < data.len() && slots > 0
        invariant
            src <= data.len(),
            slots <= TRANSFER_SLOTS,
            out@ + sysex_transfer(cable, data@.skip(src as int), slots as nat).0 == sysex_transfer(
                cable,
                data@,
                TRANSFER_SLOTS as nat,
            ).0,
            src + sysex_transfer(cable, data@.skip(src as int), slots as nat).1 == sysex_transfer(
                cable,
                data@,
                TRANSFER_SLOTS as nat,
            ).1,
        decreases data.len() - src, slots,
    {
        let remain = data.len() - src;
        let ghost d = data@.skip(src as int);
        let ghost out0 = out@;
        if remain > 3 && slots >= 2 {
            out.push(cable | 0x4);
            out.push(data[src]);
            out.push(data[src + 1]);
            out.push(data[src + 2]);
            proof {
                assert(d.skip(3) =~= data@.skip(src + 3));
                let rest = sysex_transfer(cable, d.skip(3), (slots - 1) as nat);
                assert(out@ =~= out0 + sysex_cont_packet(cable, d));
                assert(out@ + rest.0 =~= out0 + (sysex_cont_packet(cable, d) + rest.0));
            }
            src += 3;
            slots -= 1;
        } else if remain > 3 {
            slots = 0;
        } else {
            let cin: u8 = if remain == 1 {
                0x5
            } else if remain == 2 {
                0x6
            } else {
                0x7
            };
            out.push(cable | cin);
            out.push(data[src]);
            out.push(
                if remain > 1 {
                    data[src + 1]
                } else {
                    0
                },
            );
            out.push(
                if remain > 2 {
                    data[src + 2]
                } else {
                    0
                },
            );
            proof {
                assert(cin == (4 + d.len()) as u8);
                assert(out@ =~= out0 + sysex_end_packet(cable, d));
                assert(data@.skip(data.len() as int) =~= Seq::<u8>::empty());
                assert(out@ + Seq::<u8>::empty() =~= out@);
            }
            src = data.len();
        }
    }
    proof {
        if src == data.len() {
            assert(data@.skip(src as int) =~= Seq::<u8>::empty());
        }
        assert(out@ + Seq::<u8>::empty() =~= out@);
    }
    (out, src)
}

/// One transfer of the message `data` for `port`: the bytes to send and how
/// many message bytes they carry; nothing for an empty message, an unknown
/// status byte or a short message missing bytes.
pub fn encode_usb_midi_packets(port: u8, data: &[u8]) -> (r: (Vec<u8>, usize))
    ensures
        (r.0@, r.1 as nat) == usb_transfer(port, data@),
{
    if data.len() == 0 {
        return (Vec::new(), 0);
    }
    let cable = (port & 0x0f) << 4;
    if data[0] == 0xf0 {
        return encode_sysex_packets(cable, data);
    }
    let (cin, message_len) = match short_message_format(data[0]) {
        Some(x) => x,
        None => return (Vec::new(), 0),
    };
    if data.len() < message_len {
        return (Vec::new(), 0);
    }
    let mut out: Vec<u8> = Vec::new();
    out.push(cable | cin);
    out.push(data[0]);
    out.push(
        if message_len > 1 {
            data[1]
        } else {
            0
        },
    );
    out.push(
        if message_len > 2 {
            data[2]
        } else {
            0
        },
    );
    assert(out@ =~= short_packet(cable, cin, data@.take(message_len as int)));
    (out, message_len)
}

/// The next transfer of a queued message whose first `offset` bytes are
/// sent: sysex messages continue as sysex, other messages are sent one short
/// message at a time. `None` when nothing more can be sent.
pub fn next_tx_transfer(port: u8, data: &[u8], offset: usize) -> (r: Option<(Vec<u8>, usize)>)
    requires
        offset < data.len(),
    ensures
        ({
            let rest = data@.skip(offset as int);
            let t = if data[0] == 0xf0 {
                sysex_transfer(((port & 0x0f) << 4u8) as u8, rest, TRANSFER_SLOTS as nat)
            } else {
                usb_transfer(port, rest)
            };
            &&& r is None <==> (t.0.len() == 0 || t.1 == 0)
            &&& r matches Some(x) ==> (x.0@, x.1 as nat) == t
        }),
{
    let rest = &data[offset..data.len()];
    let (bytes, consumed) = if data[0] == 0xf0 {
        encode_sysex_packets((port & 0x0f) << 4, rest)
    } else {
        encode_usb_midi_packets(port, rest)
    };
    assert(rest@ =~= data@.skip(offset as int));
    if bytes.len() == 0 || consumed == 0 {
        None
    } else {
        Some((bytes, consumed))
    }
}

/// What a sysex transfer sends is the next packets of the whole message: its
/// bytes followed by the packets of the rest are the packets of all of it.
pub proof fn lemma_sysex_transfer_prefix(cable: u8, d: Seq<u8>, slots: nat)
    ensures
        d.len() > 0 && (slots >= 2 || (slots == 1 && d.len() <= 3)) ==> sysex_transfer(
            cable,
            d,
            slots,
        ).1 > 0,
        sysex_transfer(cable, d, slots).1 <= d.len(),
        sysex_transfer(cable, d, slots).0 + flatten(
            sysex_packets(cable, d.skip(sysex_transfer(cable, d, slots).1 as int)),
        ) == flatten(sysex_packets(cable, d)),
    decreases d.len(),
{
    let t = sysex_transfer(cable, d, slots);
    if d.len() > 3 {
        assert(sysex_packets(cable, d).skip(1) =~= sysex_packets(cable, d.skip(3)));
        if slots >= 2 {
            lemma_sysex_transfer_prefix(cable, d.skip(3), (slots - 1) as nat);
            let r = sysex_transfer(cable, d.skip(3), (slots - 1) as nat);
            assert(d.skip(3).skip(r.1 as int) =~= d.skip((3 + r.1) as int));
            assert(t.0 + flatten(sysex_packets(cable, d.skip(t.1 as int))) =~= sysex_cont_packet(
                cable,
                d,
            ) + (r.0 + flatten(sysex_packets(cable, d.skip(3).skip(r.1 as int)))));
        } else {
            assert(d.skip(0) =~= d);
            assert(t.0 + flatten(sysex_packets(cable, d)) =~= flatten(sysex_packets(cable, d)));
        }
    } else if d.len() == 0 || slots == 0 {
        assert(d.skip(0) =~= d);
        assert(t.0 + flatten(sysex_packets(cable, d)) =~= flatten(sysex_packets(cable, d)));
    } else {
        assert(d.skip(d.len() as int) =~= Seq::<u8>::empty());
        assert(sysex_packets(cable, d).skip(1) =~= Seq::<Seq<u8>>::empty());
        assert(t.0 + flatten(Seq::<Seq<u8>>::empty()) =~= t.0);
    }
}

/// Sent transfer after transfer, a sysex message goes out as exactly the
/// packets of the whole message.
pub proof fn lemma_sysex_transfers(cable: u8, d: Seq<u8>)
    ensures
        sysex_transfers(cable, d) == flatten(sysex_packets(cable, d)),
    decreases d.len(),
{
    if d.len() > 0 {
        lemma_sysex_transfer_prefix(cable, d, TRANSFER_SLOTS as nat);
        let t = sysex_transfer(cable, d, TRANSFER_SLOTS as nat);
        lemma_sysex_transfers(cable, d.skip(t.1 as int));
    } else {
        assert(sysex_packets(cable, d) =~= Seq::<Seq<u8>>::empty());
    }
}

/// The receive side of the MIDI interface: the sysex message being gathered
/// and the queues to the application.
pub struct UsbMidiRx {
    pub sysex_buf: Vec<u8>,
    pub sysex_port: MidiPort,
    pub midi_queue: SpscQueue<MidiEvent, 1025>,
    pub sysex_queue: SpscQueue<SysexMessage, 5>,
}

impl UsbMidiRx {
    /// The gathered sysex message never exceeds its limit.
    pub open spec fn wf(self) -> bool {
        self.sysex_buf@.len() <= SYSEX_MAX_LEN
    }

    /// The receive state of the contracts.
    pub open spec fn rx_view(self) -> RxView {
        (
            self.sysex_buf@,
            self.sysex_port,
            midi_events(self.midi_queue),
            sysex_view(sysex_messages5(self.sysex_queue)),
        )
    }

    /// Empty queues and no sysex message under way.
    pub fn new() -> (r: UsbMidiRx)
        ensures
            r.wf(),
            r.rx_view() == (
                Seq::<u8>::empty(),
                MidiPort::Daw,
                Seq::<MidiEvent>::empty(),
                Seq::<(MidiPort, Seq<u8>)>::empty(),
            ),
    {
        let r = UsbMidiRx {
            sysex_buf: Vec::new(),
            sysex_port: MidiPort::Daw,
            midi_queue: SpscQueue::<MidiEvent, 1025>::new(),
            sysex_queue: SpscQueue::<SysexMessage, 5>::new(),
        };
        assert(sysex_view(Seq::<SysexMessage>::empty()) =~= Seq::empty());
        r
    }

    /// Adds sysex bytes to the message under way, up to the limit.
    fn append_sysex_bytes(&mut self, bytes: &[u8])
        requires
            old(self).wf(),
        ensures
            final(self).wf(),
            final(self).sysex_buf@ == append_sysex(old(self).sysex_buf@, bytes@),
            final(self).sysex_port == old(self).sysex_port,
            final(self).midi_queue == old(self).midi_queue,
            final(self).sysex_queue == old(self).sysex_queue,
    {
        let ghost start = self.sysex_buf@;
        let mut i: usize = 0;
        while i < bytes.len()
            invariant
                i <= bytes.len(),
                self.sysex_buf@ == append_sysex(start, bytes@.take(i as int)),
                self.sysex_buf@.len() <= SYSEX_MAX_LEN,
                self.sysex_port == old(self).sysex_port,
                self.midi_queue == old(self).midi_queue,
                self.sysex_queue == old(self).sysex_queue,
            decreases bytes.len() - i,
        {
            if self.sysex_buf.len() < SYSEX_MAX_LEN {
                self.sysex_buf.push(bytes[i]);
            }
            proof {
                let t = bytes@.take(i + 1);
                assert(t =~= bytes@.take(i as int).push(bytes@[i as int]));
                assert(start + t =~= (start + bytes@.take(i as int)).push(bytes@[i as int]));
            }
            i += 1;
            assert(self.sysex_buf@ =~= append_sysex(start, bytes@.take(i as int)));
        }
        assert(bytes@.take(i as int) =~= bytes@);
    }

    /// Queues the gathered message, if any, and starts a new one.
    fn flush_sysex(&mut self)
        requires
            old(self).wf(),
        ensures
            final(self).wf(),
            final(self).rx_view() == flush(old(self).rx_view()),
    {
        if self.sysex_buf.len() == 0 {
            return;
        }
        let mut data = Vec::new();
        std::mem::swap(&mut data, &mut self.sysex_buf);
        let _ = self.enqueue_sysex_message(SysexMessage { port: self.sysex_port, data });
        assert(self.sysex_buf@ =~= Seq::<u8>::empty());
    }

    /// Queues a received MIDI event; it is handed back when the queue is full.
    fn enqueue_midi_event(&mut self, event: MidiEvent) -> (r: Result<(), MidiEvent>)
        ensures
            final(self).sysex_buf == old(self).sysex_buf,
            final(self).sysex_port == old(self).sysex_port,
            final(self).sysex_queue == old(self).sysex_queue,
            midi_events(old(self).midi_queue).len() < 1024 ==> r is Ok && midi_events(
                final(self).midi_queue,
            ) == midi_events(old(self).midi_queue).push(event),
            midi_events(old(self).midi_queue).len() >= 1024 ==> (r matches Err(e) && e == event),
            midi_events(old(self).midi_queue).len() >= 1024 ==> midi_events(final(self).midi_queue)
                == midi_events(old(self).midi_queue),
    {
        self.midi_queue.enqueue(event)
    }

    /// Queues a received sysex message; it is handed back when the queue is
    /// full.
    fn enqueue_sysex_message(&mut self, message: SysexMessage) -> (r: Result<(), SysexMessage>)
        ensures
            final(self).sysex_buf == old(self).sysex_buf,
            final(self).sysex_port == old(self).sysex_port,
            final(self).midi_queue == old(self).midi_queue,
            sysex_view(sysex_messages5(final(self).sysex_queue)) == (if sysex_messages5(
                old(self).sysex_queue,
            ).len() < 4 {
                sysex_view(sysex_messages5(old(self).sysex_queue)).push(
                    (message.port, message.data@),
                )
            } else {
                sysex_view(sysex_messages5(old(self).sysex_queue))
            }),
            r is Ok <==> sysex_messages5(old(self).sysex_queue).len() < 4,
    {
        let ghost before = sysex_messages5(self.sysex_queue);
        let r = self.sysex_queue.enqueue(message);
        proof {
            if before.len() < 4 {
                assert(sysex_view(before.push(message)) =~= sysex_view(before).push(
                    (message.port, message.data@),
                ));
            }
        }
        r
    }

    /// Handles one received USB-MIDI packet.
    pub fn handle_usb_midi_packet(&mut self, packet: &[u8])
        requires
            old(self).wf(),
            packet.len() == 4,
        ensures
            final(self).wf(),
            final(self).rx_view() == rx_step(old(self).rx_view(), packet@),
    {
        let cin = packet[0] & 0x0f;
        let port = MidiPort::from_cable(packet[0] >> 4);
        if cin == 0x4 {
            self.sysex_port = port;
            self.append_sysex_bytes(&packet[1..4]);
        } else if cin == 0x5 {
            self.sysex_port = port;
            self.append_sysex_bytes(&packet[1..2]);
            self.flush_sysex();
        } else if cin == 0x6 {
            self.sysex_port = port;
            self.append_sysex_bytes(&packet[1..3]);
            self.flush_sysex();
        } else if cin == 0x7 {
            self.sysex_port = port;
            self.append_sysex_bytes(&packet[1..4]);
            self.flush_sysex();
        } else if packet[1] != 0 {
            let _ = self.enqueue_midi_event(
                MidiEvent { port, status: packet[1], data1: packet[2], data2: packet[3] },
            );
        }
    }

    /// Handles a buffer read from the OUT endpoint, packet by packet.
    pub fn receive_packets(&mut self, buf: &[u8])
        requires
            old(self).wf(),
        ensures
            final(self).wf(),
            final(self).rx_view() == rx_fold(old(self).rx_view(), chunks4(buf@)),
    {
        let n = buf.len() / 4;
        let ghost ps = chunks4(buf@);
        let mut i: usize = 0;
        assert(ps.skip(0) =~= ps);
        while i < n
            invariant
                n == buf.len() / 4,
                ps == chunks4(buf@),
                i <= n,
                self.wf(),
                rx_fold(old(self).rx_view(), ps) == rx_fold(self.rx_view(), ps.skip(i as int)),
            decreases n - i,
        {
            self.handle_usb_midi_packet(&buf[4 * i..4 * i + 4]);
            proof {
                assert(buf@.subrange(4 * i as int, 4 * i + 4) == ps[i as int]);
                assert(ps.skip(i as int).skip(1) =~= ps.skip(i + 1));
            }
            i += 1;
        }
        assert(ps.skip(n as int) =~= Seq::<Seq<u8>>::empty());
    }

    /// Takes the oldest received MIDI event.
    pub fn dequeue_midi_event(&mut self) -> (r: Option<MidiEvent>)
        requires
            old(self).wf(),
        ensures
            final(self).wf(),
            midi_events(old(self).midi_queue).len() == 0 ==> r is None,
            midi_events(old(self).midi_queue).len() > 0 ==> r == Some(
                midi_events(old(self).midi_queue)[0],
            ) && midi_events(final(self).midi_queue) == midi_events(
                old(self).midi_queue,
            ).drop_first(),
    {
        self.midi_queue.dequeue()
    }

    /// Takes the oldest received sysex message.
    pub fn dequeue_sysex_message(&mut self) -> (r: Option<SysexMessage>)
        requires
            old(self).wf(),
        ensures
            final(self).wf(),
            sysex_messages5(old(self).sysex_queue).len() == 0 ==> r is None,
            sysex_messages5(old(self).sysex_queue).len() > 0 ==> r == Some(
                sysex_messages5(old(self).sysex_queue)[0],
            ) && sysex_messages5(final(self).sysex_queue) == sysex_messages5(
                old(self).sysex_queue,
            ).drop_first(),
    {
        self.sysex_queue.dequeue()
    }
}

/// Sysex packets received after a prefix `pre` has been gathered end the
/// message `pre + s` and queue it, when the queue has room.
proof fn lemma_sysex_fold(c: u8, pre: Seq<u8>, s: Seq<u8>, st: RxView)
    requires
        c <= 15,
        1 <= s.len(),
        pre.len() + s.len() <= SYSEX_MAX_LEN,
        st.0 == pre,
        st.3.len() < 4,
    ensures
        rx_fold(st, sysex_packets(header(c, 0), s)) == (
            Seq::<u8>::empty(),
            cable_port(c),
            st.2,
            st.3.push((cable_port(c), pre + s)),
        ),
    decreases s.len(),
{
    let cable = header(c, 0);
    lemma_header(c, 0);
    let ps = sysex_packets(cable, s);
    if s.len() > 3 {
        lemma_header(c, 4);
        let p = sysex_cont_packet(cable, s);
        assert(p[0] == header(c, 4));
        assert(p.subrange(1, 4) =~= s.take(3));
        let next = rx_step(st, p);
        assert(next == (pre + s.take(3), cable_port(c), st.2, st.3));
        assert(ps.skip(1) =~= sysex_packets(cable, s.skip(3)));
        lemma_sysex_fold(c, pre + s.take(3), s.skip(3), next);
        assert(pre + s.take(3) + s.skip(3) =~= pre + s);
    } else {
        let cin = (4 + s.len()) as u8;
        lemma_header(c, cin);
        let p = sysex_end_packet(cable, s);
        assert(p[0] == header(c, cin));
        assert(p.subrange(1, cin - 3) =~= s);
        assert(ps.skip(1) =~= Seq::<Seq<u8>>::empty());
        let next = rx_step(st, p);
        assert(next == (Seq::<u8>::empty(), cable_port(c), st.2, st.3.push((cable_port(c), pre + s))));
        assert(rx_fold(next, ps.skip(1)) == next);
    }
}

/// A sysex message of up to 600 bytes queued for `port`, sent transfer by
/// transfer and received as one stream of packets, arrives whole on the port
/// of its cable, when the sysex queue has room and no message was under way.
pub proof fn lemma_sysex_received_whole(port: u8, data: Seq<u8>, st: RxView)
    requires
        port <= 15,
        1 <= data.len() <= SYSEX_MAX_LEN,
        st.0.len() == 0,
        st.3.len() < 4,
    ensures
        rx_fold(st, chunks4(sysex_transfers(((port & 0x0f) << 4u8) as u8, data))) == (
            Seq::<u8>::empty(),
            cable_port(port),
            st.2,
            st.3.push((cable_port(port), data)),
        ),
{
    assert((port & 0x0f) << 4u8 == header(port, 0)) by (bit_vector)
        requires
            port <= 15,
    ;
    let cable = header(port, 0);
    lemma_sysex_transfers(cable, data);
    lemma_sysex_packet_count(cable, data);
    lemma_chunks4_flatten(sysex_packets(cable, data));
    assert(st.0 =~= Seq::<u8>::empty());
    lemma_sysex_fold(port, Seq::empty(), data, st);
    assert(Seq::<u8>::empty() + data =~= data);
}

} // verus!
