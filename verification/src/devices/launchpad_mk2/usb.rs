//! The MIDI side of the Launchpad MK2's USB interface: received packets are
//! turned into MIDI events and reassembled sysex messages; outgoing messages
//! are cut into packets and queued for the IN endpoint.

use vstd::prelude::*;
use crate::app::MidiEvent;
use crate::sys::midi::MidiPort;
use crate::sys::spsc::{midi_events, sysex_messages3, tx_packets, SpscQueue};
use crate::sys::usb_midi::{
    chunks4, flatten, header, lemma_chunks4_flatten, lemma_flatten_push, lemma_header, lemma_sysex_packet_count, packet_bytes, short_format,
    short_message_format, short_packet, sysex_cont_packet, sysex_end_packet, sysex_packets,
    SysexMessage, UsbMidiPacket,
};

verus! {

/// Longest sysex message kept; further bytes are dropped.
pub const SYSEX_MAX_LEN: usize = 256;

/// Most packets one outgoing message may take: one full IN packet.
pub const MIDI_TX_MAX_PACKET_COUNT: usize = 16;

/// The receive state as the contracts see it: the sysex bytes gathered so far,
/// the port they came from, the queued events and the queued sysex messages.
pub type RxView = (Seq<u8>, MidiPort, Seq<MidiEvent>, Seq<(MidiPort, Seq<u8>)>);

/// Port and bytes of each queued sysex message.
pub open spec fn sysex_view(q: Seq<SysexMessage>) -> Seq<(MidiPort, Seq<u8>)> {
    q.map_values(|m: SysexMessage| (m.port, m.data@))
}

/// Appends `bytes` to the gathered sysex bytes, dropping what exceeds the limit.
pub open spec fn append_sysex(buf: Seq<u8>, bytes: Seq<u8>) -> Seq<u8> {
    if buf.len() + bytes.len() <= SYSEX_MAX_LEN {
        buf + bytes
    } else {
        (buf + bytes).take(SYSEX_MAX_LEN as int)
    }
}

/// Ends the gathered message: queues it (when there is one and the queue has
/// room) and empties the buffer.
pub open spec fn flush(st: RxView) -> RxView {
    let (buf, port, events, sysex) = st;
    if buf.len() == 0 {
        st
    } else if sysex.len() < 2 {
        (Seq::empty(), port, events, sysex.push((port, buf)))
    } else {
        (Seq::empty(), port, events, sysex)
    }
}

/// Queues a MIDI event when the queue has room.
pub open spec fn queue_event(st: RxView, e: MidiEvent) -> RxView {
    let (buf, port, events, sysex) = st;
    if events.len() < 1024 {
        (buf, port, events.push(e), sysex)
    } else {
        st
    }
}

/// What one received packet `p` does to the receive state.
///
/// Packets on cables other than 0 and 1 are ignored. CIN 4 adds three sysex
/// bytes, CIN 5, 6 and 7 add the last one to three and end the message, CIN 8
/// to E are channel messages and CIN F a single byte.
pub open spec fn rx_step(st: RxView, p: Seq<u8>) -> RxView {
    let cin = p[0] & 0x0f;
    let cable = p[0] >> 4u8;
    let (buf, _, events, sysex) = st;
    if cable > 1 {
        st
    } else {
        let port = if cable == 0 { MidiPort::Daw } else { MidiPort::Midi };
        if cin == 4 {
            (append_sysex(buf, p.subrange(1, 4)), port, events, sysex)
        } else if 5 <= cin <= 7 {
            flush((append_sysex(buf, p.subrange(1, cin - 3)), port, events, sysex))
        } else if 8 <= cin <= 0xe {
            queue_event(st, MidiEvent { port, status: p[1], data1: p[2], data2: p[3] })
        } else if cin == 0xf {
            queue_event(st, MidiEvent { port, status: p[1], data1: 0, data2: 0 })
        } else {
            st
        }
    }
}

/// The receive state after the packets `ps`, in order.
pub open spec fn rx_fold(st: RxView, ps: Seq<Seq<u8>>) -> RxView
    decreases ps.len(),
{
    if ps.len() == 0 {
        st
    } else {
        rx_fold(rx_step(st, ps[0]), ps.skip(1))
    }
}

/// The packets of the message `data` for `port`, as `encode_usb_midi_packets`
/// gives them; `None` when it refuses the message.
pub open spec fn encoded_packets(port: u8, data: Seq<u8>) -> Option<Seq<Seq<u8>>> {
    let cable = ((port & 0x0f) << 4u8) as u8;
    if data.len() == 0 {
        None
    } else if data[0] == 0xf0 {
        if data.len() > 3 * MIDI_TX_MAX_PACKET_COUNT {
            None
        } else {
            Some(sysex_packets(cable, data))
        }
    } else {
        match short_format(data[0]) {
            None => None,
            Some((cin, len)) => if data.len() < len {
                None
            } else {
                Some(seq![short_packet(cable, cin, data.take(len as int))])
            },
        }
    }
}

/// The MIDI state of the USB interface: the sysex message being gathered and
/// the queues between the endpoint and the application.
pub struct UsbMidi {
    pub sysex_buf: Vec<u8>,
    pub sysex_port: MidiPort,
    pub midi_queue: SpscQueue<MidiEvent, 1025>,
    pub sysex_queue: SpscQueue<SysexMessage, 3>,
    pub tx_queue: SpscQueue<UsbMidiPacket, 513>,
}

impl UsbMidi {
    /// The gathered sysex message never exceeds its limit.
    pub open spec fn wf(self) -> bool {
        self.sysex_buf@.len() <= SYSEX_MAX_LEN
    }

    /// The receive state of the contracts.
    pub open spec fn rx_view(self) -> RxView {
        (
            self.sysex_buf@,
            self.sysex_port,
            midi_events(self.midi_queue),
            sysex_view(sysex_messages3(self.sysex_queue)),
        )
    }

    /// Empty queues and no sysex message under way.
    pub fn new() -> (r: UsbMidi)
        ensures
            r.wf(),
            r.rx_view() == (
                Seq::<u8>::empty(),
                MidiPort::Daw,
                Seq::<MidiEvent>::empty(),
                Seq::<(MidiPort, Seq<u8>)>::empty(),
            ),
            tx_packets(r.tx_queue) == Seq::<UsbMidiPacket>::empty(),
    {
        let r = UsbMidi {
            sysex_buf: Vec::new(),
            sysex_port: MidiPort::Daw,
            midi_queue: SpscQueue::<MidiEvent, 1025>::new(),
            sysex_queue: SpscQueue::<SysexMessage, 3>::new(),
            tx_queue: SpscQueue::<UsbMidiPacket, 513>::new(),
        };
        assert(sysex_view(Seq::<SysexMessage>::empty()) =~= Seq::empty());
        r
    }

    /// Adds sysex bytes to the message under way, up to the limit.
    fn append_sysex_bytes(&mut self, bytes: &[u8])
        requires
            old(self).wf(),
        ensures
            final(self).wf(),
            final(self).sysex_buf@ == append_sysex(old(self).sysex_buf@, bytes@),
            final(self).sysex_port == old(self).sysex_port,
            final(self).midi_queue == old(self).midi_queue,
            final(self).sysex_queue == old(self).sysex_queue,
            final(self).tx_queue == old(self).tx_queue,
    {
        let space = SYSEX_MAX_LEN - self.sysex_buf.len();
        let to_copy = if bytes.len() < space {
            bytes.len()
        } else {
            space
        };
        let ghost start = self.sysex_buf@;
        let mut i: usize = 0;
        while i < to_copy
            invariant
                to_copy <= bytes.len(),
                start.len() + to_copy <= SYSEX_MAX_LEN,
                i <= to_copy,
                self.sysex_buf@ == start + bytes@.take(i as int),
                self.sysex_port == old(self).sysex_port,
                self.midi_queue == old(self).midi_queue,
                self.sysex_queue == old(self).sysex_queue,
                self.tx_queue == old(self).tx_queue,
            decreases to_copy - i,
        {
            self.sysex_buf.push(bytes[i]);
            i += 1;
            assert(self.sysex_buf@ =~= start + bytes@.take(i as int));
        }
        assert(start + bytes@.take(to_copy as int) =~= append_sysex(start, bytes@));
    }

    /// Queues the gathered message, if any, and starts a new one.
    fn flush_sysex(&mut self)
        requires
            old(self).wf(),
        ensures
            final(self).wf(),
            final(self).rx_view() == flush(old(self).rx_view()),
            final(self).tx_queue == old(self).tx_queue,
    {
        if self.sysex_buf.len() == 0 {
            return;
        }
        let mut data = Vec::new();
        std::mem::swap(&mut data, &mut self.sysex_buf);
        let message = SysexMessage { port: self.sysex_port, data };
        let ghost before = sysex_messages3(self.sysex_queue);
        let _ = self.sysex_queue.enqueue(message);
        proof {
            if before.len() < 2 {
                assert(sysex_view(before.push(message)) =~= sysex_view(before).push(
                    (message.port, message.data@),
                ));
            }
        }
        assert(self.sysex_buf@ =~= Seq::<u8>::empty());
    }

    /// Queues a received MIDI event; it is dropped when the queue is full.
    fn enqueue_midi_event(&mut self, event: MidiEvent)
        requires
            old(self).wf(),
        ensures
            final(self).wf(),
            final(self).rx_view() == queue_event(old(self).rx_view(), event),
            final(self).tx_queue == old(self).tx_queue,
    {
        let _ = self.midi_queue.enqueue(event);
    }

    /// Handles one received USB-MIDI packet.
    pub fn handle_usb_midi_packet(&mut self, packet: &[u8])
        requires
            old(self).wf(),
            packet.len() == 4,
        ensures
            final(self).wf(),
            final(self).rx_view() == rx_step(old(self).rx_view(), packet@),
            final(self).tx_queue == old(self).tx_queue,
    {
        let cin = packet[0] & 0x0f;
        let port = match MidiPort::from_usb_cable(packet[0] >> 4) {
            Some(p) => p,
            None => return,
        };
        if cin == 0x4 {
            self.sysex_port = port;
            self.append_sysex_bytes(&packet[1..4]);
        } else if cin == 0x5 {
            self.sysex_port = port;
            self.append_sysex_bytes(&packet[1..2]);
            self.flush_sysex();
        } else if cin == 0x6 {
            self.sysex_port = port;
            self.append_sysex_bytes(&packet[1..3]);
            self.flush_sysex();
        } else if cin == 0x7 {
            self.sysex_port = port;
            self.append_sysex_bytes(&packet[1..4]);
            self.flush_sysex();
        } else if 0x8 <= cin && cin <= 0xe {
            self.enqueue_midi_event(
                MidiEvent { port, status: packet[1], data1: packet[2], data2: packet[3] },
            );
        } else if cin == 0xf {
            self.enqueue_midi_event(MidiEvent { port, status: packet[1], data1: 0, data2: 0 });
        }
    }

    /// Handles a buffer received on the OUT endpoint, packet by packet.
    pub fn receive_packets(&mut self, buf: &[u8])
        requires
            old(self).wf(),
        ensures
            final(self).wf(),
            final(self).rx_view() == rx_fold(old(self).rx_view(), chunks4(buf@)),
            final(self).tx_queue == old(self).tx_queue,
    {
        let n = buf.len() / 4;
        let ghost ps = chunks4(buf@);
        let mut i: usize = 0;
        assert(ps.skip(0) =~= ps);
        while i < n
            invariant
                n == buf.len() / 4,
                ps == chunks4(buf@),
                i <= n,
                self.wf(),
                rx_fold(old(self).rx_view(), ps) == rx_fold(self.rx_view(), ps.skip(i as int)),
                self.tx_queue == old(self).tx_queue,
            decreases n - i,
        {
            let ghost before = self.rx_view();
            self.handle_usb_midi_packet(&buf[4 * i..4 * i + 4]);
            proof {
                assert(buf@.subrange(4 * i as int, 4 * i + 4) == ps[i as int]);
                assert(ps.skip(i as int).skip(1) =~= ps.skip(i + 1));
            }
            i += 1;
        }
        assert(ps.skip(n as int) =~= Seq::<Seq<u8>>::empty());
        assert(ps.skip(0) =~= ps);
    }

    /// Takes the oldest received MIDI event.
    pub fn dequeue_midi_event(&mut self) -> (r: Option<MidiEvent>)
        requires
            old(self).wf(),
        ensures
            final(self).wf(),
            midi_events(old(self).midi_queue).len() == 0 ==> r is None,
            midi_events(old(self).midi_queue).len() > 0 ==> r == Some(
                midi_events(old(self).midi_queue)[0],
            ) && midi_events(final(self).midi_queue) == midi_events(
                old(self).midi_queue,
            ).drop_first(),
    {
        self.midi_queue.dequeue()
    }

    /// Takes the oldest received sysex message.
    pub fn dequeue_sysex_message(&mut self) -> (r: Option<SysexMessage>)
        requires
            old(self).wf(),
        ensures
            final(self).wf(),
            sysex_messages3(old(self).sysex_queue).len() == 0 ==> r is None,
            sysex_messages3(old(self).sysex_queue).len() > 0 ==> r == Some(
                sysex_messages3(old(self).sysex_queue)[0],
            ) && sysex_messages3(final(self).sysex_queue) == sysex_messages3(
                old(self).sysex_queue,
            ).drop_first(),
    {
        self.sysex_queue.dequeue()
    }

    /// Queues the packets of an outgoing message on the cable of `port`.
    ///
    /// Fails, queueing nothing, when the message cannot be encoded or its
    /// packets do not all fit in the queue.
    pub fn enqueue_tx_message(&mut self, port: u8, data: &[u8]) -> (r: Result<(), ()>)
        requires
            old(self).wf(),
        ensures
            final(self).wf(),
            final(self).rx_view() == old(self).rx_view(),
            r is Ok <==> (encoded_packets(port, data@) matches Some(ps) && ps.len() + tx_packets(
                old(self).tx_queue,
            ).len() <= 512),
            r is Ok ==> packet_bytes(tx_packets(final(self).tx_queue)) == packet_bytes(
                tx_packets(old(self).tx_queue),
            ) + encoded_packets(port, data@)->0,
            r is Err ==> tx_packets(final(self).tx_queue) == tx_packets(old(self).tx_queue),
    {
        let packets = match encode_usb_midi_packets(port, data) {
            Ok(p) => p,
            Err(()) => return Err(()),
        };
        let len = self.tx_queue.len();
        let capacity = self.tx_queue.capacity();
        let free = if capacity > len {
            capacity - len
        } else {
            0
        };
        if free < packets.len() {
            return Err(());
        }
        let ghost start = tx_packets(self.tx_queue);
        let mut i: usize = 0;
        while i < packets.len()
            invariant
                start.len() + packets.len() <= 512,
                i <= packets.len(),
                tx_packets(self.tx_queue) == start + packets@.take(i as int),
                self.wf(),
                self.rx_view() == old(self).rx_view(),
            decreases packets.len() - i,
        {
            let _ = self.tx_queue.enqueue(packets[i]);
            assert(tx_packets(self.tx_queue) =~= start + packets@.take(i + 1));
            i += 1;
        }
        assert(packets@.take(packets.len() as int) =~= packets@);
        assert(packet_bytes(start + packets@) =~= packet_bytes(start) + packet_bytes(packets@));
        Ok(())
    }

    /// The payload of the next IN transfer: up to sixteen queued packets,
    /// oldest first; `None` when nothing is queued.
    pub fn try_start_in_tx(&mut self) -> (r: Option<Vec<u8>>)
        requires
            old(self).wf(),
        ensures
            final(self).wf(),
            final(self).rx_view() == old(self).rx_view(),
            ({
                let q = tx_packets(old(self).tx_queue);
                let k = if q.len() < 16 { q.len() as int } else { 16 };
                &&& r is None <==> q.len() == 0
                &&& r matches Some(payload) ==> payload@ == flatten(packet_bytes(q.take(k)))
                &&& tx_packets(final(self).tx_queue) == q.skip(k)
            }),
    {
        let ghost q = tx_packets(self.tx_queue);
        let first = match self.tx_queue.dequeue() {
            Some(p) => p,
            None => {
                assert(q.skip(0) =~= q);
                return None;
            },
        };
        let mut buf: Vec<u8> = Vec::new();
        buf.push(first.data[0]);
        buf.push(first.data[1]);
        buf.push(first.data[2]);
        buf.push(first.data[3]);
        let mut count: usize = 1;
        proof {
            assert(packet_bytes(q.take(1)) =~= seq![first.bytes()]);
            lemma_flatten_push(Seq::empty(), first.bytes());
            assert(Seq::<Seq<u8>>::empty().push(first.bytes()) =~= seq![first.bytes()]);
            assert(flatten(seq![first.bytes()]) =~= first.bytes());
            assert(buf@ =~= first.bytes());
        }
        while count < 16
            invariant_except_break
                1 <= count <= 16,
                count <= q.len(),
                tx_packets(self.tx_queue) == q.skip(count as int),
                buf@ == flatten(packet_bytes(q.take(count as int))),
                self.wf(),
                self.rx_view() == old(self).rx_view(),
            ensures
                1 <= count <= 16,
                count == q.len() || count == 16,
                count <= q.len(),
                tx_packets(self.tx_queue) == q.skip(count as int),
                buf@ == flatten(packet_bytes(q.take(count as int))),
                self.wf(),
                self.rx_view() == old(self).rx_view(),
            decreases 16 - count,
        {
            let packet = match self.tx_queue.dequeue() {
                Some(p) => p,
                None => break,
            };
            proof {
                assert(packet == q[count as int]);
                lemma_flatten_push(packet_bytes(q.take(count as int)), packet.bytes());
                assert(packet_bytes(q.take(count + 1)) =~= packet_bytes(q.take(count as int)).push(
                    packet.bytes(),
                ));
                assert(q.skip(count as int).drop_first() =~= q.skip(count + 1));
            }
            buf.push(packet.data[0]);
            buf.push(packet.data[1]);
            buf.push(packet.data[2]);
            buf.push(packet.data[3]);
            count += 1;
            assert(buf@ =~= flatten(packet_bytes(q.take(count as int))));
        }
        Some(buf)
    }
}

/// Cuts a sysex message into packets on `cable` (already shifted into the high
/// nibble); fails when it needs more than sixteen packets.
pub fn encode_sysex_packets(cable: u8, data: &[u8]) -> (r: Result<Vec<UsbMidiPacket>, ()>)
    ensures
        r is Err <==> data.len() > 3 * MIDI_TX_MAX_PACKET_COUNT,
        r matches Ok(v) ==> packet_bytes(v@) == sysex_packets(cable, data@),
{
    let mut out: Vec<UsbMidiPacket> = Vec::new();
    let mut src: usize = 0;
    assert(data@.skip(0) =~= data@);
    assert(packet_bytes(out@) + sysex_packets(cable, data@) =~= sysex_packets(cable, data@));
    while src < data.len()
        invariant
            src <= data.len(),
            out.len() <= MIDI_TX_MAX_PACKET_COUNT,
            src == 3 * out.len() || src == data.len(),
            packet_bytes(out@) + sysex_packets(cable, data@.skip(src as int)) == sysex_packets(
                cable,
                data@,
            ),
        decreases data.len() - src,
    {
        if out.len() >= MIDI_TX_MAX_PACKET_COUNT {
            return Err(());
        }
        let remain = data.len() - src;
        let ghost rest = data@.skip(src as int);
        if remain > 3 {
            let p = UsbMidiPacket::from_bytes(cable | 0x4, data[src], data[src + 1], data[src + 2]);
            proof {
                assert(p.bytes() == sysex_cont_packet(cable, rest));
                assert(rest.skip(3) =~= data@.skip(src + 3));
                assert(packet_bytes(out@.push(p)) =~= packet_bytes(out@).push(p.bytes()));
            }
            out.push(p);
            src += 3;
        } else {
            let cin: u8 = if remain == 1 {
                0x5
            } else if remain == 2 {
                0x6
            } else {
                0x7
            };
            let b2 = if remain > 1 {
                data[src + 1]
            } else {
                0
            };
            let b3 = if remain > 2 {
                data[src + 2]
            } else {
                0
            };
            let p = UsbMidiPacket::from_bytes(cable | cin, data[src], b2, b3);
            proof {
                assert(cin == (4 + rest.len()) as u8);
                assert(p.bytes() == sysex_end_packet(cable, rest));
                assert(data@.skip(data.len() as int) =~= Seq::<u8>::empty());
                assert(packet_bytes(out@.push(p)) =~= packet_bytes(out@).push(p.bytes()));
            }
            out.push(p);
            src = data.len();
        }
    }
    proof {
        assert(data@.skip(src as int) =~= Seq::<u8>::empty());
        assert(packet_bytes(out@) + Seq::<Seq<u8>>::empty() =~= packet_bytes(out@));
        if data.len() > 3 * MIDI_TX_MAX_PACKET_COUNT {
            lemma_sysex_packet_count(cable, data@);
            assert(packet_bytes(out@).len() == out.len());
        }
    }
    Ok(out)
}

/// Packets for one outgoing message on the cable of `port`: a sysex message
/// is cut into packets, a short message takes one packet. Fails on an empty
/// message, an unknown status byte, a short message missing bytes, and a
/// sysex message of more than sixteen packets.
pub fn encode_usb_midi_packets(port: u8, data: &[u8]) -> (r: Result<Vec<UsbMidiPacket>, ()>)
    ensures
        r is Err <==> encoded_packets(port, data@) is None,
        r matches Ok(v) ==> Some(packet_bytes(v@)) == encoded_packets(port, data@),
{
    if data.len() == 0 {
        return Err(());
    }
    let cable = (port & 0x0f) << 4;
    if data[0] == 0xf0 {
        return encode_sysex_packets(cable, data);
    }
    let (cin, message_len) = match short_message_format(data[0]) {
        Some(x) => x,
        None => return Err(()),
    };
    if data.len() < message_len {
        return Err(());
    }
    let b2 = if message_len > 1 {
        data[1]
    } else {
        0
    };
    let b3 = if message_len > 2 {
        data[2]
    } else {
        0
    };
    let p = UsbMidiPacket::from_bytes(cable | cin, data[0], b2, b3);
    let mut out = Vec::new();
    out.push(p);
    proof {
        assert(p.bytes() == short_packet(cable, cin, data@.take(message_len as int)));
        assert(packet_bytes(out@) =~= seq![p.bytes()]);
    }
    Ok(out)
}

/// The port that packets on USB cable `c` (0 or 1) belong to.
pub open spec fn usb_port(c: u8) -> MidiPort {
    if c == 0 {
        MidiPort::Daw
    } else {
        MidiPort::Midi
    }
}

/// Sysex packets received after a prefix `pre` has been gathered end the
/// message `pre + s` and queue it, when the queue has room.
proof fn lemma_sysex_fold(c: u8, pre: Seq<u8>, s: Seq<u8>, st: RxView)
    requires
        c <= 1,
        1 <= s.len(),
        pre.len() + s.len() <= SYSEX_MAX_LEN,
        st.0 == pre,
        st.3.len() < 2,
    ensures
        rx_fold(st, sysex_packets(header(c, 0), s)) == (
            Seq::<u8>::empty(),
            usb_port(c),
            st.2,
            st.3.push((usb_port(c), pre + s)),
        ),
    decreases s.len(),
{
    let cable = header(c, 0);
    lemma_header(c, 0);
    let ps = sysex_packets(cable, s);
    if s.len() > 3 {
        lemma_header(c, 4);
        let p = sysex_cont_packet(cable, s);
        assert(p[0] == header(c, 4));
        assert(p.subrange(1, 4) =~= s.take(3));
        let next = rx_step(st, p);
        assert(next == (pre + s.take(3), usb_port(c), st.2, st.3));
        assert(ps[0] == p);
        assert(ps.skip(1) =~= sysex_packets(cable, s.skip(3)));
        lemma_sysex_fold(c, pre + s.take(3), s.skip(3), next);
        assert(pre + s.take(3) + s.skip(3) =~= pre + s);
    } else {
        let cin = (4 + s.len()) as u8;
        lemma_header(c, cin);
        let p = sysex_end_packet(cable, s);
        assert(p[0] == header(c, cin));
        assert(p.subrange(1, cin - 3) =~= s);
        assert(ps[0] == p);
        assert(ps.skip(1) =~= Seq::<Seq<u8>>::empty());
        let next = rx_step(st, p);
        assert(next == (Seq::<u8>::empty(), usb_port(c), st.2, st.3.push((usb_port(c), pre + s))));
        assert(rx_fold(next, ps.skip(1)) == next);
    }
}

/// A sysex message sent through `encode_usb_midi_packets` on USB cable 0 or 1
/// and received packet by packet arrives whole, as one queued message of the
/// cable's port, when the sysex queue has room and no message was under way.
pub proof fn lemma_sysex_roundtrip(port: u8, data: Seq<u8>, st: RxView)
    requires
        port <= 1,
        data.len() >= 1,
        data[0] == 0xf0,
        data.len() <= 3 * MIDI_TX_MAX_PACKET_COUNT,
        st.0.len() == 0,
        st.3.len() < 2,
    ensures
        encoded_packets(port, data) is Some,
        rx_fold(st, encoded_packets(port, data)->0) == (
            Seq::<u8>::empty(),
            usb_port(port),
            st.2,
            st.3.push((usb_port(port), data)),
        ),
{
    assert((port & 0x0f) << 4u8 == header(port, 0)) by (bit_vector)
        requires
            port <= 1,
    ;
    assert(st.0 =~= Seq::<u8>::empty());
    lemma_sysex_fold(port, Seq::empty(), data, st);
    assert(Seq::<u8>::empty() + data =~= data);
}

/// The bytes of the packets that `encode_usb_midi_packets` gives for a sysex
/// message on USB cable 0 or 1, handed to `receive_packets` as one buffer,
/// queue that message whole on the cable's port (when the sysex queue has room
/// and no message was under way).
pub proof fn lemma_sysex_received_whole(port: u8, data: Seq<u8>, st: RxView)
    requires
        port <= 1,
        data.len() >= 1,
        data[0] == 0xf0,
        data.len() <= 3 * MIDI_TX_MAX_PACKET_COUNT,
        st.0.len() == 0,
        st.3.len() < 2,
    ensures
        encoded_packets(port, data) is Some,
        rx_fold(st, chunks4(flatten(encoded_packets(port, data)->0))) == (
            Seq::<u8>::empty(),
            usb_port(port),
            st.2,
            st.3.push((usb_port(port), data)),
        ),
{
    lemma_sysex_roundtrip(port, data, st);
    let cable = ((port & 0x0f) << 4u8) as u8;
    lemma_sysex_packet_count(cable, data);
    lemma_chunks4_flatten(encoded_packets(port, data)->0);
}

} // verus!
