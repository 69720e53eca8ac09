//! The MIDI side of the Mystrix Pro's USB interface. It has one USB-MIDI
//! cable, so all traffic belongs to the MIDI port.

use vstd::prelude::*;
use crate::app::MidiEvent;
use crate::sys::midi::MidiPort;
use crate::sys::spsc::{midi_events, sysex_messages5, tx_messages, SpscQueue};
use crate::sys::usb_midi::{
    chunks4, flatten, lemma_chunks4_flatten, lemma_flatten_push, lemma_sysex_packet_count,
    short_format, short_message_format, sysex_cont_packet, sysex_end_packet,
    sysex_packets, MidiTxMessage, SysexMessage,
};

verus! {

/// Longest sysex message kept; further bytes are dropped.
pub const SYSEX_MAX_LEN: usize = 256;

/// Longest message that can be queued for sending.
pub const MIDI_TX_MAX_LEN: usize = 256;

/// The receive state as the contracts see it: the sysex bytes gathered so far,
/// the port they came from, the queued events and the queued sysex messages.
pub type RxView = (Seq<u8>, MidiPort, Seq<MidiEvent>, Seq<(MidiPort, Seq<u8>)>);

/// Port and bytes of each queued sysex message.
pub open spec fn sysex_view(q: Seq<SysexMessage>) -> Seq<(MidiPort, Seq<u8>)> {
    q.map_values(|m: SysexMessage| (m.port, m.data@))
}

/// Appends `bytes` to the gathered sysex bytes, dropping what exceeds the limit.
pub open spec fn append_sysex_spec(buf: Seq<u8>, bytes: Seq<u8>) -> Seq<u8> {
    if buf.len() + bytes.len() <= SYSEX_MAX_LEN {
        buf + bytes
    } else {
        (buf + bytes).take(SYSEX_MAX_LEN as int)
    }
}

/// Ends the gathered message: queues it (when there is one and the queue has
/// room) and empties the buffer.
pub open spec fn flush(st: RxView) -> RxView {
    let (buf, port, events, sysex) = st;
    if buf.len() == 0 {
        st
    } else if sysex.len() < 4 {
        (Seq::empty(), port, events, sysex.push((port, buf)))
    } else {
        (Seq::empty(), port, events, sysex)
    }
}

/// What one received packet `p` does to the receive state: CIN 4 adds three
/// sysex bytes, CIN 5, 6 and 7 add the last one to three and end the message,
/// CIN 8 to E are queued as MIDI events; everything belongs to the MIDI port.
pub open spec fn rx_step(st: RxView, p: Seq<u8>) -> RxView {
    let cin = p[0] & 0x0f;
    let (buf, _, events, sysex) = st;
    if cin == 4 {
        (append_sysex_spec(buf, p.subrange(1, 4)), MidiPort::Midi, events, sysex)
    } else if 5 <= cin <= 7 {
        flush((append_sysex_spec(buf, p.subrange(1, cin - 3)), MidiPort::Midi, events, sysex))
    } else if 8 <= cin <= 0xe && events.len() < 1024 {
        (
            buf,
            st.1,
            events.push(MidiEvent { port: MidiPort::Midi, status: p[1], data1: p[2], data2: p[3] }),
            sysex,
        )
    } else {
        st
    }
}

/// The receive state after the packets `ps`, in order.
pub open spec fn rx_fold(st: RxView, ps: Seq<Seq<u8>>) -> RxView
    decreases ps.len(),
{
    if ps.len() == 0 {
        st
    } else {
        rx_fold(rx_step(st, ps[0]), ps.skip(1))
    }
}

/// The first `n` of the packets `ps`, or all of them when there are fewer.
pub open spec fn first_packets(ps: Seq<Seq<u8>>, n: int) -> Seq<Seq<u8>> {
    if ps.len() <= n {
        ps
    } else {
        ps.take(n)
    }
}

/// The bytes sent for a queued message: a sysex message as the packets of
/// one transfer (sixteen at most; the rest is not sent), a short message as
/// one packet, nothing for anything else. All on cable 0.
pub open spec fn encoded(data: Seq<u8>) -> Seq<u8> {
    if data.len() == 0 {
        Seq::empty()
    } else if data[0] == 0xf0 {
        flatten(first_packets(sysex_packets(0, data), 16))
    } else {
        match short_format(data[0]) {
            None => Seq::empty(),
            Some((cin, len)) => if data.len() < len {
                Seq::empty()
            } else {
                seq![
                    cin,
                    data[0],
                    if data.len() > 1 { data[1] } else { 0u8 },
                    if data.len() > 2 { data[2] } else { 0u8 },
                ]
            },
        }
    }
}

/// Queues a message for sending; `true` when it was queued. Empty messages,
/// messages over 256 bytes and messages that find the queue full are dropped.
pub fn enqueue_tx_message(queue: &mut SpscQueue<MidiTxMessage, 17>, data: &[u8]) -> (r: bool)
    ensures
        r <==> (1 <= data.len() <= MIDI_TX_MAX_LEN && tx_messages(*old(queue)).len() < 16),
        r ==> tx_messages(*final(queue)).len() == tx_messages(*old(queue)).len() + 1
            && tx_messages(*final(queue)).drop_last() == tx_messages(*old(queue))
            && tx_messages(*final(queue)).last().data@ == data@,
        !r ==> tx_messages(*final(queue)) == tx_messages(*old(queue)),
{
    if data.len() == 0 || data.len() > MIDI_TX_MAX_LEN {
        return false;
    }
    let message = MidiTxMessage { port: 0, data: vstd::slice::slice_to_vec(data) };
    let ghost before = tx_messages(*queue);
    match queue.enqueue(message) {
        Ok(()) => {
            assert(tx_messages(*queue).drop_last() =~= before);
            true
        },
        Err(_) => false,
    }
}

/// An empty queue of messages waiting to be sent.
pub fn new_tx_queue() -> (r: SpscQueue<MidiTxMessage, 17>)
    ensures
        tx_messages(r) == Seq::<MidiTxMessage>::empty(),
{
    SpscQueue::<MidiTxMessage, 17>::new()
}

/// Takes the oldest message waiting to be sent.
pub fn dequeue_tx_message(queue: &mut SpscQueue<MidiTxMessage, 17>) -> (r: Option<MidiTxMessage>)
    ensures
        tx_messages(*old(queue)).len() == 0 ==> r is None && tx_messages(*final(queue)) == tx_messages(
            *old(queue),
        ),
        tx_messages(*old(queue)).len() > 0 ==> r == Some(tx_messages(*old(queue))[0]) && tx_messages(
            *final(queue),
        ) == tx_messages(*old(queue)).drop_first(),
{
    queue.dequeue()
}

/// The packets of a sysex message on `cable` that fit in one 64-byte
/// transfer.
pub fn encode_sysex(cable: u8, data: &[u8]) -> (r: Vec<u8>)
    ensures
        r@ == flatten(first_packets(sysex_packets(cable, data@), 16)),
{
    let mut out: Vec<u8> = Vec::new();
    let mut source: usize = 0;
    let ghost all = sysex_packets(cable, data@);
    let mut count: usize = 0;
    proof {
        lemma_sysex_packet_count(cable, data@);
        assert(all.take(0) =~= Seq::<Seq<u8>>::empty());
        assert(data@.skip(0) =~= data@);
    }
    while source < data.len() && count < 16
        invariant
            all == sysex_packets(cable, data@),
            source <= data.len(),
            count <= 16,
            count <= all.len(),
            source == 3 * count || source == data.len(),
            all.skip(count as int) == sysex_packets(cable, data@.skip(source as int)),
            out@ == flatten(all.take(count as int)),
        decreases data.len() - source,
    {
        let remaining = data.len() - source;
        let bytes = if remaining < 3 {
            remaining
        } else {
            3
        };
        let cin: u8 = if remaining > 3 {
            0x4
        } else {
            0x4 + bytes as u8
        };
        let ghost d = data@.skip(source as int);
        let b1 = if bytes > 1 {
            data[source + 1]
        } else {
            0
        };
        let b2 = if bytes > 2 {
            data[source + 2]
        } else {
            0
        };
        let ghost packet = seq![cable | cin, data[source as int], b1, b2];
        proof {
            assert(sysex_packets(cable, d).len() > 0);
            assert(all.skip(count as int).len() > 0);
            assert(all.skip(count as int)[0] == all[count as int]);
            if remaining > 3 {
                assert(packet == sysex_cont_packet(cable, d));
                assert(all.skip(count as int).skip(1) =~= all.skip(count + 1));
                assert(d.skip(3) =~= data@.skip(source + 3));
            } else {
                assert(packet == sysex_end_packet(cable, d));
                assert(all.skip(count as int).skip(1) =~= all.skip(count + 1));
            }
            assert(all[count as int] == packet);
            lemma_flatten_push(all.take(count as int), packet);
            assert(all.take(count + 1) =~= all.take(count as int).push(packet));
        }
        out.push(cable | cin);
        out.push(data[source]);
        out.push(b1);
        out.push(b2);
        source += bytes;
        count += 1;
        assert(out@ =~= flatten(all.take(count as int)));
        proof {
            if source == data.len() {
                assert(data@.skip(source as int) =~= Seq::<u8>::empty());
            }
        }
    }
    proof {
        if source == data.len() {
            assert(data@.skip(source as int) =~= Seq::<u8>::empty());
            assert(all.skip(count as int).len() == 0);
            assert(all.take(count as int) =~= all);
        } else {
            assert(count == 16);
        }
    }
    out
}

/// The bytes to send for a queued message on cable 0.
pub fn encode_packets(data: &[u8]) -> (r: Vec<u8>)
    ensures
        r@ == encoded(data@),
{
    if data.len() == 0 {
        return Vec::new();
    }
    let cable: u8 = 0;
    if data[0] == 0xf0 {
        return encode_sysex(cable, data);
    }
    let (cin, length) = match short_message_format(data[0]) {
        Some(x) => x,
        None => return Vec::new(),
    };
    if data.len() < length {
        return Vec::new();
    }
    let mut out: Vec<u8> = Vec::new();
    out.push(cable | cin);
    out.push(data[0]);
    out.push(
        if data.len() > 1 {
            data[1]
        } else {
            0
        },
    );
    out.push(
        if data.len() > 2 {
            data[2]
        } else {
            0
        },
    );
    assert(0u8 | cin == cin) by (bit_vector);
    assert(out@ =~= encoded(data@));
    out
}

/// The receive side of the MIDI interface: the sysex message being gathered
/// and the queues to the application.
pub struct UsbMidiRx {
    pub sysex: Vec<u8>,
    pub port: MidiPort,
    pub midi_queue: SpscQueue<MidiEvent, 1025>,
    pub sysex_queue: SpscQueue<SysexMessage, 5>,
}

impl UsbMidiRx {
    /// The gathered sysex message never exceeds its limit.
    pub open spec fn wf(self) -> bool {
        self.sysex@.len() <= SYSEX_MAX_LEN
    }

    /// The receive state of the contracts.
    pub open spec fn rx_view(self) -> RxView {
        (
            self.sysex@,
            self.port,
            midi_events(self.midi_queue),
            sysex_view(sysex_messages5(self.sysex_queue)),
        )
    }

    /// Empty queues and no sysex message under way.
    pub fn new() -> (r: UsbMidiRx)
        ensures
            r.wf(),
            r.rx_view() == (
                Seq::<u8>::empty(),
                MidiPort::Midi,
                Seq::<MidiEvent>::empty(),
                Seq::<(MidiPort, Seq<u8>)>::empty(),
            ),
    {
        let r = UsbMidiRx {
            sysex: Vec::new(),
            port: MidiPort::Midi,
            midi_queue: SpscQueue::<MidiEvent, 1025>::new(),
            sysex_queue: SpscQueue::<SysexMessage, 5>::new(),
        };
        assert(sysex_view(Seq::<SysexMessage>::empty()) =~= Seq::empty());
        r
    }

    /// Adds sysex bytes to the message under way, up to the limit.
    fn append_sysex(&mut self, bytes: &[u8])
        requires
            old(self).wf(),
        ensures
            final(self).wf(),
            final(self).sysex@ == append_sysex_spec(old(self).sysex@, bytes@),
            final(self).port == old(self).port,
            final(self).midi_queue == old(self).midi_queue,
            final(self).sysex_queue == old(self).sysex_queue,
    {
        let ghost start = self.sysex@;
        let mut i: usize = 0;
        while i < bytes.len()
            invariant
                i <= bytes.len(),
                self.sysex@ == append_sysex_spec(start, bytes@.take(i as int)),
                self.sysex@.len() <= SYSEX_MAX_LEN,
                self.port == old(self).port,
                self.midi_queue == old(self).midi_queue,
                self.sysex_queue == old(self).sysex_queue,
            decreases bytes.len() - i,
        {
            if self.sysex.len() < SYSEX_MAX_LEN {
                self.sysex.push(bytes[i]);
            }
            proof {
                let t = bytes@.take(i + 1);
                assert(t =~= bytes@.take(i as int).push(bytes@[i as int]));
                assert(start + t =~= (start + bytes@.take(i as int)).push(bytes@[i as int]));
            }
            i += 1;
            assert(self.sysex@ =~= append_sysex_spec(start, bytes@.take(i as int)));
        }
        assert(bytes@.take(i as int) =~= bytes@);
    }

    /// Queues the gathered message, if any, and starts a new one.
    fn flush_sysex(&mut self)
        requires
            old(self).wf(),
        ensures
            final(self).wf(),
            final(self).rx_view() == flush(old(self).rx_view()),
    {
        if self.sysex.len() == 0 {
            return;
        }
        let mut data = Vec::new();
        std::mem::swap(&mut data, &mut self.sysex);
        let message = SysexMessage { port: self.port, data };
        let ghost before = sysex_messages5(self.sysex_queue);
        let _ = self.sysex_queue.enqueue(message);
        proof {
            if before.len() < 4 {
                assert(sysex_view(before.push(message)) =~= sysex_view(before).push(
                    (message.port, message.data@),
                ));
            }
        }
        assert(self.sysex@ =~= Seq::<u8>::empty());
    }

    /// Queues a received MIDI event; it is handed back when the queue is full.
    fn enqueue_midi(&mut self, event: MidiEvent) -> (r: Result<(), MidiEvent>)
        ensures
            final(self).sysex == old(self).sysex,
            final(self).port == old(self).port,
            final(self).sysex_queue == old(self).sysex_queue,
            midi_events(old(self).midi_queue).len() < 1024 ==> r is Ok && midi_events(
                final(self).midi_queue,
            ) == midi_events(old(self).midi_queue).push(event),
            midi_events(old(self).midi_queue).len() >= 1024 ==> (r matches Err(e) && e == event),
            midi_events(old(self).midi_queue).len() >= 1024 ==> midi_events(final(self).midi_queue)
                == midi_events(old(self).midi_queue),
    {
        self.midi_queue.enqueue(event)
    }

    /// Handles one received USB-MIDI packet.
    pub fn handle_usb_midi_packet(&mut self, packet: &[u8])
        requires
            old(self).wf(),
            packet.len() == 4,
        ensures
            final(self).wf(),
            final(self).rx_view() == rx_step(old(self).rx_view(), packet@),
    {
        let cin = packet[0] & 0x0f;
        let midi_port = MidiPort::Midi;
        if cin == 0x4 {
            self.port = midi_port;
            self.append_sysex(&packet[1..4]);
        } else if 0x5 <= cin && cin <= 0x7 {
            self.port = midi_port;
            self.append_sysex(&packet[1..(cin - 3) as usize]);
            self.flush_sysex();
        } else if 0x8 <= cin && cin <= 0xe {
            let _ = self.enqueue_midi(
                MidiEvent { port: midi_port, status: packet[1], data1: packet[2], data2: packet[3] },
            );
        }
    }

    /// Handles a buffer read from the OUT endpoint, packet by packet.
    pub fn receive_packets(&mut self, buf: &[u8])
        requires
            old(self).wf(),
        ensures
            final(self).wf(),
            final(self).rx_view() == rx_fold(old(self).rx_view(), chunks4(buf@)),
    {
        let n = buf.len() / 4;
        let ghost ps = chunks4(buf@);
        let mut i: usize = 0;
        assert(ps.skip(0) =~= ps);
        while i < n
            invariant
                n == buf.len() / 4,
                ps == chunks4(buf@),
                i <= n,
                self.wf(),
                rx_fold(old(self).rx_view(), ps) == rx_fold(self.rx_view(), ps.skip(i as int)),
            decreases n - i,
        {
            self.handle_usb_midi_packet(&buf[4 * i..4 * i + 4]);
            proof {
                assert(buf@.subrange(4 * i as int, 4 * i + 4) == ps[i as int]);
                assert(ps.skip(i as int).skip(1) =~= ps.skip(i + 1));
            }
            i += 1;
        }
        assert(ps.skip(n as int) =~= Seq::<Seq<u8>>::empty());
    }

    /// Takes the oldest received MIDI event.
    pub fn dequeue_midi_event(&mut self) -> (r: Option<MidiEvent>)
        requires
            old(self).wf(),
        ensures
            final(self).wf(),
            midi_events(old(self).midi_queue).len() == 0 ==> r is None,
            midi_events(old(self).midi_queue).len() > 0 ==> r == Some(
                midi_events(old(self).midi_queue)[0],
            ) && midi_events(final(self).midi_queue) == midi_events(
                old(self).midi_queue,
            ).drop_first(),
    {
        self.midi_queue.dequeue()
    }

    /// Takes the oldest received sysex message.
    pub fn dequeue_sysex_message(&mut self) -> (r: Option<SysexMessage>)
        requires
            old(self).wf(),
        ensures
            final(self).wf(),
            sysex_messages5(old(self).sysex_queue).len() == 0 ==> r is None,
            sysex_messages5(old(self).sysex_queue).len() > 0 ==> r == Some(
                sysex_messages5(old(self).sysex_queue)[0],
            ) && sysex_messages5(final(self).sysex_queue) == sysex_messages5(
                old(self).sysex_queue,
            ).drop_first(),
    {
        self.sysex_queue.dequeue()
    }
}

/// Sysex packets received after a prefix `pre` has been gathered end the
/// message `pre + s` and queue it, when the queue has room.
proof fn lemma_sysex_fold(pre: Seq<u8>, s: Seq<u8>, st: RxView)
    requires
        1 <= s.len(),
        pre.len() + s.len() <= SYSEX_MAX_LEN,
        st.0 == pre,
        st.3.len() < 4,
    ensures
        rx_fold(st, sysex_packets(0, s)) == (
            Seq::<u8>::empty(),
            MidiPort::Midi,
            st.2,
            st.3.push((MidiPort::Midi, pre + s)),
        ),
    decreases s.len(),
{
    let ps = sysex_packets(0, s);
    if s.len() > 3 {
        let p = sysex_cont_packet(0, s);
        assert(p[0] & 0x0f == 4) by {
            assert((0u8 | 4u8) & 0x0f == 4) by (bit_vector);
        }
        assert(p.subrange(1, 4) =~= s.take(3));
        let next = rx_step(st, p);
        assert(next == (pre + s.take(3), MidiPort::Midi, st.2, st.3));
        assert(ps.skip(1) =~= sysex_packets(0, s.skip(3)));
        lemma_sysex_fold(pre + s.take(3), s.skip(3), next);
        assert(pre + s.take(3) + s.skip(3) =~= pre + s);
    } else {
        let cin = (4 + s.len()) as u8;
        let p = sysex_end_packet(0, s);
        assert(p[0] & 0x0f == cin) by {
            assert(cin <= 7 ==> (0u8 | cin) & 0x0f == cin) by (bit_vector);
        }
        assert(p.subrange(1, cin - 3) =~= s);
        assert(ps.skip(1) =~= Seq::<Seq<u8>>::empty());
        let next = rx_step(st, p);
        assert(next == (
            Seq::<u8>::empty(),
            MidiPort::Midi,
            st.2,
            st.3.push((MidiPort::Midi, pre + s)),
        ));
        assert(rx_fold(next, ps.skip(1)) == next);
    }
}

/// A sysex message of up to 48 bytes (one transfer) sent with
/// `encode_packets` and received packet by packet arrives whole on the MIDI
/// port, when the sysex queue has room and no message was under way.
pub proof fn lemma_sysex_received_whole(data: Seq<u8>, st: RxView)
    requires
        1 <= data.len() <= 48,
        data[0] == 0xf0,
        st.0.len() == 0,
        st.3.len() < 4,
    ensures
        rx_fold(st, chunks4(encoded(data))) == (
            Seq::<u8>::empty(),
            MidiPort::Midi,
            st.2,
            st.3.push((MidiPort::Midi, data)),
        ),
{
    lemma_sysex_packet_count(0, data);
    assert(first_packets(sysex_packets(0, data), 16) == sysex_packets(0, data));
    lemma_chunks4_flatten(sysex_packets(0, data));
    assert(st.0 =~= Seq::<u8>::empty());
    lemma_sysex_fold(Seq::empty(), data, st);
    assert(Seq::<u8>::empty() + data =~= data);
}

} // verus!
