//! The single-producer, single-consumer queues of `heapless` that carry MIDI
//! traffic between a USB endpoint and the application.
//!
//! `heapless` seals the storage parameter of its queue, so the queue is held
//! in a struct of this crate; what each queue holds is named per item type.

use vstd::prelude::*;
use crate::app::MidiEvent;
use crate::sys::usb_midi::{MidiTxMessage, SysexMessage, UsbMidiPacket};

verus! {

/// A `heapless::spsc::Queue` of `N - 1` items at most, oldest first.
#[verifier::external_body]
#[verifier::reject_recursive_types(T)]
pub struct SpscQueue<T, const N: usize> {
    pub(crate) inner: heapless::spsc::Queue<T, N>,
}

/// What a queue of received MIDI events holds, oldest first.
pub uninterp spec fn midi_events(q: SpscQueue<MidiEvent, 1025>) -> Seq<MidiEvent>;

/// What a queue of three received sysex messages holds, oldest first.
pub uninterp spec fn sysex_messages3(q: SpscQueue<SysexMessage, 3>) -> Seq<SysexMessage>;

/// What a queue of five received sysex messages holds, oldest first.
pub uninterp spec fn sysex_messages5(q: SpscQueue<SysexMessage, 5>) -> Seq<SysexMessage>;

/// What a queue of outgoing USB-MIDI packets holds, oldest first.
pub uninterp spec fn tx_packets(q: SpscQueue<UsbMidiPacket, 513>) -> Seq<UsbMidiPacket>;

/// What a queue of outgoing MIDI messages holds, oldest first.
pub uninterp spec fn tx_messages(q: SpscQueue<MidiTxMessage, 17>) -> Seq<MidiTxMessage>;

impl SpscQueue<MidiEvent, 1025> {
    /// `Queue::new`: an empty queue.
    #[verifier::external_body]
    pub(crate) fn new() -> (r: Self)
        ensures
            midi_events(r) == Seq::<MidiEvent>::empty(),
    {
        SpscQueue { inner: heapless::spsc::Queue::new() }
    }

    /// `Queue::enqueue`: appends `item` unless the 1024 places are taken, and
    /// hands `item` back when they are.
    #[verifier::external_body]
    pub(crate) fn enqueue(&mut self, item: MidiEvent) -> (r: Result<(), MidiEvent>)
        ensures
            midi_events(*old(self)).len() < 1024 ==> r is Ok && midi_events(*final(self))
                == midi_events(*old(self)).push(item),
            midi_events(*old(self)).len() >= 1024 ==> (r matches Err(x) && x == item),
            midi_events(*old(self)).len() >= 1024 ==> midi_events(*final(self)) == midi_events(*old(self)),
    {
        self.inner.enqueue(item)
    }

    /// `Queue::dequeue`: removes and returns the oldest item.
    #[verifier::external_body]
    pub(crate) fn dequeue(&mut self) -> (r: Option<MidiEvent>)
        ensures
            midi_events(*old(self)).len() == 0 ==> r is None && midi_events(*final(self))
                == midi_events(*old(self)),
            midi_events(*old(self)).len() > 0 ==> r == Some(midi_events(*old(self))[0])
                && midi_events(*final(self)) == midi_events(*old(self)).drop_first(),
    {
        self.inner.dequeue()
    }
}

impl SpscQueue<SysexMessage, 3> {
    /// `Queue::new`: an empty queue.
    #[verifier::external_body]
    pub(crate) fn new() -> (r: Self)
        ensures
            sysex_messages3(r) == Seq::<SysexMessage>::empty(),
    {
        SpscQueue { inner: heapless::spsc::Queue::new() }
    }

    /// `Queue::enqueue`: appends `item` unless the two places are taken, and
    /// hands `item` back when they are.
    #[verifier::external_body]
    pub(crate) fn enqueue(&mut self, item: SysexMessage) -> (r: Result<(), SysexMessage>)
        ensures
            sysex_messages3(*old(self)).len() < 2 ==> r is Ok && sysex_messages3(*final(self))
                == sysex_messages3(*old(self)).push(item),
            sysex_messages3(*old(self)).len() >= 2 ==> (r matches Err(x) && x == item),
            sysex_messages3(*old(self)).len() >= 2 ==> sysex_messages3(*final(self)) == sysex_messages3(*old(self)),
    {
        self.inner.enqueue(item)
    }

    /// `Queue::dequeue`: removes and returns the oldest item.
    #[verifier::external_body]
    pub(crate) fn dequeue(&mut self) -> (r: Option<SysexMessage>)
        ensures
            sysex_messages3(*old(self)).len() == 0 ==> r is None && sysex_messages3(*final(self))
                == sysex_messages3(*old(self)),
            sysex_messages3(*old(self)).len() > 0 ==> r == Some(sysex_messages3(*old(self))[0])
                && sysex_messages3(*final(self)) == sysex_messages3(*old(self)).drop_first(),
    {
        self.inner.dequeue()
    }
}

impl SpscQueue<SysexMessage, 5> {
    /// `Queue::new`: an empty queue.
    #[verifier::external_body]
    pub(crate) fn new() -> (r: Self)
        ensures
            sysex_messages5(r) == Seq::<SysexMessage>::empty(),
    {
        SpscQueue { inner: heapless::spsc::Queue::new() }
    }

    /// `Queue::enqueue`: appends `item` unless the four places are taken, and
    /// hands `item` back when they are.
    #[verifier::external_body]
    pub(crate) fn enqueue(&mut self, item: SysexMessage) -> (r: Result<(), SysexMessage>)
        ensures
            sysex_messages5(*old(self)).len() < 4 ==> r is Ok && sysex_messages5(*final(self))
                == sysex_messages5(*old(self)).push(item),
            sysex_messages5(*old(self)).len() >= 4 ==> (r matches Err(x) && x == item),
            sysex_messages5(*old(self)).len() >= 4 ==> sysex_messages5(*final(self)) == sysex_messages5(*old(self)),
    {
        self.inner.enqueue(item)
    }

    /// `Queue::dequeue`: removes and returns the oldest item.
    #[verifier::external_body]
    pub(crate) fn dequeue(&mut self) -> (r: Option<SysexMessage>)
        ensures
            sysex_messages5(*old(self)).len() == 0 ==> r is None && sysex_messages5(*final(self))
                == sysex_messages5(*old(self)),
            sysex_messages5(*old(self)).len() > 0 ==> r == Some(sysex_messages5(*old(self))[0])
                && sysex_messages5(*final(self)) == sysex_messages5(*old(self)).drop_first(),
    {
        self.inner.dequeue()
    }
}

impl SpscQueue<UsbMidiPacket, 513> {
    /// `Queue::new`: an empty queue.
    #[verifier::external_body]
    pub(crate) fn new() -> (r: Self)
        ensures
            tx_packets(r) == Seq::<UsbMidiPacket>::empty(),
    {
        SpscQueue { inner: heapless::spsc::Queue::new() }
    }

    /// `Queue::enqueue`: appends `item` unless the 512 places are taken, and
    /// hands `item` back when they are.
    #[verifier::external_body]
    pub(crate) fn enqueue(&mut self, item: UsbMidiPacket) -> (r: Result<(), UsbMidiPacket>)
        ensures
            tx_packets(*old(self)).len() < 512 ==> r is Ok && tx_packets(*final(self))
                == tx_packets(*old(self)).push(item),
            tx_packets(*old(self)).len() >= 512 ==> (r matches Err(x) && x == item),
            tx_packets(*old(self)).len() >= 512 ==> tx_packets(*final(self)) == tx_packets(*old(self)),
    {
        self.inner.enqueue(item)
    }

    /// `Queue::dequeue`: removes and returns the oldest item.
    #[verifier::external_body]
    pub(crate) fn dequeue(&mut self) -> (r: Option<UsbMidiPacket>)
        ensures
            tx_packets(*old(self)).len() == 0 ==> r is None && tx_packets(*final(self))
                == tx_packets(*old(self)),
            tx_packets(*old(self)).len() > 0 ==> r == Some(tx_packets(*old(self))[0])
                && tx_packets(*final(self)) == tx_packets(*old(self)).drop_first(),
    {
        self.inner.dequeue()
    }

    /// `Queue::len`: the number of items held, at most 512.
    #[verifier::external_body]
    pub(crate) fn len(&self) -> (r: usize)
        ensures
            r == tx_packets(*self).len(),
            r <= 512,
    {
        self.inner.len()
    }

    /// `Queue::capacity`: the 512 places of this queue.
    #[verifier::external_body]
    pub(crate) fn capacity(&self) -> (r: usize)
        ensures
            r == 512,
    {
        self.inner.capacity()
    }
}

impl SpscQueue<MidiTxMessage, 17> {
    /// `Queue::new`: an empty queue.
    #[verifier::external_body]
    pub(crate) fn new() -> (r: Self)
        ensures
            tx_messages(r) == Seq::<MidiTxMessage>::empty(),
    {
        SpscQueue { inner: heapless::spsc::Queue::new() }
    }

    /// `Queue::enqueue`: appends `item` unless the 16 places are taken, and
    /// hands `item` back when they are.
    #[verifier::external_body]
    pub(crate) fn enqueue(&mut self, item: MidiTxMessage) -> (r: Result<(), MidiTxMessage>)
        ensures
            tx_messages(*old(self)).len() < 16 ==> r is Ok && tx_messages(*final(self))
                == tx_messages(*old(self)).push(item),
            tx_messages(*old(self)).len() >= 16 ==> (r matches Err(x) && x == item),
            tx_messages(*old(self)).len() >= 16 ==> tx_messages(*final(self)) == tx_messages(*old(self)),
    {
        self.inner.enqueue(item)
    }

    /// `Queue::dequeue`: removes and returns the oldest item.
    #[verifier::external_body]
    pub(crate) fn dequeue(&mut self) -> (r: Option<MidiTxMessage>)
        ensures
            tx_messages(*old(self)).len() == 0 ==> r is None && tx_messages(*final(self))
                == tx_messages(*old(self)),
            tx_messages(*old(self)).len() > 0 ==> r == Some(tx_messages(*old(self))[0])
                && tx_messages(*final(self)) == tx_messages(*old(self)).drop_first(),
    {
        self.inner.dequeue()
    }
}

} // verus!
