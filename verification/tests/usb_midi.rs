use firmware_core::app::MidiEvent;
use firmware_core::devices::launchpad_mk2::usb::{encode_sysex_packets, encode_usb_midi_packets, UsbMidi};
use firmware_core::devices::launchpad_pro_mk3::usb as mk3;
use firmware_core::devices::mystrix_pro::usb as mystrix;
use firmware_core::sys::driver::launchpad_s_and_mini::ring::Ring;
use firmware_core::sys::driver::launchpad_s_and_mini::usb::{convert_midi_stream_to_packets, rx_count, UsbState};
use firmware_core::sys::midi::MidiPort;
use firmware_core::sys::usb_midi::{short_message_format, UsbMidiPacket};

fn packet_bytes(ps: &[UsbMidiPacket]) -> Vec<u8> {
    ps.iter().flat_map(|p| p.data).collect()
}

#[test]
fn short_message_formats() {
    assert_eq!(short_message_format(0x90), Some((0x9, 3)));
    assert_eq!(short_message_format(0xc3), Some((0xc, 2)));
    assert_eq!(short_message_format(0xf2), Some((0x3, 3)));
    assert_eq!(short_message_format(0xf6), Some((0x5, 1)));
    assert_eq!(short_message_format(0xf8), Some((0xf, 1)));
    assert_eq!(short_message_format(0xf0), None);
    assert_eq!(short_message_format(0x40), None);
}

#[test]
fn cable_numbers_of_ports() {
    for port in [MidiPort::Daw, MidiPort::Midi, MidiPort::Din] {
        assert_eq!(MidiPort::from_cable(port.as_cable()), port);
    }
    assert_eq!(MidiPort::from_usb_cable(1), Some(MidiPort::Midi));
    assert_eq!(MidiPort::from_usb_cable(2), None);
    assert_eq!(MidiPort::from_cable(7), MidiPort::Din);
}

#[test]
fn mk2_encodes_short_messages_and_sysex() {
    let ps = encode_usb_midi_packets(0, &[0x90, 60, 100]).unwrap();
    assert_eq!(packet_bytes(&ps), vec![0x09, 0x90, 60, 100]);
    let ps = encode_usb_midi_packets(1, &[0xc0, 5]).unwrap();
    assert_eq!(packet_bytes(&ps), vec![0x1c, 0xc0, 5, 0]);
    let ps = encode_sysex_packets(0, &[0xf0, 1, 2, 3, 0xf7]).unwrap();
    assert_eq!(packet_bytes(&ps), vec![0x04, 0xf0, 1, 2, 0x06, 3, 0xf7, 0]);
    assert!(encode_usb_midi_packets(0, &[]).is_err());
    assert!(encode_usb_midi_packets(0, &[0xf4]).is_err());
    assert!(encode_usb_midi_packets(0, &[0x90, 60]).is_err());
    assert!(encode_usb_midi_packets(0, &vec![0xf0u8; 49]).is_err());
}

#[test]
fn mk2_sysex_round_trip() {
    let message: Vec<u8> = [0xf0u8, 0x00, 0x20, 0x29, 0x02, 0x18, 0x0a, 11, 5, 0xf7].to_vec();
    let mut tx = UsbMidi::new();
    tx.enqueue_tx_message(1, &message).unwrap();
    let payload = tx.try_start_in_tx().unwrap();
    assert!(tx.try_start_in_tx().is_none());
    let mut rx = UsbMidi::new();
    rx.receive_packets(&payload);
    let got = rx.dequeue_sysex_message().unwrap();
    assert_eq!(got.port, MidiPort::Midi);
    assert_eq!(got.data, message);
    assert!(rx.dequeue_sysex_message().is_none());
    assert!(rx.dequeue_midi_event().is_none());
}

#[test]
fn mk2_receives_short_messages() {
    let mut rx = UsbMidi::new();
    rx.receive_packets(&[0x09, 0x90, 60, 100, 0x00, 0, 0, 0, 0x1b, 0xb0, 7, 1]);
    assert_eq!(rx.dequeue_midi_event(), Some(MidiEvent { port: MidiPort::Daw, status: 0x90, data1: 60, data2: 100 }));
    assert_eq!(rx.dequeue_midi_event(), Some(MidiEvent { port: MidiPort::Midi, status: 0xb0, data1: 7, data2: 1 }));
    assert_eq!(rx.dequeue_midi_event(), None);
}

#[test]
fn mk2_sends_sixteen_packets_per_transfer() {
    let mut tx = UsbMidi::new();
    for i in 0..20u8 {
        tx.enqueue_tx_message(0, &[0x90, i, 1]).unwrap();
    }
    assert_eq!(tx.try_start_in_tx().unwrap().len(), 64);
    assert_eq!(tx.try_start_in_tx().unwrap().len(), 16);
    assert!(tx.try_start_in_tx().is_none());
}

#[test]
fn mk3_transfers_cover_a_long_sysex() {
    let mut message = vec![0xf0u8];
    message.extend((0..100).map(|i| i as u8 & 0x7f));
    message.push(0xf7);
    let mut offset = 0;
    let mut stream = Vec::new();
    while offset < message.len() {
        let (bytes, used) = mk3::next_tx_transfer(2, &message, offset).unwrap();
        assert!(bytes.len() <= 64);
        stream.extend(bytes);
        offset += used;
    }
    let mut rx = mk3::UsbMidiRx::new();
    rx.receive_packets(&stream);
    let got = rx.dequeue_sysex_message().unwrap();
    assert_eq!(got.port, MidiPort::Din);
    assert_eq!(got.data, message);
}

#[test]
fn mk3_encodes_short_messages() {
    assert_eq!(mk3::encode_usb_midi_packets(1, &[0x80, 60, 0]), (vec![0x18, 0x80, 60, 0], 3));
    assert_eq!(mk3::encode_usb_midi_packets(0, &[0xf4]), (vec![], 0));
    assert_eq!(mk3::encode_sysex_packets(0x20, &[0xf0, 0xf7]), (vec![0x26, 0xf0, 0xf7, 0], 2));
}

#[test]
fn mk3_tx_queue_holds_sixteen_messages() {
    let mut q = mk3::new_tx_queue();
    assert!(mk3::dequeue_tx_message(&mut q).is_none());
    for i in 0..16u8 {
        mk3::enqueue_tx_message(&mut q, 1, &[0x90, i, 1]).unwrap();
    }
    assert!(mk3::enqueue_tx_message(&mut q, 1, &[0x90, 1, 1]).is_err());
    assert!(mk3::enqueue_tx_message(&mut mk3::new_tx_queue(), 1, &[]).is_err());
    let first = mk3::dequeue_tx_message(&mut q).unwrap();
    assert_eq!(first.port, 1);
    assert_eq!(first.data, vec![0x90, 0, 1]);
    assert_eq!(mk3::dequeue_tx_message(&mut q).unwrap().data, vec![0x90, 1, 1]);
}

#[test]
fn mystrix_encodes_and_receives() {
    assert_eq!(mystrix::encode_packets(&[0x90, 60, 100]), vec![0x09, 0x90, 60, 100]);
    assert_eq!(mystrix::encode_sysex(0, &[0xf0, 1, 0xf7]), vec![0x07, 0xf0, 1, 0xf7]);
    let mut q = mystrix::new_tx_queue();
    assert!(mystrix::enqueue_tx_message(&mut q, &[0xf0, 0xf7]));
    assert!(!mystrix::enqueue_tx_message(&mut q, &[]));
    assert_eq!(mystrix::dequeue_tx_message(&mut q).unwrap().data, vec![0xf0, 0xf7]);
    assert!(mystrix::dequeue_tx_message(&mut q).is_none());
    let mut rx = mystrix::UsbMidiRx::new();
    rx.receive_packets(&[0x04, 0xf0, 1, 2, 0x05, 0xf7, 0, 0, 0x09, 0x90, 1, 2]);
    assert_eq!(rx.dequeue_sysex_message().unwrap().data, vec![0xf0, 1, 2, 0xf7]);
    assert_eq!(rx.dequeue_midi_event(), Some(MidiEvent { port: MidiPort::Midi, status: 0x90, data1: 1, data2: 2 }));
}

#[test]
fn launchpad_s_stream_conversion() {
    let ps = convert_midi_stream_to_packets(&[0x90, 60, 100, 0x80, 60, 0], 0x10).unwrap();
    assert_eq!(packet_bytes(&ps), vec![0x19, 0x90, 60, 100, 0x18, 0x80, 60, 0]);
    assert!(convert_midi_stream_to_packets(&[0xf4], 0).unwrap().is_empty());
    let many: Vec<u8> = (0..17).flat_map(|_| [0x90u8, 60, 100]).collect();
    assert!(convert_midi_stream_to_packets(&many, 0).is_err());
    assert_eq!(convert_midi_stream_to_packets(&many[..48], 0).unwrap().len(), 16);
}

#[test]
fn launchpad_s_queues_and_pumps() {
    let mut usb = UsbState::new();
    assert!(usb.enqueue_tx_message(0, &[0x90, 60, 100]));
    assert!(usb.pump_tx(true).is_none());
    assert_eq!(usb.pump_tx(false).unwrap(), vec![0x09, 0x90, 60, 100]);
    assert!(usb.pump_tx(false).is_none());
    usb.parse_usb_midi_packets(&[0x09, 0x90, 61, 1]);
    assert_eq!(usb.dequeue_midi_event().unwrap().data1, 61);
}

#[test]
fn rx_count_fields() {
    assert_eq!(rx_count(64), 0x8000 | (1 << 10));
    assert_eq!(rx_count(8), 4 << 10);
    assert_eq!(rx_count(0), 0);
}

#[test]
fn ring_is_first_in_first_out() {
    let mut ring: Ring<u8, 4> = Ring::new(0);
    assert!(ring.push(1));
    assert!(ring.push(2));
    assert!(ring.push(3));
    assert!(!ring.push(4));
    assert_eq!(ring.pop(), Some(1));
    assert!(ring.push(5));
    assert_eq!(ring.pop(), Some(2));
    assert_eq!(ring.pop(), Some(3));
    assert_eq!(ring.pop(), Some(5));
    assert_eq!(ring.pop(), None);
}
