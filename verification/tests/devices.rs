use firmware_core::app::{AftertouchEvent, SurfaceEvent as AppSurfaceEvent};
use firmware_core::devices::launchpad_pro::inputs::GridEvent as ProGridEvent;
use firmware_core::devices::launchpad_pro::runloop::{app_input, tick_divider, AppInput};
use firmware_core::devices::mystrix_pro::grid::{HardwareEvent, PadState, PressureEvent};
use firmware_core::devices::launchpad_x::inputs::{new_sensor, GridEventKind};
use firmware_core::devices::mystrix_pro::runloop::{loop_tick, route_hardware_event, EventRoute, LoopState as MystrixLoop};
use firmware_core::app::boot::{BootAnimation, BootChange, BootFrame};
use firmware_core::devices::launchpad_mini_mk1::surface::{
    apply_led_brightness, index_to_key, key_to_index, ScanAction, Surface, SurfaceEvent, BRIGHT_TICKS, NKEYS,
    SHIFT_TICKS,
};
use firmware_core::devices::launchpad_mini_mk3::led_scan::{timer_arr_from_us, LedScan, ScanStep};
use firmware_core::devices::launchpad_mk2::descriptors::{descriptor, handle_setup, DEVICE_DESCRIPTOR, EP0_MAX_PACKET};
use firmware_core::devices::launchpad_pro::grid::{pack_sequence, set_pin_mode, Grid, ScanPhase};
use firmware_core::devices::launchpad_pro::leds::{Leds, GROUP_COUNT, RED_MAP};
use firmware_core::devices::launchpad_pro_mk3::midi_class::{
    audio_control_header, in_endpoint_descriptor, jack_descriptors, midi_streaming_header, named_string,
    out_endpoint_descriptor,
};
use firmware_core::devices::launchpad_x::grid::side_sample_from_idr;
use firmware_core::devices::launchpad_s::hw::{Interrupt, TickEvents, EVENT_1KHZ, EVENT_200HZ, EVENT_20HZ};
use firmware_core::devices::mystrix_pro::leds::expand6;
use firmware_core::sys::driver::launchpad_s_and_mini::ring::Ring;
use firmware_core::sys::driver::launchpad_s_and_mini::usb::{ControlState, SetupAction};
use firmware_core::sys::midi::MidiPort;
use firmware_core::sys::rotation::{decode, encode, to_canonical, to_canonical_grid_only, to_raw, Rotation};

#[test]
fn mini_mk1_brightness_curve() {
    assert_eq!(apply_led_brightness(63, 7), 63);
    assert_eq!(apply_led_brightness(63, 0), 10);
    assert_eq!(apply_led_brightness(0, 7), 0);
    assert_eq!(apply_led_brightness(200, 9), 63);
    assert_eq!(apply_led_brightness(1, 3), 1);
}

#[test]
fn mini_mk1_key_index_mapping() {
    assert_eq!(key_to_index(0), 81);
    assert_eq!(key_to_index(8), 89);
    assert_eq!(key_to_index(71), 19);
    assert_eq!(key_to_index(72), 91);
    assert_eq!(index_to_key(99), 80);
    assert_eq!(index_to_key(0), NKEYS);
    assert_eq!(index_to_key(90), NKEYS);
    for key in 0..NKEYS {
        assert_eq!(index_to_key(key_to_index(key)), key);
    }
}

#[test]
fn mini_mk1_debounced_press_and_release() {
    let mut s = Surface::new();
    s.store_switch_scan(0, [0x80, 0, 0, 0]);
    s.tick_1khz();
    s.tick_1khz();
    assert_eq!(s.poll_event(), None);
    s.tick_1khz();
    assert_eq!(s.poll_event(), Some(SurfaceEvent::Press { index: 87, value: 127 }));
    s.store_switch_scan(0, [0, 0, 0, 0]);
    for _ in 0..39 {
        s.tick_1khz();
    }
    assert_eq!(s.poll_event(), None);
    s.tick_1khz();
    assert_eq!(s.poll_event(), Some(SurfaceEvent::Release { index: 87 }));
    assert_eq!(s.poll_event(), None);
}

#[test]
fn mini_mk1_scan_cycle() {
    let mut s = Surface::new();
    assert_eq!(s.isr_step(), (SHIFT_TICKS, ScanAction::Blank));
    assert_eq!(s.isr_step(), (SHIFT_TICKS, ScanAction::ShiftOut));
    assert_eq!(s.isr_step(), (BRIGHT_TICKS[0], ScanAction::SelectColumn(0)));
    assert_eq!(s.isr_step(), (SHIFT_TICKS, ScanAction::EnableOutput));
    assert_eq!(s.isr_step(), (SHIFT_TICKS, ScanAction::Idle));
    assert_eq!(s.col, 1);
    assert_eq!(s.phase, 0);
}

#[test]
fn mini_mk1_brightness_is_capped() {
    let mut s = Surface::new();
    s.set_brightness(12);
    assert_eq!(s.brightness(), 7);
    s.set_brightness(2);
    assert_eq!(s.brightness(), 2);
}

#[test]
fn pro_pack_and_pin_mode() {
    assert_eq!(pack_sequence(&[1, 2, 3]), 1 | (2 << 5) | (3 << 10));
    assert_eq!(pack_sequence(&[]), 0);
    assert_eq!(set_pin_mode(0xffff_ffff, 9, 4), 0xffff_ff4f);
    assert_eq!(set_pin_mode(0, 7, 0xf), 0xf000_0000);
}

#[test]
fn pro_power_mode_needs_three_samples() {
    let (mut grid, mode) = Grid::new(false);
    assert_eq!(mode, 1);
    assert_eq!(grid.poll_power_mode(true), None);
    assert_eq!(grid.poll_power_mode(true), None);
    assert_eq!(grid.poll_power_mode(true), Some(2));
    assert_eq!(grid.poll_power_mode(true), None);
    assert_eq!(grid.poll_power_mode(false), None);
    assert_eq!(grid.poll_power_mode(true), None);
}

#[test]
fn pro_scan_phases_repeat() {
    let (mut grid, _) = Grid::new(true);
    assert_eq!(grid.scan_step(false), (ScanPhase::Blank, 10));
    assert_eq!(grid.scan_step(false), (ScanPhase::ArmTransfer, 10));
    assert_eq!(grid.scan_step(false), (ScanPhase::StartTransfer, 50));
    assert_eq!(grid.scan_step(false), (ScanPhase::AwaitTransfer, 1));
    assert_eq!(grid.scan_step(false), (ScanPhase::AwaitTransfer, 1));
    assert_eq!(grid.selected_group, 0);
    assert_eq!(grid.scan_step(true), (ScanPhase::Bright(0), 5));
    assert_eq!(grid.selected_group, 1);
    assert_eq!(grid.scan_step(true), (ScanPhase::Blank, 10));
}

#[test]
fn pro_led_lights_every_plane() {
    let mut leds = Leds::new();
    let mut out = [0u8; 10];
    leds.build_group_payload(0, 0, &mut out);
    assert_eq!(out, [0xff; 10]);
    leds.set_led_rgb(11, 63, 0, 0);
    let bit = RED_MAP[11] as usize;
    let group = bit / 80;
    let byte = (bit % 80) / 8;
    let mask = 1u8 << (bit % 8);
    for plane in 0..6 {
        leds.build_group_payload(group, plane, &mut out);
        assert_eq!(out[byte] & mask, 0);
    }
    leds.build_group_payload(GROUP_COUNT, 0, &mut out);
    assert_eq!(out, [0xff; 10]);
    leds.clear();
    leds.build_group_payload(group, 0, &mut out);
    assert_eq!(out[byte] & mask, mask);
}

#[test]
fn launchpad_s_tick_events() {
    let mut t = TickEvents::new();
    for _ in 0..5 {
        t.tick();
    }
    assert_eq!(t.take_events(EVENT_1KHZ | EVENT_200HZ), EVENT_1KHZ | EVENT_200HZ);
    assert_eq!(t.take_events(EVENT_1KHZ), 0);
    for _ in 0..45 {
        t.tick();
    }
    assert_eq!(t.take_events(EVENT_20HZ), EVENT_20HZ);
    assert_eq!(Interrupt::Tim2.number(), 28);
    assert_eq!(Interrupt::UsbLpCanRx0.number(), 20);
}

#[test]
fn mini_mk3_scan_alternates() {
    let mut scan = LedScan::new();
    assert_eq!(scan.next_step(), ScanStep::Prepare);
    assert_eq!(scan.next_step(), ScanStep::Drive);
    scan.finish_drive(true);
    assert!(scan.take_frame_complete());
    assert!(!scan.take_frame_complete());
    assert_eq!(timer_arr_from_us(3), 24);
    assert_eq!(timer_arr_from_us(500), 500);
    assert_eq!(timer_arr_from_us(100_000), u16::MAX);
}

#[test]
fn pro_mk3_class_descriptors() {
    assert_eq!(audio_control_header(2), [0x01, 0x00, 0x01, 0x09, 0x00, 0x01, 3]);
    assert_eq!(midi_streaming_header(2, 2), [1, 0, 1, 93, 0]);
    assert_eq!(midi_streaming_header(16, 16), [1, 0, 1, (541 % 256) as u8, (541 / 256) as u8]);
    let jacks = jack_descriptors(1, 1, 5, [6, 7]);
    assert_eq!(
        jacks,
        vec![vec![2, 2, 1, 0], vec![2, 1, 4, 6], vec![3, 2, 3, 1, 4, 1, 0], vec![3, 1, 2, 1, 1, 1, 6]]
    );
    assert_eq!(out_endpoint_descriptor(1, 1), vec![1, 1, 4]);
    assert_eq!(in_endpoint_descriptor(2), vec![1, 2, 2, 4]);
    assert_eq!(named_string(9, 9, "iface", [3, 4], ["a", "b"]), Some("iface"));
    assert_eq!(named_string(4, 9, "iface", [3, 4], ["a", "b"]), Some("b"));
    assert_eq!(named_string(5, 9, "iface", [3, 4], ["a", "b"]), None);
}

#[test]
fn mk2_device_descriptor_in_packets() {
    assert_eq!(descriptor(1, 0), Some(DEVICE_DESCRIPTOR.to_vec()));
    assert_eq!(descriptor(9, 0), None);
    let mut control = ControlState::with_max_packet(EP0_MAX_PACKET);
    match handle_setup(&mut control, [0x80, 0x06, 0, 1, 0, 0, 18, 0]) {
        SetupAction::Send(p) => assert_eq!(p, DEVICE_DESCRIPTOR[..8].to_vec()),
        other => panic!("unexpected {:?}", other),
    }
    assert_eq!(control.send_next_ep0_packet(), DEVICE_DESCRIPTOR[8..16].to_vec());
    assert_eq!(control.send_next_ep0_packet(), DEVICE_DESCRIPTOR[16..].to_vec());
    assert!(matches!(handle_setup(&mut control, [0x80, 0x06, 0, 7, 0, 0, 18, 0]), SetupAction::Stall));
}

#[test]
fn rotation_moves_and_returns() {
    assert_eq!(to_canonical(11, Rotation::Left), 18);
    assert_eq!(to_raw(18, Rotation::Left), 11);
    assert_eq!(to_canonical(11, Rotation::UpsideDown), 88);
    assert_eq!(to_canonical(99, Rotation::Right), 99);
    assert_eq!(to_canonical_grid_only(5, Rotation::Right), 5);
    assert_eq!(decode(0), None);
    assert_eq!(decode(95), Some((9, 5)));
    assert_eq!(encode(9, 5), 95);
    for index in 0..=255u8 {
        for rotation in [Rotation::Default, Rotation::Left, Rotation::Right, Rotation::UpsideDown] {
            assert_eq!(to_raw(to_canonical(index, rotation), rotation), index);
        }
    }
}

#[test]
fn midi_cable_numbers() {
    assert_eq!(MidiPort::from_usb_cable(1), Some(MidiPort::Midi));
    assert_eq!(MidiPort::from_usb_cable(2), None);
    assert_eq!(MidiPort::from_cable(7), MidiPort::Din);
    for port in [MidiPort::Daw, MidiPort::Midi, MidiPort::Din] {
        assert_eq!(MidiPort::from_cable(port.as_cable()), port);
    }
}

#[test]
fn ring_keeps_order_and_one_free_slot() {
    let mut ring: Ring<u8, 4> = Ring::new(0);
    assert!(ring.push(1));
    assert!(ring.push(2));
    assert!(ring.push(3));
    assert!(!ring.push(4));
    assert_eq!(ring.pop(), Some(1));
    assert!(ring.push(5));
    assert_eq!(ring.pop(), Some(2));
    assert_eq!(ring.pop(), Some(3));
    assert_eq!(ring.pop(), Some(5));
    assert_eq!(ring.pop(), None);
}

#[test]
fn mystrix_expand_six_bits() {
    assert_eq!(expand6(0x3f), 0xff);
    assert_eq!(expand6(0), 0);
    assert_eq!(expand6(0x20), 0x82);
    assert_eq!(expand6(0x7f), 0xff);
}

#[test]
fn boot_animation_parses_header() {
    let bytes = [10, 0, 1, 0, 2, 0, 0, 0, 3, 0, 2, 0, 11, 5, 12, 6];
    let anim = BootAnimation::from_bytes(&bytes).unwrap();
    assert_eq!(anim.end_tick, 10);
    assert_eq!(anim.frames, vec![BootFrame { tick: 3, count: 2 }]);
    assert_eq!(anim.changes, vec![BootChange { led: 11, velocity: 5 }, BootChange { led: 12, velocity: 6 }]);
    assert!(BootAnimation::from_bytes(&bytes[..15]).is_none());
    assert!(BootAnimation::from_bytes(&bytes[..7]).is_none());
}

#[test]
fn launchpad_x_side_inputs_sample() {
    assert_eq!(side_sample_from_idr(0b1011), 0x1011);
    assert_eq!(side_sample_from_idr(0xf0), 0);
    assert_eq!(side_sample_from_idr(0xffff_ffff), 0x1111);
}

#[test]
fn mystrix_loop_schedule() {
    use_mystrix_loop();
}

fn use_mystrix_loop() {
    let mut state = MystrixLoop::new();
    let mut scans = 0;
    let mut full = 0;
    let mut shows = 0;
    let mut pressure = 0;
    for _ in 0..1000 {
        let a = loop_tick(&mut state, true);
        scans += a.scan as u32;
        full += a.full_scan as u32;
        shows += a.show_leds as u32;
        pressure += a.pressure_display as u32;
        assert!(!a.deliver_messages);
    }
    assert_eq!(state.now_ms, 1000);
    assert_eq!((scans, full, pressure, shows), (250, 125, 62, 300));
    assert!(loop_tick(&mut state, false).deliver_messages);
    let ev = HardwareEvent::Surface { pressed: true, index: 11, value: 90 };
    assert_eq!(route_hardware_event(ev, true), EventRoute::Diagnostic(ev));
    assert_eq!(
        route_hardware_event(HardwareEvent::Aftertouch { index: 12, value: 3 }, false),
        EventRoute::Aftertouch(AftertouchEvent { index: 12, value: 3 })
    );
}

#[test]
fn pro_loop_divider_and_inputs() {
    let mut d = 0u8;
    let mut runs = 0;
    for _ in 0..10 {
        let (next, run) = tick_divider(d);
        d = next;
        runs += run as u32;
    }
    assert_eq!((d, runs), (0, 2));
    assert_eq!(
        app_input(ProGridEvent::Release { index: 7 }),
        AppInput::Surface(AppSurfaceEvent { pressed: false, index: 7, value: 0 })
    );
    assert_eq!(
        app_input(ProGridEvent::Press { index: 7, value: 100 }),
        AppInput::Surface(AppSurfaceEvent { pressed: true, index: 7, value: 100 })
    );
}

#[test]
fn mystrix_chain_ids_round_trip() {
    use_chain_ids();
}

fn use_chain_ids() {
    for i in 0..96usize {
        let l = firmware_core::devices::mystrix_pro::grid::physical_to_logical(i).unwrap();
        assert_eq!(firmware_core::devices::mystrix_pro::grid::logical_to_physical(l), Some(i));
    }
    for l in [0u8, 9, 90, 99, 100, 255] {
        assert_eq!(firmware_core::devices::mystrix_pro::grid::logical_to_physical(l), None);
    }
}

#[test]
fn mini_mk1_queue_keeps_seven_in_order_and_drops_the_rest() {
    let mut s = Surface::new();
    s.store_switch_scan(0, [0xff, 0, 0, 0]);
    for _ in 0..3 {
        s.tick_1khz();
    }
    for index in [87u8, 77, 67, 57, 47, 37, 27] {
        assert_eq!(s.poll_event(), Some(SurfaceEvent::Press { index, value: 127 }));
    }
    assert_eq!(s.poll_event(), None);
    assert_eq!(s.poll_event(), None);
}

#[test]
fn mini_mk1_pressed_reading_restarts_release_count() {
    let mut s = Surface::new();
    s.store_switch_scan(0, [0x80, 0, 0, 0]);
    for _ in 0..3 {
        s.tick_1khz();
    }
    assert_eq!(s.poll_event(), Some(SurfaceEvent::Press { index: 87, value: 127 }));
    s.store_switch_scan(0, [0, 0, 0, 0]);
    for _ in 0..39 {
        s.tick_1khz();
    }
    s.store_switch_scan(0, [0x80, 0, 0, 0]);
    s.tick_1khz();
    s.store_switch_scan(0, [0, 0, 0, 0]);
    for _ in 0..39 {
        s.tick_1khz();
    }
    assert_eq!(s.poll_event(), None);
    s.tick_1khz();
    assert_eq!(s.poll_event(), Some(SurfaceEvent::Release { index: 87 }));
}

#[test]
fn mini_mk3_frame_reported_once() {
    let mut scan = LedScan::new();
    assert!(!scan.take_frame_complete());
    scan.finish_drive(true);
    scan.finish_drive(false);
    assert!(scan.take_frame_complete());
    scan.finish_drive(false);
    assert!(!scan.take_frame_complete());
}

#[test]
fn pro_power_mode_from_power_up_needs_three_agreeing_samples() {
    let (mut grid, mode) = Grid::new(true);
    assert_eq!(mode, 2);
    assert_eq!(grid.poll_power_mode(true), None);
    assert_eq!(grid.poll_power_mode(false), None);
    assert_eq!(grid.poll_power_mode(false), None);
    assert_eq!(grid.poll_power_mode(true), None);
    assert_eq!(grid.poll_power_mode(false), None);
    assert_eq!(grid.poll_power_mode(false), None);
    assert_eq!(grid.poll_power_mode(false), Some(1));
}

#[test]
fn mystrix_pad_presses_and_releases_in_turn() {
    let mut pad = PadState::new();
    let mut events = Vec::new();
    let readings: [(u32, u16); 12] =
        [(0, 10), (1, 900), (2, 950), (5, 1000), (6, 1000), (7, 20), (8, 20), (12, 20), (13, 900), (14, 900), (18, 900), (19, 10)];
    for (t, v) in readings {
        if let Some(e) = pad.update(t, v, v, 64, 1000) {
            if !matches!(e, PressureEvent::Aftertouch { .. }) {
                events.push(e);
            }
        }
    }
    assert_eq!(events.len(), 3);
    assert!(matches!(events[0], PressureEvent::Press { velocity } if (1..=127).contains(&velocity)));
    assert!(matches!(events[1], PressureEvent::Release));
    assert!(matches!(events[2], PressureEvent::Press { velocity } if (1..=127).contains(&velocity)));
}

#[test]
fn mystrix_pad_stays_silent_below_threshold() {
    let mut pad = PadState::new();
    for t in 0..50u32 {
        assert!(pad.update(t, 128, 128, 64, 1000).is_none());
    }
    assert!(!pad.active);
    assert!(pad.update(50, 129, 129, 64, 1000).is_none());
    assert!(matches!(pad.update(54, 129, 129, 64, 1000), Some(PressureEvent::Press { .. })));
}

#[test]
fn launchpad_x_sensor_press_then_release() {
    let mut sensor = new_sensor();
    assert!(sensor.update(0x100).is_empty());
    let mut kinds = Vec::new();
    let mut press_at = None;
    let mut release_at = None;
    for step in 0..120usize {
        let raw = if step < 5 { 0x100 } else if step < 20 { 0x0dac } else { 0x100 };
        for (kind, _) in sensor.update(raw) {
            if kind == GridEventKind::Press {
                press_at = Some(step);
            }
            if kind == GridEventKind::Release {
                release_at = Some(step);
            }
            if kind != GridEventKind::Aftertouch {
                kinds.push(kind);
            }
        }
    }
    assert_eq!(kinds, vec![GridEventKind::Press, GridEventKind::Release]);
    assert!(release_at.unwrap() >= press_at.unwrap() + 10);
    assert!(release_at.unwrap() >= 20 + 7);
}
