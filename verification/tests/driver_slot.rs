use firmware_core::driver::{device_id, install, set_led, with, Driver, DriverRequest, DriverSlot};
use firmware_core::sys::midi::MidiPort;

struct Recorder {
    id: u8,
    leds: Vec<(u8, u8, u8, u8)>,
}

impl Driver for Recorder {
    fn requests(&self) -> vstd::seq::Seq<DriverRequest> {
        unreachable!()
    }
    fn brightness_level(&self) -> u8 {
        unreachable!()
    }
    fn flash_capacity(&self) -> u32 {
        unreachable!()
    }
    fn flash_bytes(&self, _offset: u32, _len: vstd::prelude::nat) -> vstd::seq::Seq<u8> {
        unreachable!()
    }
    fn id(&self) -> u8 {
        unreachable!()
    }
    fn set_rgb_led(&mut self, index: u8, r: u8, g: u8, b: u8) {
        self.leds.push((index, r, g, b));
    }
    fn fill(&mut self, _color: u32) {}
    fn brightness(&mut self) -> u8 {
        7
    }
    fn set_brightness(&mut self, _brightness: u8) {}
    fn send_midi(&mut self, _port: MidiPort, _data: &[u8]) {}
    fn flash_size(&mut self) -> u32 {
        0
    }
    fn read_flash(&mut self, _offset: u32, _data: &mut Vec<u8>) {}
    fn write_flash(&mut self, _offset: u32, _data: &[u8]) {}
    fn device_id(&self) -> u8 {
        self.id
    }
}

#[test]
fn with_runs_on_the_installed_driver() {
    let mut slot: DriverSlot<Recorder> = DriverSlot::new();
    assert_eq!(with(&mut slot, |d: Recorder| { let id = d.device_id(); (d, id) }), None);
    install(&mut slot, Recorder { id: 81, leds: Vec::new() });
    assert_eq!(with(&mut slot, |d: Recorder| { let id = d.device_id(); (d, id) }), Some(81));
    assert_eq!(device_id(&slot), 81);
    set_led(&mut slot, 11, 0xff8040);
    let n = with(&mut slot, |d: Recorder| { let n = d.leds.clone(); (d, n) }).unwrap();
    assert_eq!(n, vec![(11, 0x3f, 0x20, 0x10)]);
}
