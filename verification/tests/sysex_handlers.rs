use firmware_core::app::AppId;
use firmware_core::devices::launchpad_mini_mk3::sysex::Handler as MiniMk3Handler;
use firmware_core::devices::launchpad_mk2::sysex::led_control as mk2_led;
use firmware_core::devices::launchpad_pro::sysex::Handler as ProHandler;
use firmware_core::devices::launchpad_pro_mk3::sysex::{handle_m0, set_fastled_target, Handler as Mk3Handler, LinkCall, M0Link};
use firmware_core::devices::mystrix_pro::sysex::Handler as MystrixHandler;
use firmware_core::sys::led::LedCommand;
use firmware_core::sys::midi::MidiPort;
use firmware_core::sys::sysex::led_control::{handle_modern, map_grid, GridMap};
use firmware_core::sys::sysex::roadrunner::{
    hex_value, parse_hex, M0Call, M0Driver, M0FirmwareStatus, M0FlashInfo, M0ProbeResult, M0Session, RoadrunnerStats,
};
use firmware_core::sys::sysex::{DefaultSysExHandler, SysExHandler, SysExOutput};

const VERSION_INQUIRY: [u8; 8] = [0xf0, 0x00, 0x20, 0x29, 0x02, 0x7f, 0x00, 0xf7];
const DEVICE_INQUIRY: [u8; 6] = [0xf0, 0x7e, 0x7f, 0x06, 0x01, 0xf7];

fn hex(value: u32, digits: usize) -> Vec<u8> {
    (0..digits)
        .rev()
        .map(|i| {
            let n = ((value >> (4 * i)) & 0xf) as u8;
            if n < 10 { b'0' + n } else { b'A' + n - 10 }
        })
        .collect()
}

fn m0_request(cmd: u8, payload: &[u8]) -> Vec<u8> {
    let mut v = vec![0xf0, 0x00, 0x20, 0x29, 0x02, 0x0e, 0x70, cmd];
    v.extend_from_slice(payload);
    v.push(0xf7);
    v
}

fn simple_reply(cmd: u8, status: u8) -> Vec<u8> {
    let mut v = vec![0xf0, 0x00, 0x20, 0x29, 0x02, 0x0e, 0x71, cmd];
    v.extend(hex(status as u32, 2));
    v.push(0xf7);
    v
}

fn chunk_reply(cmd: u8, status: u8, addr: u32, len: u16) -> Vec<u8> {
    let mut v = vec![0xf0, 0x00, 0x20, 0x29, 0x02, 0x0e, 0x71, cmd];
    v.extend(hex(status as u32, 2));
    v.extend(hex(addr, 8));
    v.extend(hex(len as u32, 4));
    v.push(0xf7);
    v
}

fn chunk_payload(addr: u32, bytes: &[u8]) -> Vec<u8> {
    let mut p = hex(addr, 8);
    p.extend(hex(bytes.len() as u32, 4));
    for b in bytes {
        p.extend(hex(*b as u32, 2));
    }
    p
}

struct FakeM0 {
    link: bool,
    mem: Vec<u8>,
    mode: Option<u8>,
    status: Option<M0FirmwareStatus>,
    probes: u32,
    writes: u32,
    reads: u32,
}

impl FakeM0 {
    fn new(link: bool) -> FakeM0 {
        FakeM0 { link, mem: vec![0xff; 0x8000], mode: None, status: None, probes: 0, writes: 0, reads: 0 }
    }
}

impl M0Link for FakeM0 {
    fn link_calls(&self) -> vstd::seq::Seq<LinkCall> {
        unreachable!()
    }
    fn cached_m0_firmware_status(&mut self) -> Option<M0FirmwareStatus> {
        self.status
    }
    fn refresh_m0_firmware_status(&mut self) -> Option<M0FirmwareStatus> {
        self.status
    }
    fn flash_info(&mut self) -> Option<M0FlashInfo> {
        Some(M0FlashInfo { present: true, jedec_id: [0xef, 0x40, 0x15], status1: 0 })
    }
    fn roadrunner_stats(&mut self) -> Option<Option<RoadrunnerStats>> {
        None
    }
    fn rom_probe(&mut self) -> Option<u8> {
        if self.link { Some(0) } else { None }
    }
    fn force_rom_probe(&mut self) -> Option<u8> {
        self.rom_probe()
    }
    fn rom_mass_erase(&mut self) -> u8 {
        self.mem.iter_mut().for_each(|b| *b = 0xff);
        0
    }
    fn rom_write(&mut self, addr: u32, data: &[u8]) -> u8 {
        let a = (addr - 0x0800_0000) as usize;
        self.mem[a..a + data.len()].copy_from_slice(data);
        0
    }
    fn rom_read(&mut self, addr: u32, len: usize) -> (u8, Vec<u8>) {
        let a = (addr - 0x0800_0000) as usize;
        (0, self.mem[a..a + len].to_vec())
    }
    fn set_mode(&mut self, mode: u8) {
        self.mode = Some(mode);
    }
}

impl M0Driver for FakeM0 {
    fn m0_calls(&self) -> vstd::seq::Seq<M0Call> {
        unreachable!()
    }
    fn cached_m0_firmware_status(&mut self) -> Option<M0FirmwareStatus> {
        self.status
    }
    fn refresh_m0_firmware_status(&mut self) -> Option<M0FirmwareStatus> {
        self.status
    }
    fn flash_info(&mut self) -> Option<M0FlashInfo> {
        None
    }
    fn roadrunner_stats(&mut self) -> Option<Option<RoadrunnerStats>> {
        Some(Some(RoadrunnerStats { fast_frames: 1, commits: 2, rx_overruns: 3 }))
    }
    fn m0_force_rom_probe(&mut self) -> u8 {
        self.probes += 1;
        0
    }
    fn m0_rom_write(&mut self, addr: u32, data: &[u8]) -> u8 {
        self.writes += 1;
        M0Link::rom_write(self, addr, data)
    }
    fn m0_rom_read(&mut self, addr: u32, len: usize) -> (u8, Vec<u8>) {
        self.reads += 1;
        M0Link::rom_read(self, addr, len)
    }
    fn m0_set_mode(&mut self, mode: u8) {
        self.mode = Some(mode);
    }
}

fn roadrunner_status() -> M0FirmwareStatus {
    M0FirmwareStatus {
        status: 0,
        kind: 1,
        version_major: 1,
        version_minor: 2,
        version_patch: 3,
        probe: M0ProbeResult::zeroed(),
    }
}

#[test]
fn hex_digits_parse() {
    assert_eq!(hex_value(b'7'), Some(7));
    assert_eq!(hex_value(b'a'), Some(10));
    assert_eq!(hex_value(b'F'), Some(15));
    assert_eq!(hex_value(b'g'), None);
    assert_eq!(parse_hex(b"xx1A2bxx\xf7", 2, 4), Some(0x1a2b));
    assert_eq!(parse_hex(b"xx1A2b", 2, 4), None);
    assert_eq!(parse_hex(b"xx1G2bxx", 2, 4), None);
}

#[test]
fn version_inquiry_reply() {
    let mut out = SysExOutput::new();
    assert!(DefaultSysExHandler::execute(AppId::Live, MidiPort::Midi, 0x51, &VERSION_INQUIRY, &mut out));
    assert_eq!(out.replies[0].port, MidiPort::Midi);
    assert_eq!(out.replies[0].data, vec![0xf0, 0x00, 0x20, 0x29, 0x02, 0x7f, 0x01, 0x51, 0, 1, 0, 0xf7]);
    let mut out = SysExOutput::new();
    assert!(!DefaultSysExHandler::execute(AppId::Live, MidiPort::Midi, 0x51, &[0xf0, 0xf7], &mut out));
    assert!(out.replies.is_empty());
}

#[test]
fn device_inquiry_reply() {
    let mut out = SysExOutput::new();
    assert!(MiniMk3Handler::execute(AppId::Live, MidiPort::Daw, 1, &DEVICE_INQUIRY, &mut out));
    assert_eq!(
        out.replies[0].data,
        vec![0xf0, 0x7e, 0x00, 0x06, 0x02, 0x00, 0x20, 0x29, 105, 0, 0, 0, 0, 9, 9, 9, 0xf7]
    );
}

#[test]
fn modern_led_messages() {
    let msg = [0xf0, 0x00, 0x20, 0x29, 0x02, 0x0d, 0x03, 0x00, 11, 5, 0x03, 12, 0x7f, 0x40, 0x01, 0xf7];
    let mut leds = Vec::new();
    assert!(handle_modern(&msg, 0x0d, &mut leds));
    assert_eq!(
        leds,
        vec![
            LedCommand::Palette { index: 11, velocity: 5 },
            LedCommand::Rgb { index: 12, r: 0x3f, g: 0, b: 1 },
        ]
    );
    let mut leds = Vec::new();
    assert!(!handle_modern(&msg, 0x0e, &mut leds));
    assert!(leds.is_empty());
    let mut out = SysExOutput::new();
    assert!(MiniMk3Handler::execute(AppId::Live, MidiPort::Daw, 1, &msg, &mut out));
    assert_eq!(out.leds.len(), 2);
}

#[test]
fn legacy_grid_maps() {
    assert_eq!(map_grid(GridMap::Pro, 0, 0), None);
    assert_eq!(map_grid(GridMap::Pro, 1, 1), Some(11));
    assert_eq!(map_grid(GridMap::Pro, 0, 5), Some(5));
    assert_eq!(mk2_led::map_grid(0, 0), Some(11));
    assert_eq!(mk2_led::map_grid(8, 2), Some(106));
    assert_eq!(mk2_led::map_grid(3, 8), Some(49));
    assert_eq!(mk2_led::map_grid(8, 8), None);
    let mut out = SysExOutput::new();
    assert!(!ProHandler::execute(AppId::Live, MidiPort::Daw, 1, &[0xf0, 0x01, 0xf7], &mut out));
}

#[test]
fn mystrix_handler_answers_version() {
    let mut out = SysExOutput::new();
    assert!(MystrixHandler::execute(AppId::Live, MidiPort::Daw, 7, &VERSION_INQUIRY, &mut out));
    assert_eq!(out.replies[0].data[7], 7);
}

#[test]
fn mk3_m0_flash_sequence() {
    let mut m0 = FakeM0::new(true);
    let mut begin = hex(0x0800_0000, 8);
    begin.extend(hex(4, 8));
    assert_eq!(handle_m0(&mut m0, &m0_request(b'B', &begin)), Some(simple_reply(b'B', 0)));
    let bytes = [1u8, 2, 3, 4];
    let data = m0_request(b'D', &chunk_payload(0x0800_0000, &bytes));
    assert_eq!(handle_m0(&mut m0, &data), Some(chunk_reply(b'D', 0, 0x0800_0000, 4)));
    assert_eq!(&m0.mem[..4], &bytes);
    let verify = m0_request(b'V', &chunk_payload(0x0800_0000, &bytes));
    assert_eq!(handle_m0(&mut m0, &verify), Some(chunk_reply(b'V', 0, 0x0800_0000, 4)));
    let wrong = m0_request(b'V', &chunk_payload(0x0800_0000, &[9, 9, 9, 9]));
    assert_eq!(handle_m0(&mut m0, &wrong), Some(chunk_reply(b'V', 6, 0x0800_0000, 0)));
}

#[test]
fn mk3_m0_without_link_or_with_bad_requests() {
    let mut m0 = FakeM0::new(false);
    let mut begin = hex(0x0800_0000, 8);
    begin.extend(hex(4, 8));
    assert_eq!(handle_m0(&mut m0, &m0_request(b'B', &begin)), Some(simple_reply(b'B', 6)));
    let mut zero = hex(0x0800_0000, 8);
    zero.extend(hex(0, 8));
    assert_eq!(handle_m0(&mut m0, &m0_request(b'B', &zero)), Some(simple_reply(b'B', 6)));
    assert_eq!(handle_m0(&mut m0, &m0_request(b'D', b"zz")), Some(chunk_reply(b'D', 6, 0, 0)));
    assert_eq!(handle_m0(&mut m0, &m0_request(b'Z', &[])), Some(simple_reply(b'Z', 6)));
    assert_eq!(handle_m0(&mut m0, &m0_request(b'S', &[])), Some(simple_reply(b'S', 6)));
    assert_eq!(handle_m0(&mut m0, &m0_request(b'T', &[])), Some(simple_reply(b'T', 5)));
    assert_eq!(handle_m0(&mut m0, &[0xf0, 0x00, 0x20, 0x29, 0x02, 0x0d, 0x70, b'S', 0xf7]), None);
    assert_eq!(handle_m0(&mut m0, &[0xf0, 0xf7]), None);
}

#[test]
fn mk3_m0_boot_sets_mode_two() {
    let mut m0 = FakeM0::new(true);
    m0.status = Some(roadrunner_status());
    let reply = handle_m0(&mut m0, &m0_request(b'O', &[])).unwrap();
    assert_eq!(m0.mode, Some(2));
    assert_eq!(&reply[7..10], &[b'O', b'0', b'0']);
    assert_eq!(&reply[10..18], b"01010203");
}

#[test]
fn mk3_handler_routes_messages() {
    let mut m0 = FakeM0::new(true);
    let mut out = SysExOutput::new();
    assert!(Mk3Handler::execute(&mut m0, AppId::Live, MidiPort::Midi, 1, &m0_request(b'F', &[]), &mut out));
    assert_eq!(out.replies.len(), 1);
    let led = [0xf0, 0x00, 0x20, 0x29, 0x02, 0x0e, 0x03, 0x00, 11, 5, 0xf7];
    assert!(Mk3Handler::execute(&mut m0, AppId::Live, MidiPort::Midi, 1, &led, &mut out));
    assert_eq!(out.leds, vec![LedCommand::Palette { index: 11, velocity: 5 }]);
    assert!(!Mk3Handler::execute(&mut m0, AppId::Live, MidiPort::Midi, 1, &[0xf0, 0xf7], &mut out));
}

#[test]
fn fastled_targets() {
    let mut leds = Vec::new();
    set_fastled_target(3, 1, 2, 3, &mut leds);
    assert_eq!(
        leds,
        vec![LedCommand::RawRgb { index: 103, r: 1, g: 2, b: 3 }, LedCommand::Rgb { index: 3, r: 1, g: 2, b: 3 }]
    );
    let mut leds = Vec::new();
    set_fastled_target(0, 1, 1, 1, &mut leds);
    assert_eq!(leds.len(), 99);
    let mut leds = Vec::new();
    set_fastled_target(101, 0, 0, 0, &mut leds);
    let rows: Vec<u8> = leds.iter().map(|c| match c { LedCommand::Rgb { index, .. } => *index, _ => 0 }).collect();
    assert_eq!(rows, vec![11, 12, 13, 14, 15, 16, 17, 18]);
    let mut leds = Vec::new();
    set_fastled_target(111, 0, 0, 0, &mut leds);
    let cols: Vec<u8> = leds.iter().map(|c| match c { LedCommand::Rgb { index, .. } => *index, _ => 0 }).collect();
    assert_eq!(cols, vec![11, 21, 31, 41, 51, 61, 71, 81]);
    let mut leds = Vec::new();
    set_fastled_target(120, 0, 0, 0, &mut leds);
    assert!(leds.is_empty());
}

#[test]
fn roadrunner_session_boots_after_a_complete_flash() {
    let mut m0 = FakeM0::new(true);
    m0.status = Some(roadrunner_status());
    let mut session = M0Session::new();
    let mut begin = hex(0x0800_0000, 8);
    begin.extend(hex(4, 8));
    let reply = session.execute(&mut m0, AppId::Live, MidiPort::Midi, &m0_request(b'B', &begin));
    assert_eq!(reply, Some(simple_reply(b'B', 0)));
    let bytes = [5u8, 6, 7, 8];
    let reply = session.execute(&mut m0, AppId::Live, MidiPort::Midi, &m0_request(b'D', &chunk_payload(0x0800_0000, &bytes)));
    assert_eq!(reply, Some(chunk_reply(b'D', 0, 0x0800_0000, 4)));
    let reply = session.execute(&mut m0, AppId::Live, MidiPort::Midi, &m0_request(b'V', &chunk_payload(0x0800_0000, &bytes)));
    assert_eq!(reply, Some(chunk_reply(b'V', 0, 0x0800_0000, 4)));
    assert_eq!(session.take_requested_app_switch(), None);
    let reply = session.execute(&mut m0, AppId::Live, MidiPort::Midi, &m0_request(b'O', &[])).unwrap();
    assert_eq!(&reply[7..10], &[b'O', b'0', b'0']);
    assert_eq!(m0.mode, Some(2));
    assert_eq!(session.take_requested_app_switch(), Some(AppId::Boot));
    assert_eq!(session.take_requested_app_switch(), None);
}

#[test]
fn roadrunner_refuses_data_outside_the_session() {
    let mut m0 = FakeM0::new(true);
    let mut session = M0Session::new();
    let reply = session.execute(&mut m0, AppId::Live, MidiPort::Midi, &m0_request(b'D', &chunk_payload(0x0800_0000, &[1])));
    assert_eq!(reply, Some(chunk_reply(b'D', 6, 0x0800_0000, 0)));
    let reply = session.execute(&mut m0, AppId::Live, MidiPort::Midi, &m0_request(b'T', &[])).unwrap();
    assert_eq!(&reply[7..10], &[b'T', b'0', b'0']);
    assert_eq!(session.execute(&mut m0, AppId::Live, MidiPort::Midi, &[0xf0, 0xf7]), None);
}

#[test]
fn pro_long_row_message_wraps_its_column_count() {
    let mut data = vec![0xf0, 0x00, 0x20, 0x29, 0x02, 0x10, 0x0d, 1];
    data.extend(std::iter::repeat(5u8).take(300));
    data.push(0xf7);
    let mut out = SysExOutput::new();
    assert!(ProHandler::execute(AppId::Live, MidiPort::Daw, 1, &data, &mut out));
    assert_eq!(out.leds.len(), 20);
    assert_eq!(out.leds.iter().filter(|c| **c == LedCommand::Novation { index: 11, velocity: 5 }).count(), 2);
}

fn begin_payload(base: u32, total: u32) -> Vec<u8> {
    let mut p = hex(base, 8);
    p.extend(hex(total, 8));
    p
}

#[test]
fn roadrunner_begin_refuses_a_bad_range_without_probing() {
    let mut m0 = FakeM0::new(true);
    let mut session = M0Session::new();
    let refused = vec![0xf0, 0x00, 0x20, 0x29, 0x02, 0x0e, 0x71, b'B', b'0', b'6', 0xf7];
    for payload in [
        begin_payload(0x0800_0100, 4),
        begin_payload(0x0800_0000, 0),
        begin_payload(0x0800_0000, 0x8001),
        b"0800000G00000004".to_vec(),
        hex(0x0800_0000, 8),
    ] {
        let reply = session.execute(&mut m0, AppId::Live, MidiPort::Midi, &m0_request(b'B', &payload));
        assert_eq!(reply, Some(refused.clone()));
    }
    assert_eq!(m0.probes, 0);
    assert!(!session.active);
    assert_eq!(session.total_len, 0);
    let reply = session.execute(&mut m0, AppId::Live, MidiPort::Midi, &m0_request(b'B', &begin_payload(0x0800_0000, 0x8000)));
    assert_eq!(reply, Some(simple_reply(b'B', 0)));
    assert_eq!(m0.probes, 1);
}

#[test]
fn roadrunner_data_is_written_only_at_the_next_address() {
    let mut m0 = FakeM0::new(true);
    let mut session = M0Session::new();
    session.execute(&mut m0, AppId::Live, MidiPort::Midi, &m0_request(b'B', &begin_payload(0x0800_0000, 8)));
    let ahead = m0_request(b'D', &chunk_payload(0x0800_0004, &[1, 2, 3, 4]));
    assert_eq!(session.execute(&mut m0, AppId::Live, MidiPort::Midi, &ahead), Some(chunk_reply(b'D', 6, 0x0800_0004, 0)));
    assert_eq!(m0.writes, 0);
    assert_eq!(session.next_write, 0x0800_0000);
    let first = m0_request(b'D', &chunk_payload(0x0800_0000, &[1, 2, 3, 4]));
    assert_eq!(session.execute(&mut m0, AppId::Live, MidiPort::Midi, &first), Some(chunk_reply(b'D', 0, 0x0800_0000, 4)));
    assert_eq!(m0.writes, 1);
    assert_eq!(session.next_write, 0x0800_0004);
    assert_eq!(session.execute(&mut m0, AppId::Live, MidiPort::Midi, &first), Some(chunk_reply(b'D', 0, 0x0800_0000, 4)));
    assert_eq!(m0.writes, 1);
    assert_eq!(m0.reads, 1);
    let outside = m0_request(b'D', &chunk_payload(0x0800_0006, &[1, 2, 3, 4]));
    assert_eq!(session.execute(&mut m0, AppId::Live, MidiPort::Midi, &outside), Some(chunk_reply(b'D', 6, 0x0800_0006, 0)));
    let mut closed = M0Session::new();
    closed.total_len = 8;
    assert_eq!(closed.execute(&mut m0, AppId::Live, MidiPort::Midi, &first), Some(chunk_reply(b'D', 5, 0x0800_0000, 0)));
    assert_eq!(m0.writes, 1);
}

#[test]
fn roadrunner_verify_checks_only_written_bytes() {
    let mut m0 = FakeM0::new(true);
    let mut session = M0Session::new();
    session.execute(&mut m0, AppId::Live, MidiPort::Midi, &m0_request(b'B', &begin_payload(0x0800_0000, 8)));
    session.execute(&mut m0, AppId::Live, MidiPort::Midi, &m0_request(b'D', &chunk_payload(0x0800_0000, &[1, 2, 3, 4])));
    let reads = m0.reads;
    let beyond = m0_request(b'V', &chunk_payload(0x0800_0000, &[1, 2, 3, 4, 0xff, 0xff, 0xff, 0xff]));
    assert_eq!(session.execute(&mut m0, AppId::Live, MidiPort::Midi, &beyond), Some(chunk_reply(b'V', 5, 0x0800_0000, 0)));
    assert_eq!(m0.reads, reads);
    let wrong = m0_request(b'V', &chunk_payload(0x0800_0000, &[1, 2, 3, 5]));
    assert_eq!(session.execute(&mut m0, AppId::Live, MidiPort::Midi, &wrong), Some(chunk_reply(b'V', 6, 0x0800_0000, 0)));
    assert_eq!(session.next_verify, 0x0800_0000);
    let right = m0_request(b'V', &chunk_payload(0x0800_0000, &[1, 2, 3, 4]));
    assert_eq!(session.execute(&mut m0, AppId::Live, MidiPort::Midi, &right), Some(chunk_reply(b'V', 0, 0x0800_0000, 4)));
    assert_eq!(session.next_verify, 0x0800_0004);
}

#[test]
fn roadrunner_boot_waits_for_a_complete_session() {
    let mut m0 = FakeM0::new(true);
    m0.status = Some(roadrunner_status());
    let mut session = M0Session::new();
    session.execute(&mut m0, AppId::Live, MidiPort::Midi, &m0_request(b'B', &begin_payload(0x0800_0000, 8)));
    session.execute(&mut m0, AppId::Live, MidiPort::Midi, &m0_request(b'D', &chunk_payload(0x0800_0000, &[1, 2, 3, 4])));
    let before = session.clone();
    let reply = session.execute(&mut m0, AppId::Live, MidiPort::Midi, &m0_request(b'O', &[])).unwrap();
    assert_eq!(&reply[7..10], &[b'O', b'0', b'6']);
    assert_eq!(m0.mode, None);
    assert_eq!(session, before);
    assert_eq!(session.take_requested_app_switch(), None);
}
