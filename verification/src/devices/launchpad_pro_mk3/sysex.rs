//! SysEx handling of the Launchpad Pro MK3: the device inquiry, the M0
//! bridge requests, the modern LED messages, then the shared handlers.

use vstd::prelude::*;
use crate::app::AppId;
use crate::sys::led::LedCommand;
use crate::sys::midi::MidiPort;
use crate::sys::sysex::device_inquiry::{self, inquiry_reply, is_device_inquiry};
use crate::sys::sysex::led_control::{handle_modern, is_modern_led_message, modern_commands};
use crate::sys::sysex::output::{replies_view, SysExHandler, SysExOutput};
use crate::sys::sysex::roadrunner::{
    chunk_byte, chunk_reply, chunk_response, flash_info_reply, flash_info_response, hex_field,
    m0_request, novation_header, parse_hex, simple_reply, simple_response, stats_reply,
    stats_response, status_response, status_query_reply, verify_status, M0FirmwareStatus,
    M0FlashInfo, RoadrunnerStats, M0_FLASH_CHUNK_LEN, M0_REQ_CMD, M0_ROM_STATUS_ARG,
    M0_ROM_STATUS_OK, M0_ROM_STATUS_RX,
};
use crate::sys::sysex::{version_inquiry, DefaultSysExHandler};

verus! {

/// Device id of the modern LED messages.
pub const LED_SYSEX_DEVICE_ID: u8 = 0x0e;

/// A call the M0 bridge made of the link, with what the link answered.
pub enum LinkCall {
    CachedStatus(Option<M0FirmwareStatus>),
    RefreshStatus(Option<M0FirmwareStatus>),
    FlashInfo(Option<M0FlashInfo>),
    Stats(Option<Option<RoadrunnerStats>>),
    RomProbe(Option<u8>),
    ForceRomProbe(Option<u8>),
    MassErase(u8),
    /// A write of bytes at an address, and its status.
    RomWrite(u32, Seq<u8>, u8),
    /// A read of a number of bytes at an address: its status and the bytes.
    RomRead(u32, nat, u8, Seq<u8>),
    SetMode(u8),
}

/// What the M0 bridge needs from the device. `rom_probe` and
/// `force_rom_probe` answer `None` when no link to the M0 exists; the other
/// link operations are only asked for after a probe succeeded. A link is
/// described by the calls made of it and what it answered, oldest first.
pub trait M0Link {
    /// The calls made of this link so far, with its answers, oldest first.
    spec fn link_calls(&self) -> Seq<LinkCall>;

    fn cached_m0_firmware_status(&mut self) -> (r: Option<M0FirmwareStatus>)
        ensures
            final(self).link_calls() == old(self).link_calls().push(LinkCall::CachedStatus(r)),
    ;

    fn refresh_m0_firmware_status(&mut self) -> (r: Option<M0FirmwareStatus>)
        ensures
            final(self).link_calls() == old(self).link_calls().push(LinkCall::RefreshStatus(r)),
    ;

    fn flash_info(&mut self) -> (r: Option<M0FlashInfo>)
        ensures
            final(self).link_calls() == old(self).link_calls().push(LinkCall::FlashInfo(r)),
    ;

    fn roadrunner_stats(&mut self) -> (r: Option<Option<RoadrunnerStats>>)
        ensures
            final(self).link_calls() == old(self).link_calls().push(LinkCall::Stats(r)),
    ;

    fn rom_probe(&mut self) -> (r: Option<u8>)
        ensures
            final(self).link_calls() == old(self).link_calls().push(LinkCall::RomProbe(r)),
    ;

    fn force_rom_probe(&mut self) -> (r: Option<u8>)
        ensures
            final(self).link_calls() == old(self).link_calls().push(LinkCall::ForceRomProbe(r)),
    ;

    fn rom_mass_erase(&mut self) -> (r: u8)
        ensures
            final(self).link_calls() == old(self).link_calls().push(LinkCall::MassErase(r)),
    ;

    fn rom_write(&mut self, addr: u32, data: &[u8]) -> (r: u8)
        ensures
            final(self).link_calls() == old(self).link_calls().push(
                LinkCall::RomWrite(addr, data@, r),
            ),
    ;

    /// Status and bytes of reading `len` bytes at `addr`.
    fn rom_read(&mut self, addr: u32, len: usize) -> (r: (u8, Vec<u8>))
        ensures
            final(self).link_calls() == old(self).link_calls().push(
                LinkCall::RomRead(addr, len as nat, r.0, r.1@),
            ),
    ;

    fn set_mode(&mut self, mode: u8)
        ensures
            final(self).link_calls() == old(self).link_calls().push(LinkCall::SetMode(mode)),
    ;
}

/// What the device answered during one request.
pub struct LinkOutcomes {
    /// The probe's status, or `None` without a link.
    pub probe: Option<u8>,
    /// Status of the erase or write that followed a good probe.
    pub status: u8,
    /// Status and bytes of a read-back.
    pub read: (u8, Seq<u8>),
    /// The firmware status asked for.
    pub firmware: Option<M0FirmwareStatus>,
    pub info: Option<M0FlashInfo>,
    pub stats: Option<Option<RoadrunnerStats>>,
}

/// Outcome of a link operation that needs a good probe first.
pub open spec fn linked_status(probe: Option<u8>, then: u8) -> u8 {
    match probe {
        None => M0_ROM_STATUS_ARG,
        Some(p) => if p != M0_ROM_STATUS_OK {
            p
        } else {
            then
        },
    }
}

/// Address and bytes of a flash data or verify request: the address in eight
/// hexadecimal digits at offset 8, the length (1 to 256) in four digits at
/// offset 16, then two digits per byte, all before the last byte.
pub open spec fn chunk_of(data: Seq<u8>) -> Option<(u32, Seq<u8>)> {
    let addr = hex_field(data, 8, 8);
    let len = hex_field(data, 16, 4);
    if addr is None || len is None {
        None
    } else {
        let l = len.unwrap();
        if l == 0 || l > 256 || 20 + 2 * l > data.len() - 1 {
            None
        } else if exists|i: int| 0 <= i < l && (#[trigger] chunk_byte(data, i)) is None {
            None
        } else {
            Some(
                (
                    addr.unwrap() as u32,
                    Seq::new(l, |i: int| chunk_byte(data, i).unwrap() as u8),
                ),
            )
        }
    }
}

/// The reply to a chunk request with outcome `status`.
pub open spec fn chunk_outcome(cmd: u8, addr: u32, len: nat, status: u8) -> Seq<u8> {
    chunk_reply(
        cmd,
        status,
        addr,
        if status == M0_ROM_STATUS_OK {
            len as u16
        } else {
            0
        },
    )
}

/// The reply to an M0 request `data`, given what the device answered.
pub open spec fn m0_reply(data: Seq<u8>, o: LinkOutcomes) -> Seq<u8> {
    let cmd = data[7];
    if cmd == 0x53 {
        status_query_reply(0x53, o.firmware)
    } else if cmd == 0x43 {
        status_query_reply(0x43, o.firmware)
    } else if cmd == 0x46 {
        match o.info {
            Some(info) => flash_info_reply(info),
            None => simple_reply(0x46, M0_ROM_STATUS_ARG),
        }
    } else if cmd == 0x42 {
        let base = hex_field(data, 8, 8);
        let total = hex_field(data, 16, 8);
        if base is None || total is None || total.unwrap() == 0 {
            simple_reply(0x42, M0_ROM_STATUS_ARG)
        } else {
            simple_reply(0x42, linked_status(o.probe, o.status))
        }
    } else if cmd == 0x44 {
        match chunk_of(data) {
            None => chunk_reply(0x44, M0_ROM_STATUS_ARG, 0, 0),
            Some((addr, bytes)) => chunk_outcome(
                0x44,
                addr,
                bytes.len(),
                linked_status(o.probe, o.status),
            ),
        }
    } else if cmd == 0x56 {
        match chunk_of(data) {
            None => chunk_reply(0x56, M0_ROM_STATUS_ARG, 0, 0),
            Some((addr, bytes)) => chunk_outcome(
                0x56,
                addr,
                bytes.len(),
                linked_status(o.probe, verify_status(o.read.0, o.read.1, bytes)),
            ),
        }
    } else if cmd == 0x4f {
        status_query_reply(0x4f, o.firmware)
    } else if cmd == 0x54 {
        match o.stats {
            Some(Some(stats)) => stats_reply(stats),
            _ => simple_reply(0x54, M0_ROM_STATUS_RX),
        }
    } else {
        simple_reply(cmd, M0_ROM_STATUS_ARG)
    }
}

/// The calls an M0 request makes of the link, given what it answered: a
/// flash begin with a valid range force-probes the ROM and erases the flash
/// after a good probe; a data or verify chunk probes and then writes or
/// reads the chunk after a good probe; a boot starts the firmware and
/// refreshes the status.
pub open spec fn m0_link_calls(data: Seq<u8>, o: LinkOutcomes) -> Seq<LinkCall> {
    let cmd = data[7];
    let good = o.probe == Some(M0_ROM_STATUS_OK);
    if cmd == 0x53 {
        seq![LinkCall::RefreshStatus(o.firmware)]
    } else if cmd == 0x43 {
        seq![LinkCall::CachedStatus(o.firmware)]
    } else if cmd == 0x46 {
        seq![LinkCall::FlashInfo(o.info)]
    } else if cmd == 0x42 {
        let base = hex_field(data, 8, 8);
        let total = hex_field(data, 16, 8);
        if base is None || total is None || total.unwrap() == 0 {
            Seq::empty()
        } else {
            seq![LinkCall::ForceRomProbe(o.probe)] + if good {
                seq![LinkCall::MassErase(o.status)]
            } else {
                Seq::<LinkCall>::empty()
            }
        }
    } else if cmd == 0x44 {
        match chunk_of(data) {
            None => Seq::empty(),
            Some((addr, bytes)) => seq![LinkCall::RomProbe(o.probe)] + if good {
                seq![LinkCall::RomWrite(addr, bytes, o.status)]
            } else {
                Seq::<LinkCall>::empty()
            },
        }
    } else if cmd == 0x56 {
        match chunk_of(data) {
            None => Seq::empty(),
            Some((addr, bytes)) => seq![LinkCall::RomProbe(o.probe)] + if good {
                seq![LinkCall::RomRead(addr, bytes.len(), o.read.0, o.read.1)]
            } else {
                Seq::<LinkCall>::empty()
            },
        }
    } else if cmd == 0x4f {
        seq![LinkCall::SetMode(2), LinkCall::RefreshStatus(o.firmware)]
    } else if cmd == 0x54 {
        seq![LinkCall::Stats(o.stats)]
    } else {
        Seq::empty()
    }
}

/// Outcomes with only the probe and the operation after it known.
pub open spec fn probed(probe: Option<u8>, status: u8, read: (u8, Seq<u8>)) -> LinkOutcomes {
    LinkOutcomes {
        probe,
        status,
        read,
        firmware: arbitrary(),
        info: arbitrary(),
        stats: arbitrary(),
    }
}

/// Reads a flash data or verify request.
fn parse_chunk(data: &[u8]) -> (r: Option<(u32, Vec<u8>)>)
    requires
        data.len() >= 8,
    ensures
        r is None <==> chunk_of(data@) is None,
        r matches Some(c) ==> chunk_of(data@) == Some((c.0, c.1@)),
{
    let addr = match parse_hex(data, 8, 8) {
        Some(a) => a,
        None => return None,
    };
    let len = match parse_hex(data, 16, 4) {
        Some(l) => l as usize,
        None => return None,
    };
    if len == 0 || len > M0_FLASH_CHUNK_LEN {
        return None;
    }
    if 20 + len * 2 > data.len() - 1 {
        return None;
    }
    let mut bytes: Vec<u8> = Vec::new();
    let mut i: usize = 0;
    while i < len
        invariant
            1 <= len <= 256,
            data.len() >= 8,
            20 + 2 * len <= data.len() - 1,
            hex_field(data@, 16, 4) == Some(len as nat),
            hex_field(data@, 8, 8) == Some(addr as nat),
            i <= len,
            bytes@.len() == i,
            forall|k: int| 0 <= k < i ==> (#[trigger] chunk_byte(data@, k)) is Some && bytes@[k]
                == chunk_byte(data@, k).unwrap() as u8,
        decreases len - i,
    {
        match parse_hex(data, 20 + i * 2, 2) {
            Some(v) => {
                bytes.push(v as u8);
            },
            None => {
                proof {
                    assert(chunk_byte(data@, i as int) is None);
                }
                return None;
            },
        }
        i += 1;
    }
    proof {
        assert(bytes@ == Seq::new(len as nat, |k: int| chunk_byte(data@, k).unwrap() as u8));
    }
    Some((addr, bytes))
}

/// Compares a read-back with the expected bytes.
fn check_readback(read_status: u8, readback: &Vec<u8>, expected: &Vec<u8>) -> (r: u8)
    ensures
        r == verify_status(read_status, readback@, expected@),
{
    if read_status != M0_ROM_STATUS_OK {
        return read_status;
    }
    if readback.len() != expected.len() {
        return M0_ROM_STATUS_ARG;
    }
    let mut i: usize = 0;
    while i < readback.len()
        invariant
            read_status == M0_ROM_STATUS_OK,
            readback@.len() == expected@.len(),
            i <= readback@.len(),
            forall|k: int| 0 <= k < i ==> readback@[k] == expected@[k],
        decreases readback.len() - i,
    {
        if readback[i] != expected[i] {
            assert(readback@[i as int] != expected@[i as int]);
            return M0_ROM_STATUS_ARG;
        }
        i += 1;
    }
    assert(readback@ == expected@);
    M0_ROM_STATUS_OK
}

/// Handles a flash data (`D`) or verify (`V`) request.
fn handle_chunk<D: M0Link>(link: &mut D, data: &[u8], verify: bool) -> (r: (
    Vec<u8>,
    Ghost<LinkOutcomes>,
))
    requires
        data.len() >= 8,
        data@[7] == (if verify {
            0x56u8
        } else {
            0x44u8
        }),
    ensures
        r.0@ == m0_reply(data@, r.1@),
        final(link).link_calls() == old(link).link_calls() + m0_link_calls(data@, r.1@),
{
    let cmd: u8 = if verify {
        0x56
    } else {
        0x44
    };
    let (addr, bytes) = match parse_chunk(data) {
        Some(c) => c,
        None => {
            return (chunk_response(cmd, M0_ROM_STATUS_ARG, 0, 0), Ghost(probed(None, 0, (0, Seq::empty()))));
        },
    };
    let probe = link.rom_probe();
    let ghost mut o = probed(probe, 0, (0, Seq::empty()));
    let status = match probe {
        None => M0_ROM_STATUS_ARG,
        Some(p) => if p != M0_ROM_STATUS_OK {
            p
        } else if verify {
            let (read_status, readback) = link.rom_read(addr, bytes.len());
            proof {
                o = probed(probe, 0, (read_status, readback@));
            }
            check_readback(read_status, &readback, &bytes)
        } else {
            let s = link.rom_write(addr, bytes.as_slice());
            proof {
                o = probed(probe, s, (0, Seq::empty()));
            }
            s
        },
    };
    let shown: u16 = if status == M0_ROM_STATUS_OK {
        bytes.len() as u16
    } else {
        0
    };
    (chunk_response(cmd, status, addr, shown), Ghost(o))
}

/// Handles a flash begin request (`B`): the link is probed afresh and, if
/// that succeeds, the flash is erased.
fn handle_flash_begin<D: M0Link>(link: &mut D, data: &[u8]) -> (r: (Vec<u8>, Ghost<LinkOutcomes>))
    requires
        data.len() >= 8,
        data@[7] == 0x42,
    ensures
        r.0@ == m0_reply(data@, r.1@),
        final(link).link_calls() == old(link).link_calls() + m0_link_calls(data@, r.1@),
{
    let arg = simple_response(0x42, M0_ROM_STATUS_ARG);
    let base = parse_hex(data, 8, 8);
    if base.is_none() {
        return (arg, Ghost(probed(None, 0, (0, Seq::empty()))));
    }
    let total_len = match parse_hex(data, 16, 8) {
        Some(v) => v,
        None => return (arg, Ghost(probed(None, 0, (0, Seq::empty())))),
    };
    if total_len == 0 {
        return (arg, Ghost(probed(None, 0, (0, Seq::empty()))));
    }
    let probe = link.force_rom_probe();
    let ghost mut o = probed(probe, 0, (0, Seq::empty()));
    let status = match probe {
        None => M0_ROM_STATUS_ARG,
        Some(p) => if p != M0_ROM_STATUS_OK {
            p
        } else {
            let s = link.rom_mass_erase();
            proof {
                o = probed(probe, s, (0, Seq::empty()));
            }
            s
        },
    };
    (simple_response(0x42, status), Ghost(o))
}

/// The reply to a firmware status query.
fn firmware_response(cmd: u8, st: Option<M0FirmwareStatus>) -> (r: Vec<u8>)
    ensures
        r@ == status_query_reply(cmd, st),
{
    match st {
        Some(x) => status_response(cmd, &x),
        None => simple_response(cmd, M0_ROM_STATUS_ARG),
    }
}

/// Handles an M0 bridge request (`F0 00 20 29 02 0E 70 <cmd> ... F7`).
///
/// `None` when `data` is not such a request. Otherwise the reply to send
/// back: that of `m0_reply` for what the device answered.
pub fn handle_m0<D: M0Link>(link: &mut D, data: &[u8]) -> (r: Option<Vec<u8>>)
    ensures
        r is None <==> !m0_request(data@),
        r is None ==> final(link).link_calls() == old(link).link_calls(),
        r matches Some(reply) ==> exists|o: LinkOutcomes|
            reply@ == #[trigger] m0_reply(data@, o) && final(link).link_calls() == old(
                link,
            ).link_calls() + m0_link_calls(data@, o),
{
    if data.len() < 8 || data[data.len() - 1] != 0xf7 {
        return None;
    }
    let header = data[0] == 0xf0 && data[1] == 0x00 && data[2] == 0x20 && data[3] == 0x29
        && data[4] == 0x02 && data[5] == 0x0e;
    proof {
        if header {
            assert(data@.take(6) =~= novation_header());
        } else if data@.take(6) == novation_header() {
            assert(data@.take(6)[0] == 0xf0 && data@.take(6)[5] == 0x0e);
            assert(data@.take(6)[1] == 0x00 && data@.take(6)[2] == 0x20);
            assert(data@.take(6)[3] == 0x29 && data@.take(6)[4] == 0x02);
        }
    }
    if !header || data[6] != M0_REQ_CMD {
        return None;
    }
    let cmd = data[7];
    let ghost none = probed(None, 0, (0, Seq::empty()));
    let (reply, o) = if cmd == 0x53 {
        let st = link.refresh_m0_firmware_status();
        (firmware_response(0x53, st), Ghost(LinkOutcomes { firmware: st, ..none }))
    } else if cmd == 0x43 {
        let st = link.cached_m0_firmware_status();
        (firmware_response(0x43, st), Ghost(LinkOutcomes { firmware: st, ..none }))
    } else if cmd == 0x46 {
        let info = link.flash_info();
        let reply = match info {
            Some(x) => flash_info_response(&x),
            None => simple_response(0x46, M0_ROM_STATUS_ARG),
        };
        (reply, Ghost(LinkOutcomes { info, ..none }))
    } else if cmd == 0x42 {
        handle_flash_begin(link, data)
    } else if cmd == 0x44 {
        handle_chunk(link, data, false)
    } else if cmd == 0x56 {
        handle_chunk(link, data, true)
    } else if cmd == 0x4f {
        link.set_mode(2);
        let st = link.refresh_m0_firmware_status();
        (firmware_response(0x4f, st), Ghost(LinkOutcomes { firmware: st, ..none }))
    } else if cmd == 0x54 {
        let stats = link.roadrunner_stats();
        let reply = match stats {
            Some(Some(x)) => stats_response(&x),
            _ => simple_response(0x54, M0_ROM_STATUS_RX),
        };
        (reply, Ghost(LinkOutcomes { stats, ..none }))
    } else {
        (simple_response(cmd, M0_ROM_STATUS_ARG), Ghost(none))
    };
    assert(reply@ == m0_reply(data@, o@));
    assert(link.link_calls() =~= old(link).link_calls() + m0_link_calls(data@, o@));
    Some(reply)
}

/// The LED requests of a FastLED target: 0 is every pad, 1 to 8 a bottom
/// button (also driven directly as LED 100 + target), 9 to 99 one LED, 100
/// to 109 a row of eight pads, 110 to 119 a column of eight pads.
pub open spec fn fastled_commands(target: u8, r: u8, g: u8, b: u8) -> Seq<LedCommand> {
    if target == 0 {
        Seq::new(99, |i: int| LedCommand::Rgb { index: i as u8, r, g, b })
    } else if target <= 8 {
        seq![
            LedCommand::RawRgb { index: (100 + target) as u8, r, g, b },
            LedCommand::Rgb { index: target, r, g, b },
        ]
    } else if target <= 99 {
        seq![LedCommand::Rgb { index: target, r, g, b }]
    } else if target <= 109 {
        Seq::new(8, |i: int| LedCommand::Rgb { index: ((target - 100) * 10 + 1 + i) as u8, r, g, b })
    } else if target <= 119 {
        Seq::new(8, |i: int| LedCommand::Rgb { index: (target - 100 + 10 * i) as u8, r, g, b })
    } else {
        Seq::empty()
    }
}

/// Sets the colour of a FastLED target.
pub fn set_fastled_target(target: u8, r: u8, g: u8, b: u8, leds: &mut Vec<LedCommand>)
    ensures
        final(leds)@ == old(leds)@ + fastled_commands(target, r, g, b),
{
    let ghost start = leds@;
    let ghost want = fastled_commands(target, r, g, b);
    if target == 0 {
        let mut index: u8 = 0;
        while index < 99
            invariant
                index <= 99,
                target == 0,
                want == fastled_commands(target, r, g, b),
                leds@ == start + want.take(index as int),
            decreases 99 - index,
        {
            leds.push(LedCommand::Rgb { index, r, g, b });
            index = index + 1;
            assert(want.take(index as int) =~= want.take(index - 1).push(want[index - 1]));
        }
        assert(want.take(99) =~= want);
    } else if target <= 8 {
        leds.push(LedCommand::RawRgb { index: 100 + target, r, g, b });
        leds.push(LedCommand::Rgb { index: target, r, g, b });
        assert(leds@ =~= start + want);
    } else if target <= 99 {
        leds.push(LedCommand::Rgb { index: target, r, g, b });
        assert(leds@ =~= start + want);
    } else if target <= 119 {
        let row = target <= 109;
        let first: u8 = if row {
            (target - 100) * 10 + 1
        } else {
            target - 100
        };
        let step: u8 = if row {
            1
        } else {
            10
        };
        let mut k: u8 = 0;
        while k < 8
            invariant
                k <= 8,
                100 <= target <= 119,
                row == (target <= 109),
                row ==> first == (target - 100) * 10 + 1 && step == 1,
                !row ==> first == target - 100 && step == 10,
                want == fastled_commands(target, r, g, b),
                leds@ == start + want.take(k as int),
            decreases 8 - k,
        {
            leds.push(LedCommand::Rgb { index: first + step * k, r, g, b });
            k = k + 1;
            assert(want.take(k as int) =~= want.take(k - 1).push(want[k - 1]));
        }
        assert(want.take(8) =~= want);
    } else {
        assert(leds@ =~= start + want);
    }
}

/// The Launchpad Pro MK3's SysEx handler.
pub struct Handler;

impl Handler {
    /// Hands `data` to the device inquiry, the M0 bridge (whose reply goes
    /// back on `port`), the modern LED messages for device `0x0E`, and the
    /// version inquiry, in that order; says whether one took it.
    pub fn execute<D: M0Link>(
        link: &mut D,
        app: AppId,
        port: MidiPort,
        device_id: u8,
        data: &[u8],
        out: &mut SysExOutput,
    ) -> (r: bool)
        ensures
            r == (is_device_inquiry(data@) || m0_request(data@) || is_modern_led_message(
                data@,
                LED_SYSEX_DEVICE_ID,
            ) || version_inquiry::is_version_inquiry(data@)),
            is_device_inquiry(data@) ==> final(out).leds == old(out).leds && replies_view(
                final(out).replies@,
            ) == replies_view(old(out).replies@).push((port, inquiry_reply())),
            !is_device_inquiry(data@) && m0_request(data@) ==> final(out).leds == old(out).leds
                && exists|o: LinkOutcomes|
                replies_view(final(out).replies@) == replies_view(old(out).replies@).push(
                    (port, #[trigger] m0_reply(data@, o)),
                ) && final(link).link_calls() == old(link).link_calls() + m0_link_calls(data@, o),
            !m0_request(data@) || is_device_inquiry(data@) ==> final(link).link_calls() == old(
                link,
            ).link_calls(),
            !is_device_inquiry(data@) && !m0_request(data@) && is_modern_led_message(
                data@,
                LED_SYSEX_DEVICE_ID,
            ) ==> final(out).leds@ == old(out).leds@ + modern_commands(data@, 7) && final(out).replies == old(out).replies,
            !is_device_inquiry(data@) && !m0_request(data@) && !is_modern_led_message(
                data@,
                LED_SYSEX_DEVICE_ID,
            ) ==> final(out).leds@ == old(out).leds@ && replies_view(final(out).replies@)
                == replies_view(old(out).replies@) + (if r {
                seq![(port, version_inquiry::version_reply(device_id))]
            } else {
                Seq::empty()
            }),
    {
        if device_inquiry::Handler::execute(app, port, device_id, data, out) {
            return true;
        }
        match handle_m0(link, data) {
            Some(reply) => {
                out.send_midi(port, reply);
                return true;
            },
            None => {},
        }
        if handle_modern(data, LED_SYSEX_DEVICE_ID, &mut out.leds) {
            return true;
        }
        assert(old(out).leds@ + Seq::<LedCommand>::empty() == old(out).leds@);
        DefaultSysExHandler::execute(app, port, device_id, data, out)
    }
}

} // verus!
