use vstd::prelude::*;
use crate::app::AppId;
use crate::sys::midi::MidiPort;

verus! {

/// Header of the M0 bridge messages: Novation's SysEx header with device 0x0E.
pub open spec fn novation_header() -> Seq<u8> {
    seq![0xf0u8, 0x00, 0x20, 0x29, 0x02, 0x0e]
}

/// Command byte of an M0 request.
pub const M0_REQ_CMD: u8 = 0x70;

/// Command byte of an M0 response.
pub const M0_RESP_CMD: u8 = 0x71;

/// Largest chunk, in bytes, of one flash data or verify request.
pub const M0_FLASH_CHUNK_LEN: usize = 256;

/// The only base address a flash session may start at.
pub const M0_FLASH_BASE: u32 = 0x0800_0000;

/// Largest image, in bytes, a flash session may write.
pub const M0_FLASH_MAX_LEN: u32 = 32768;

/// Firmware kind reported by the stock M0 firmware.
pub const M0_FIRMWARE_KIND_LEGACY: u8 = 0;

/// Firmware kind reported by the Roadrunner M0 firmware.
pub const M0_FIRMWARE_KIND_ROADRUNNER: u8 = 1;

/// Status: success.
pub const M0_ROM_STATUS_OK: u8 = 0;

/// Status: the request came out of order or the link did not answer.
pub const M0_ROM_STATUS_RX: u8 = 5;

/// Status: the request's arguments were refused.
pub const M0_ROM_STATUS_ARG: u8 = 6;

/// Value of an ASCII hexadecimal digit (either case).
pub open spec fn hex_digit(b: u8) -> Option<u8> {
    if 0x30 <= b <= 0x39 {
        Some((b - 0x30) as u8)
    } else if 0x61 <= b <= 0x66 {
        Some((b - 0x61 + 10) as u8)
    } else if 0x41 <= b <= 0x46 {
        Some((b - 0x41 + 10) as u8)
    } else {
        None
    }
}

/// Every byte of `s` is a hexadecimal digit.
pub open spec fn all_hex(s: Seq<u8>) -> bool {
    forall|i: int| 0 <= i < s.len() ==> (#[trigger] hex_digit(s[i])) is Some
}

/// The number written by the hexadecimal digits `s`, most significant first.
pub open spec fn hex_number(s: Seq<u8>) -> nat
    decreases s.len(),
{
    if s.len() == 0 {
        0
    } else {
        hex_number(s.drop_last()) * 16 + hex_digit(s.last()).unwrap() as nat
    }
}

/// The ASCII digit (upper case) of a value below 16.
pub open spec fn nibble_char(v: int) -> u8 {
    if v < 10 {
        (0x30 + v) as u8
    } else {
        (0x41 + v - 10) as u8
    }
}

/// Two upper-case hexadecimal digits of a byte.
pub open spec fn hex8(v: u8) -> Seq<u8> {
    seq![nibble_char(v as int / 16), nibble_char(v as int % 16)]
}

/// Four upper-case hexadecimal digits of a 16-bit value.
pub open spec fn hex16(v: u16) -> Seq<u8> {
    hex8((v / 256) as u8) + hex8((v % 256) as u8)
}

/// Eight upper-case hexadecimal digits of a 32-bit value.
pub open spec fn hex32(v: u32) -> Seq<u8> {
    hex16((v / 65536) as u16) + hex16((v % 65536) as u16)
}

/// Value of an ASCII hexadecimal digit, or `None` for any other byte.
pub fn hex_value(byte: u8) -> (r: Option<u8>)
    ensures
        r == hex_digit(byte),
{
    if byte >= 0x30 && byte <= 0x39 {
        Some(byte - 0x30)
    } else if byte >= 0x61 && byte <= 0x66 {
        Some(byte - 0x61 + 10)
    } else if byte >= 0x41 && byte <= 0x46 {
        Some(byte - 0x41 + 10)
    } else {
        None
    }
}

/// The `digits` hexadecimal digits of `data` at `off`, which must stand before
/// the message's last byte.
pub open spec fn hex_field(data: Seq<u8>, off: int, digits: int) -> Option<nat> {
    let last = if data.len() == 0 {
        0
    } else {
        data.len() - 1
    };
    if off + digits > last || !all_hex(data.subrange(off, off + digits)) {
        None
    } else {
        Some(hex_number(data.subrange(off, off + digits)))
    }
}

/// `16` to the power `n`.
pub open spec fn pow16(n: nat) -> nat
    decreases n,
{
    if n == 0 {
        1
    } else {
        16 * pow16((n - 1) as nat)
    }
}

proof fn lemma_pow16_mono(a: nat, b: nat)
    requires
        a <= b,
    ensures
        pow16(a) <= pow16(b),
    decreases b,
{
    if a < b {
        lemma_pow16_mono(a, (b - 1) as nat);
    }
}

proof fn lemma_hex_number_bound(s: Seq<u8>)
    requires
        all_hex(s),
    ensures
        hex_number(s) < pow16(s.len()),
    decreases s.len(),
{
    if s.len() > 0 {
        assert(all_hex(s.drop_last()));
        lemma_hex_number_bound(s.drop_last());
        assert(hex_digit(s[s.len() - 1]) is Some);
        let p = pow16((s.len() - 1) as nat);
        assert(hex_number(s) <= (p - 1) * 16 + 15) by (nonlinear_arith)
            requires
                hex_number(s) == hex_number(s.drop_last()) * 16 + hex_digit(s.last()).unwrap(),
                hex_number(s.drop_last()) < p,
                hex_digit(s.last()).unwrap() < 16,
        ;
    }
}

/// Reads `digits` (at most 8) hexadecimal digits of `data` at `off`.
///
/// `None` when the digits would reach the message's last byte, or when one of
/// them is not a hexadecimal digit.
pub fn parse_hex(data: &[u8], off: usize, digits: usize) -> (r: Option<u32>)
    requires
        digits <= 8,
        off + digits <= usize::MAX,
    ensures
        r matches Some(v) ==> hex_field(data@, off as int, digits as int) == Some(v as nat),
        r is None ==> hex_field(data@, off as int, digits as int) is None,
{
    let last = if data.len() == 0 {
        0
    } else {
        data.len() - 1
    };
    if off + digits > last {
        return None;
    }
    let ghost field = data@.subrange(off as int, off + digits);
    let mut value: u32 = 0;
    let mut i: usize = 0;
    while i < digits
        invariant
            i <= digits <= 8,
            off + digits <= data.len(),
            field == data@.subrange(off as int, off + digits),
            all_hex(field.take(i as int)),
            value as nat == hex_number(field.take(i as int)),
        decreases digits - i,
    {
        match hex_value(data[off + i]) {
            Some(d) => {
                proof {
                    assert(field.take(i + 1).drop_last() == field.take(i as int));
                    assert(field.take(i + 1).last() == data@[off + i]);
                    assert(all_hex(field.take(i + 1)));
                    lemma_hex_number_bound(field.take(i as int));
                    lemma_pow16_mono(i as nat, 7);
                    assert(pow16(7) == 0x1000_0000) by {
                        reveal_with_fuel(pow16, 8);
                    }
                    assert(value < 0x1000_0000);
                }
                value = value * 16 + d as u32;
            },
            None => {
                proof {
                    assert(field[i as int] == data@[off + i]);
                    assert(!all_hex(field));
                }
                return None;
            },
        }
        i += 1;
    }
    proof {
        assert(field.take(digits as int) == field);
    }
    Some(value)
}


/// Appends the upper-case hexadecimal digit of the low four bits of `value`.
fn append_nibble(resp: &mut Vec<u8>, value: u8)
    ensures
        final(resp)@ == old(resp)@.push(nibble_char(value as int % 16)),
{
    let low = value & 0x0f;
    assert(low == value as int % 16) by (bit_vector)
        requires
            low == value & 0x0f,
    ;
    if low < 10 {
        resp.push(0x30 + low);
    } else {
        resp.push(0x41 + low - 10);
    }
}

/// Appends the two hexadecimal digits of `value`.
fn append_hex8(resp: &mut Vec<u8>, value: u8)
    ensures
        final(resp)@ == old(resp)@ + hex8(value),
{
    let high = value >> 4;
    assert(high as int % 16 == value as int / 16) by (bit_vector)
        requires
            high == value >> 4,
    ;
    append_nibble(resp, high);
    append_nibble(resp, value);
    assert(resp@ == old(resp)@ + hex8(value));
}

/// Appends the four hexadecimal digits of `value`.
fn append_hex16(resp: &mut Vec<u8>, value: u16)
    ensures
        final(resp)@ == old(resp)@ + hex16(value),
{
    let high = (value >> 8) as u8;
    let low = value as u8;
    assert(high == value / 256 && low == value % 256) by (bit_vector)
        requires
            high == (value >> 8) as u8,
            low == value as u8,
    ;
    append_hex8(resp, high);
    append_hex8(resp, low);
    assert(resp@ == old(resp)@ + hex16(value));
}

/// Appends the eight hexadecimal digits of `value`.
fn append_hex32(resp: &mut Vec<u8>, value: u32)
    ensures
        final(resp)@ == old(resp)@ + hex32(value),
{
    let high = (value >> 16) as u16;
    let low = value as u16;
    assert(high == value / 65536 && low == value % 65536) by (bit_vector)
        requires
            high == (value >> 16) as u16,
            low == value as u16,
    ;
    append_hex16(resp, high);
    append_hex16(resp, low);
    assert(resp@ == old(resp)@ + hex32(value));
}

/// What a response to command `cmd` starts with.
pub open spec fn reply_prefix(cmd: u8) -> Seq<u8> {
    novation_header() + seq![M0_RESP_CMD, cmd]
}

/// Starts a response to command `cmd`.
fn response_prefix(cmd: u8) -> (r: Vec<u8>)
    ensures
        r@ == reply_prefix(cmd),
{
    let mut resp: Vec<u8> = Vec::new();
    resp.push(0xf0);
    resp.push(0x00);
    resp.push(0x20);
    resp.push(0x29);
    resp.push(0x02);
    resp.push(0x0e);
    resp.push(M0_RESP_CMD);
    resp.push(cmd);
    assert(resp@ == reply_prefix(cmd));
    resp
}

/// Ends a response with the SysEx terminator.
fn finish_response(resp: &mut Vec<u8>)
    ensures
        final(resp)@ == old(resp)@.push(0xf7),
{
    resp.push(0xf7);
}

/// The response carrying only a status.
pub open spec fn simple_reply(cmd: u8, status: u8) -> Seq<u8> {
    reply_prefix(cmd) + hex8(status) + seq![0xf7u8]
}

/// The response to a flash data or verify request.
pub open spec fn chunk_reply(cmd: u8, status: u8, addr: u32, len: u16) -> Seq<u8> {
    reply_prefix(cmd) + hex8(status) + hex32(addr) + hex16(len) + seq![0xf7u8]
}

/// The response carrying only a status.
pub fn simple_response(cmd: u8, status: u8) -> (r: Vec<u8>)
    ensures
        r@ == simple_reply(cmd, status),
{
    let mut resp = response_prefix(cmd);
    append_hex8(&mut resp, status);
    finish_response(&mut resp);
    resp
}

/// The response to a flash data or verify request.
pub fn chunk_response(cmd: u8, status: u8, addr: u32, len: u16) -> (r: Vec<u8>)
    ensures
        r@ == chunk_reply(cmd, status, addr, len),
{
    let mut resp = response_prefix(cmd);
    append_hex8(&mut resp, status);
    append_hex32(&mut resp, addr);
    append_hex16(&mut resp, len);
    finish_response(&mut resp);
    resp
}


/// What a ROM probe of the M0 reported.
///
/// The boot vector bytes are at most 15; the type holds that as its invariant.
#[derive(Copy, Clone, Debug)]
pub struct M0ProbeResult {
    pub(crate) status: u8,
    pub(crate) read_status: u8,
    pub(crate) ack: u8,
    pub(crate) baud: u32,
    pub(crate) pid: u16,
    pub(crate) blid: u8,
    pub(crate) vector_len: u8,
    pub(crate) vector: [u8; 15],
}

impl M0ProbeResult {
    #[verifier::type_invariant]
    spec fn well_formed(self) -> bool {
        self.vector_len <= 15
    }

    /// The reported boot vector bytes.
    pub closed spec fn vector_bytes(self) -> Seq<u8> {
        self.vector@.take(self.vector_len as int)
    }

    /// The probe's fields in the order a response lists them.
    pub closed spec fn fields(self) -> (u8, u8, u8, u32, u16, u8) {
        (self.status, self.read_status, self.ack, self.baud, self.pid, self.blid)
    }

    /// A probe result; `None` when `vector_len` exceeds the 15 vector bytes.
    pub fn new(
        status: u8,
        read_status: u8,
        ack: u8,
        baud: u32,
        pid: u16,
        blid: u8,
        vector_len: u8,
        vector: [u8; 15],
    ) -> (r: Option<M0ProbeResult>)
        ensures
            vector_len > 15 <==> r is None,
            r matches Some(p) ==> p.fields() == (status, read_status, ack, baud, pid, blid)
                && p.vector_bytes() == vector@.take(vector_len as int),
    {
        if vector_len > 15 {
            None
        } else {
            Some(
                M0ProbeResult { status, read_status, ack, baud, pid, blid, vector_len, vector },
            )
        }
    }

    /// The all-zero probe result.
    pub closed spec fn spec_zeroed() -> M0ProbeResult {
        M0ProbeResult {
            status: 0,
            read_status: 0,
            ack: 0,
            baud: 0,
            pid: 0,
            blid: 0,
            vector_len: 0,
            vector: vstd::array::spec_array_fill_for_copy_type::<u8, 15>(0),
        }
    }

    /// An all-zero probe result.
    pub fn zeroed() -> (r: M0ProbeResult)
        ensures
            r.fields() == (0u8, 0u8, 0u8, 0u32, 0u16, 0u8),
            r.vector_bytes() == Seq::<u8>::empty(),
            r == M0ProbeResult::spec_zeroed(),
    {
        M0ProbeResult {
            status: 0,
            read_status: 0,
            ack: 0,
            baud: 0,
            pid: 0,
            blid: 0,
            vector_len: 0,
            vector: [0; 15],
        }
    }

    /// The probe's own status byte.
    pub fn status(&self) -> (r: u8)
        ensures
            r == self.fields().0,
    {
        self.status
    }
}

/// The hexadecimal encoding of a probe result within a response.
pub open spec fn probe_hex(p: M0ProbeResult) -> Seq<u8> {
    let (status, read_status, ack, baud, pid, blid) = p.fields();
    hex8(status) + hex8(read_status) + hex8(ack) + hex32(baud) + hex16(pid) + hex8(blid) + hex8(
        p.vector_bytes().len() as u8,
    ) + hex_bytes(p.vector_bytes())
}

/// Two hexadecimal digits for each byte of `s`.
pub open spec fn hex_bytes(s: Seq<u8>) -> Seq<u8>
    decreases s.len(),
{
    if s.len() == 0 {
        Seq::empty()
    } else {
        hex_bytes(s.drop_last()) + hex8(s.last())
    }
}

/// Firmware status of the M0 as the driver reports it.
#[derive(Copy, Clone, Debug)]
pub struct M0FirmwareStatus {
    pub status: u8,
    pub kind: u8,
    pub version_major: u8,
    pub version_minor: u8,
    pub version_patch: u8,
    pub probe: M0ProbeResult,
}

impl M0FirmwareStatus {
    /// The status used when nothing is known about the M0: every field zero.
    pub fn unknown() -> (r: M0FirmwareStatus)
        ensures
            r.status == 0 && r.kind == 0 && r.version_major == 0 && r.version_minor == 0
                && r.version_patch == 0,
            r.probe.fields() == (0u8, 0u8, 0u8, 0u32, 0u16, 0u8),
            r.probe.vector_bytes() == Seq::<u8>::empty(),
            r == unknown_status(),
    {
        M0FirmwareStatus {
            status: 0,
            kind: 0,
            version_major: 0,
            version_minor: 0,
            version_patch: 0,
            probe: M0ProbeResult::zeroed(),
        }
    }
}

/// The status used when nothing is known about the M0.
pub open spec fn unknown_status() -> M0FirmwareStatus {
    M0FirmwareStatus {
        status: 0,
        kind: 0,
        version_major: 0,
        version_minor: 0,
        version_patch: 0,
        probe: M0ProbeResult::spec_zeroed(),
    }
}

/// Identification of the external flash chip.
#[derive(Copy, Clone, Debug)]
pub struct M0FlashInfo {
    pub present: bool,
    pub jedec_id: [u8; 3],
    pub status1: u8,
}

/// Counters of the Roadrunner LED link.
#[derive(Copy, Clone, Debug)]
pub struct RoadrunnerStats {
    pub fast_frames: u32,
    pub commits: u32,
    pub rx_overruns: u32,
}

/// The response carrying a firmware status.
pub open spec fn status_reply(cmd: u8, st: M0FirmwareStatus) -> Seq<u8> {
    reply_prefix(cmd) + hex8(st.status) + hex8(st.kind) + hex8(st.version_major) + hex8(
        st.version_minor,
    ) + hex8(st.version_patch) + probe_hex(st.probe) + seq![0xf7u8]
}

/// The response carrying flash chip information.
pub open spec fn flash_info_reply(info: M0FlashInfo) -> Seq<u8> {
    reply_prefix(0x46) + hex8(M0_ROM_STATUS_OK) + hex8(
        if info.present {
            1
        } else {
            0
        },
    ) + hex8(info.jedec_id[0]) + hex8(info.jedec_id[1]) + hex8(info.jedec_id[2]) + hex8(
        info.status1,
    ) + seq![0xf7u8]
}

/// The response carrying link counters.
pub open spec fn stats_reply(stats: RoadrunnerStats) -> Seq<u8> {
    reply_prefix(0x54) + hex8(M0_ROM_STATUS_OK) + hex32(stats.fast_frames) + hex32(stats.commits)
        + hex32(stats.rx_overruns) + seq![0xf7u8]
}

/// Appends the hexadecimal encoding of a probe result.
fn append_probe(resp: &mut Vec<u8>, probe: &M0ProbeResult)
    ensures
        final(resp)@ == old(resp)@ + probe_hex(*probe),
{
    proof {
        use_type_invariant(probe);
    }
    append_hex8(resp, probe.status);
    append_hex8(resp, probe.read_status);
    append_hex8(resp, probe.ack);
    append_hex32(resp, probe.baud);
    append_hex16(resp, probe.pid);
    append_hex8(resp, probe.blid);
    append_hex8(resp, probe.vector_len);
    let ghost head = resp@;
    let mut i: usize = 0;
    while i < probe.vector_len as usize
        invariant
            probe.vector_len <= 15,
            i <= probe.vector_len,
            resp@ == head + hex_bytes(probe.vector@.take(i as int)),
        decreases probe.vector_len - i,
    {
        append_hex8(resp, probe.vector[i]);
        proof {
            assert(probe.vector@.take(i + 1).drop_last() == probe.vector@.take(i as int));
        }
        i += 1;
    }
    proof {
        assert(probe.vector_bytes().len() == probe.vector_len);
        assert(resp@ == old(resp)@ + probe_hex(*probe));
    }
}

/// The response carrying a firmware status.
pub fn status_response(cmd: u8, status: &M0FirmwareStatus) -> (r: Vec<u8>)
    ensures
        r@ == status_reply(cmd, *status),
{
    let mut resp = response_prefix(cmd);
    append_hex8(&mut resp, status.status);
    append_hex8(&mut resp, status.kind);
    append_hex8(&mut resp, status.version_major);
    append_hex8(&mut resp, status.version_minor);
    append_hex8(&mut resp, status.version_patch);
    append_probe(&mut resp, &status.probe);
    finish_response(&mut resp);
    assert(resp@ == status_reply(cmd, *status));
    resp
}

/// The response carrying flash chip information.
pub fn flash_info_response(info: &M0FlashInfo) -> (r: Vec<u8>)
    ensures
        r@ == flash_info_reply(*info),
{
    let mut resp = response_prefix(0x46);
    append_hex8(&mut resp, M0_ROM_STATUS_OK);
    append_hex8(
        &mut resp,
        if info.present {
            1
        } else {
            0
        },
    );
    append_hex8(&mut resp, info.jedec_id[0]);
    append_hex8(&mut resp, info.jedec_id[1]);
    append_hex8(&mut resp, info.jedec_id[2]);
    append_hex8(&mut resp, info.status1);
    finish_response(&mut resp);
    assert(resp@ == flash_info_reply(*info));
    resp
}

/// The response carrying link counters.
pub fn stats_response(stats: &RoadrunnerStats) -> (r: Vec<u8>)
    ensures
        r@ == stats_reply(*stats),
{
    let mut resp = response_prefix(0x54);
    append_hex8(&mut resp, M0_ROM_STATUS_OK);
    append_hex32(&mut resp, stats.fast_frames);
    append_hex32(&mut resp, stats.commits);
    append_hex32(&mut resp, stats.rx_overruns);
    finish_response(&mut resp);
    assert(resp@ == stats_reply(*stats));
    resp
}


/// One chunk of a flash data or verify request.
#[derive(Clone, Debug)]
pub struct FlashChunk {
    pub addr: u32,
    pub data: Vec<u8>,
}

/// Byte `i` of a chunk: the two hexadecimal digits at `20 + 2i`.
pub open spec fn chunk_byte(data: Seq<u8>, i: int) -> Option<nat> {
    hex_field(data, 20 + 2 * i, 2)
}

/// Address and bytes of a flash data or verify request, if well formed.
///
/// The request carries the address in eight hexadecimal digits at offset 8,
/// the length (1 to 256) in four digits at offset 16, then two digits per
/// byte, and nothing else before the terminator.
pub open spec fn chunk_fields(data: Seq<u8>) -> Option<(u32, Seq<u8>)> {
    let addr = hex_field(data, 8, 8);
    let len = hex_field(data, 16, 4);
    if addr is None || len is None {
        None
    } else {
        let l = len.unwrap();
        if l == 0 || l > 256 || data.len() != 21 + 2 * l {
            None
        } else if exists|i: int| 0 <= i < l && (#[trigger] chunk_byte(data, i)) is None {
            None
        } else {
            Some(
                (
                    addr.unwrap() as u32,
                    Seq::new(l, |i: int| chunk_byte(data, i).unwrap() as u8),
                ),
            )
        }
    }
}

/// Reads the address and bytes of a flash data or verify request.
pub fn parse_chunk(data: &[u8]) -> (r: Option<FlashChunk>)
    ensures
        r is None <==> chunk_fields(data@) is None,
        r matches Some(c) ==> chunk_fields(data@) == Some((c.addr, c.data@)),
{
    let addr = match parse_hex(data, 8, 8) {
        Some(a) => a,
        None => return None,
    };
    let len = match parse_hex(data, 16, 4) {
        Some(l) => l as usize,
        None => return None,
    };
    if len == 0 || len > M0_FLASH_CHUNK_LEN {
        return None;
    }
    if data.len() != 21 + len * 2 {
        return None;
    }
    let mut bytes: Vec<u8> = Vec::new();
    let mut i: usize = 0;
    while i < len
        invariant
            1 <= len <= 256,
            data.len() == 21 + 2 * len,
            i <= len,
            bytes@.len() == i,
            forall|k: int| 0 <= k < i ==> (#[trigger] chunk_byte(data@, k)) is Some && bytes@[k]
                == chunk_byte(data@, k).unwrap() as u8,
        decreases len - i,
    {
        match parse_hex(data, 20 + i * 2, 2) {
            Some(v) => {
                bytes.push(v as u8);
            },
            None => {
                proof {
                    assert(chunk_byte(data@, i as int) is None);
                }
                return None;
            },
        }
        i += 1;
    }
    proof {
        assert(hex_field(data@, 16, 4) == Some(len as nat));
        assert(bytes@ == Seq::new(len as nat, |k: int| chunk_byte(data@, k).unwrap() as u8));
    }
    Some(FlashChunk { addr, data: bytes })
}


/// A call the M0 bridge made of the device, with what the device answered.
pub enum M0Call {
    CachedStatus(Option<M0FirmwareStatus>),
    RefreshStatus(Option<M0FirmwareStatus>),
    FlashInfo(Option<M0FlashInfo>),
    Stats(Option<Option<RoadrunnerStats>>),
    /// A forced ROM probe and its status.
    ForceRomProbe(u8),
    /// A write of bytes at an address, and its status.
    RomWrite(u32, Seq<u8>, u8),
    /// A read of a number of bytes at an address: its status and the bytes.
    RomRead(u32, nat, u8, Seq<u8>),
    SetMode(u8),
}

/// What the M0 bridge needs from the device: its answers are whatever the
/// hardware reports. A device is described by the calls made of it and what
/// it answered, oldest first.
pub trait M0Driver {
    /// The calls made of this device so far, with its answers, oldest first.
    spec fn m0_calls(&self) -> Seq<M0Call>;

    fn cached_m0_firmware_status(&mut self) -> (r: Option<M0FirmwareStatus>)
        ensures
            final(self).m0_calls() == old(self).m0_calls().push(M0Call::CachedStatus(r)),
    ;

    fn refresh_m0_firmware_status(&mut self) -> (r: Option<M0FirmwareStatus>)
        ensures
            final(self).m0_calls() == old(self).m0_calls().push(M0Call::RefreshStatus(r)),
    ;

    fn flash_info(&mut self) -> (r: Option<M0FlashInfo>)
        ensures
            final(self).m0_calls() == old(self).m0_calls().push(M0Call::FlashInfo(r)),
    ;

    fn roadrunner_stats(&mut self) -> (r: Option<Option<RoadrunnerStats>>)
        ensures
            final(self).m0_calls() == old(self).m0_calls().push(M0Call::Stats(r)),
    ;

    /// Forces the M0 into its ROM bootloader and probes it; returns a status.
    fn m0_force_rom_probe(&mut self) -> (r: u8)
        ensures
            final(self).m0_calls() == old(self).m0_calls().push(M0Call::ForceRomProbe(r)),
    ;

    /// Writes `data` to the M0's flash at `addr`; returns a status.
    fn m0_rom_write(&mut self, addr: u32, data: &[u8]) -> (r: u8)
        ensures
            final(self).m0_calls() == old(self).m0_calls().push(M0Call::RomWrite(addr, data@, r)),
    ;

    /// Reads `len` bytes of the M0's flash at `addr`; returns a status and the bytes.
    fn m0_rom_read(&mut self, addr: u32, len: usize) -> (r: (u8, Vec<u8>))
        ensures
            final(self).m0_calls() == old(self).m0_calls().push(
                M0Call::RomRead(addr, len as nat, r.0, r.1@),
            ),
    ;

    fn m0_set_mode(&mut self, mode: u8)
        ensures
            final(self).m0_calls() == old(self).m0_calls().push(M0Call::SetMode(mode)),
    ;
}

/// State of a flash session with the M0.
#[derive(Copy, Clone, Debug, PartialEq, Eq, Structural)]
pub struct M0Session {
    /// A session was begun and has not been ended by a boot.
    pub active: bool,
    pub base_addr: u32,
    pub total_len: u32,
    /// Where the next data chunk must start.
    pub next_write: u32,
    /// Where the next verify chunk must start.
    pub next_verify: u32,
    pub last_write_addr: u32,
    pub last_write_len: u32,
    pub last_verify_addr: u32,
    pub last_verify_len: u32,
    /// The last boot started firmware, so a repeated boot request is answered
    /// with the cached status.
    pub boot_retryable: bool,
    /// A boot started firmware and the boot animation should run again.
    pub boot_cycle_requested: bool,
}

/// The session before any request.
pub open spec fn initial_session() -> M0Session {
    M0Session {
        active: false,
        base_addr: M0_FLASH_BASE,
        total_len: 0,
        next_write: M0_FLASH_BASE,
        next_verify: M0_FLASH_BASE,
        last_write_addr: 0,
        last_write_len: 0,
        last_verify_addr: 0,
        last_verify_len: 0,
        boot_retryable: false,
        boot_cycle_requested: false,
    }
}

impl M0Session {
    /// An active session starts at the flash base, covers 1 to 32768 bytes,
    /// and has verified no further than it has written, and written no
    /// further than its end.
    pub open spec fn wf(self) -> bool {
        self.active ==> {
            &&& self.base_addr == M0_FLASH_BASE
            &&& 1 <= self.total_len <= M0_FLASH_MAX_LEN
            &&& self.base_addr <= self.next_verify <= self.next_write <= self.base_addr
                + self.total_len
        }
    }

    /// The session before any request.
    pub fn new() -> (r: M0Session)
        ensures
            r == initial_session(),
            r.wf(),
    {
        M0Session {
            active: false,
            base_addr: M0_FLASH_BASE,
            total_len: 0,
            next_write: M0_FLASH_BASE,
            next_verify: M0_FLASH_BASE,
            last_write_addr: 0,
            last_write_len: 0,
            last_verify_addr: 0,
            last_verify_len: 0,
            boot_retryable: false,
            boot_cycle_requested: false,
        }
    }
}

/// `len` bytes at `addr` lie within the session's range, and `len` is 1 to 256.
pub open spec fn chunk_in_range(s: M0Session, addr: int, len: int) -> bool {
    &&& 1 <= len <= 256
    &&& s.base_addr + s.total_len <= u32::MAX
    &&& addr >= s.base_addr
    &&& addr + len <= s.base_addr + s.total_len
}

/// Every byte of the session was written and verified.
pub open spec fn session_complete(s: M0Session) -> bool {
    &&& s.active
    &&& s.base_addr + s.total_len <= u32::MAX
    &&& s.next_write == s.base_addr + s.total_len
    &&& s.next_verify == s.base_addr + s.total_len
}

/// What the device answered during one request.
pub struct M0Outcomes {
    /// Status of a probe or a write.
    pub status: u8,
    /// Status and bytes of a read-back.
    pub read: (u8, Seq<u8>),
    /// First firmware status asked for.
    pub first: Option<M0FirmwareStatus>,
    /// Second firmware status asked for.
    pub second: Option<M0FirmwareStatus>,
    pub info: Option<M0FlashInfo>,
    pub stats: Option<Option<RoadrunnerStats>>,
}

/// Outcome of comparing a read-back with the expected bytes.
pub open spec fn verify_status(read_status: u8, readback: Seq<u8>, expected: Seq<u8>) -> u8 {
    if read_status == M0_ROM_STATUS_OK && readback == expected {
        M0_ROM_STATUS_OK
    } else if read_status == M0_ROM_STATUS_OK {
        M0_ROM_STATUS_ARG
    } else {
        read_status
    }
}

/// `data` is an M0 request: framed, with the M0 header and request command.
pub open spec fn m0_request(data: Seq<u8>) -> bool {
    &&& data.len() >= 8
    &&& data[data.len() - 1] == 0xf7
    &&& data.take(6) == novation_header()
    &&& data[6] == M0_REQ_CMD
}

/// Effect of a flash begin request (`B`).
pub open spec fn begin_effect(s: M0Session, data: Seq<u8>, o: M0Outcomes) -> (M0Session, Seq<u8>) {
    let base = hex_field(data, 8, 8);
    let total = hex_field(data, 16, 8);
    if data.len() != 25 || base is None || total is None || base.unwrap() != M0_FLASH_BASE
        || total.unwrap() < 1 || total.unwrap() > M0_FLASH_MAX_LEN {
        (s, simple_reply(0x42, M0_ROM_STATUS_ARG))
    } else if o.status == M0_ROM_STATUS_OK {
        let b = base.unwrap() as u32;
        (
            M0Session {
                active: true,
                base_addr: b,
                total_len: total.unwrap() as u32,
                next_write: b,
                next_verify: b,
                last_write_addr: 0,
                last_write_len: 0,
                last_verify_addr: 0,
                last_verify_len: 0,
                boot_retryable: false,
                boot_cycle_requested: false,
            },
            simple_reply(0x42, M0_ROM_STATUS_OK),
        )
    } else {
        (
            M0Session { active: false, boot_retryable: false, boot_cycle_requested: false, ..s },
            simple_reply(0x42, o.status),
        )
    }
}

/// Effect of a flash data request (`D`).
///
/// A chunk in range is written only at the next write address; a repeat of
/// the last written chunk is acknowledged only when the flash already holds
/// its bytes.
pub open spec fn data_effect(s: M0Session, data: Seq<u8>, o: M0Outcomes) -> (M0Session, Seq<u8>) {
    match chunk_fields(data) {
        None => (s, chunk_reply(0x44, M0_ROM_STATUS_ARG, 0, 0)),
        Some((addr, bytes)) => {
            let len = bytes.len() as int;
            let writes = chunk_in_range(s, addr as int, len) && s.active && addr == s.next_write;
            let status = if !chunk_in_range(s, addr as int, len) {
                M0_ROM_STATUS_ARG
            } else if !s.active {
                M0_ROM_STATUS_RX
            } else if addr == s.next_write {
                o.status
            } else if addr == s.last_write_addr && len == s.last_write_len {
                verify_status(o.read.0, o.read.1, bytes)
            } else {
                M0_ROM_STATUS_ARG
            };
            (
                if writes && o.status == M0_ROM_STATUS_OK {
                    M0Session {
                        next_write: (addr + len) as u32,
                        last_write_addr: addr,
                        last_write_len: len as u32,
                        ..s
                    }
                } else {
                    s
                },
                chunk_reply(
                    0x44,
                    status,
                    addr,
                    if status == M0_ROM_STATUS_OK {
                        len as u16
                    } else {
                        0
                    },
                ),
            )
        },
    }
}

/// Effect of a flash verify request (`V`).
///
/// A chunk is verified only once written, only at the next verify address,
/// and a repeat of the last verified chunk is checked again.
pub open spec fn verify_effect(s: M0Session, data: Seq<u8>, o: M0Outcomes) -> (
    M0Session,
    Seq<u8>,
) {
    match chunk_fields(data) {
        None => (s, chunk_reply(0x56, M0_ROM_STATUS_ARG, 0, 0)),
        Some((addr, bytes)) => {
            let len = bytes.len() as int;
            let checked = verify_status(o.read.0, o.read.1, bytes);
            let advances = chunk_in_range(s, addr as int, len) && s.active && addr + len
                <= s.next_write && addr == s.next_verify;
            let status = if !chunk_in_range(s, addr as int, len) {
                M0_ROM_STATUS_ARG
            } else if !s.active {
                M0_ROM_STATUS_RX
            } else if addr + len > s.next_write {
                M0_ROM_STATUS_RX
            } else if addr == s.next_verify {
                checked
            } else if addr == s.last_verify_addr && len == s.last_verify_len {
                checked
            } else {
                M0_ROM_STATUS_ARG
            };
            (
                if advances && checked == M0_ROM_STATUS_OK {
                    M0Session {
                        next_verify: (addr + len) as u32,
                        last_verify_addr: addr,
                        last_verify_len: len as u32,
                        ..s
                    }
                } else {
                    s
                },
                chunk_reply(
                    0x56,
                    status,
                    addr,
                    if status == M0_ROM_STATUS_OK {
                        len as u16
                    } else {
                        0
                    },
                ),
            )
        },
    }
}

/// A firmware kind this bridge knows how to start.
pub open spec fn known_kind(kind: u8) -> bool {
    kind == M0_FIRMWARE_KIND_LEGACY || kind == M0_FIRMWARE_KIND_ROADRUNNER
}

/// Effect of a boot request (`O`).
///
/// Only a complete session boots; a boot that starts known firmware asks for
/// the boot cycle and makes a repeated boot request answerable from the cache.
pub open spec fn boot_effect(s: M0Session, o: M0Outcomes) -> (M0Session, Seq<u8>) {
    if !session_complete(s) {
        if s.boot_retryable && o.first is Some {
            (s, status_reply(0x4f, o.first.unwrap()))
        } else {
            let st = match o.second {
                Some(x) => x,
                None => unknown_status(),
            };
            (s, status_reply(0x4f, M0FirmwareStatus { status: M0_ROM_STATUS_ARG, ..st }))
        }
    } else {
        let stopped = M0Session { boot_retryable: false, active: false, ..s };
        match o.first {
            None => (stopped, simple_reply(0x4f, M0_ROM_STATUS_ARG)),
            Some(st) => {
                let started = st.status == M0_ROM_STATUS_OK && known_kind(st.kind);
                let shown = if st.status == M0_ROM_STATUS_OK && !known_kind(st.kind) {
                    M0FirmwareStatus { status: M0_ROM_STATUS_ARG, ..st }
                } else {
                    st
                };
                (
                    if started {
                        M0Session { boot_retryable: true, boot_cycle_requested: true, ..stopped }
                    } else {
                        stopped
                    },
                    status_reply(0x4f, shown),
                )
            },
        }
    }
}

/// The response to a status query for command `cmd` from firmware status `st`.
pub open spec fn status_query_reply(cmd: u8, st: Option<M0FirmwareStatus>) -> Seq<u8> {
    match st {
        Some(x) => status_reply(cmd, x),
        None => simple_reply(cmd, M0_ROM_STATUS_ARG),
    }
}

/// Effect of an M0 request, given what the device answered.
pub open spec fn m0_effect(s: M0Session, data: Seq<u8>, o: M0Outcomes) -> (M0Session, Seq<u8>) {
    let cmd = data[7];
    if cmd == 0x53 && data.len() == 9 {
        (s, status_query_reply(0x53, o.first))
    } else if cmd == 0x43 && data.len() == 9 {
        (s, status_query_reply(0x43, o.first))
    } else if cmd == 0x46 && data.len() == 9 {
        (
            s,
            match o.info {
                Some(info) => flash_info_reply(info),
                None => simple_reply(0x46, M0_ROM_STATUS_ARG),
            },
        )
    } else if cmd == 0x42 {
        begin_effect(s, data, o)
    } else if cmd == 0x44 {
        data_effect(s, data, o)
    } else if cmd == 0x56 {
        verify_effect(s, data, o)
    } else if cmd == 0x4f && data.len() == 9 {
        boot_effect(s, o)
    } else if cmd == 0x54 && data.len() == 9 {
        (
            s,
            match o.stats {
                Some(Some(stats)) => stats_reply(stats),
                _ => simple_reply(0x54, M0_ROM_STATUS_RX),
            },
        )
    } else {
        (s, simple_reply(cmd, M0_ROM_STATUS_ARG))
    }
}

/// Every reply to an M0 request starts with the response header for the
/// request's command and ends with the SysEx terminator.
#[verifier::spinoff_prover]
#[verifier::rlimit(50)]
pub proof fn lemma_m0_reply_framed(s: M0Session, data: Seq<u8>, o: M0Outcomes)
    requires
        m0_request(data),
    ensures
        m0_effect(s, data, o).1.len() > 8,
        m0_effect(s, data, o).1.take(8) == reply_prefix(data[7]),
        m0_effect(s, data, o).1.last() == 0xf7,
{
    let r = m0_effect(s, data, o).1;
    let c = data[7];
    assert(r.take(8) =~= reply_prefix(c));
}

/// A boot of a complete session whose refreshed status reports known
/// firmware running asks once for the boot animation; a boot of an
/// incomplete session changes nothing and starts nothing.
pub proof fn lemma_boot_requests_cycle(s: M0Session, o: M0Outcomes)
    ensures
        session_complete(s) && (o.first matches Some(st) && st.status == M0_ROM_STATUS_OK
            && known_kind(st.kind)) ==> boot_effect(s, o).0.boot_cycle_requested
            && boot_calls(s, o) == seq![M0Call::SetMode(2), M0Call::RefreshStatus(o.first)],
        !session_complete(s) ==> boot_effect(s, o).0 == s && !boot_calls(s, o).contains(
            M0Call::SetMode(2),
        ),
{
    if !session_complete(s) {
        let c = boot_calls(s, o);
        if c.contains(M0Call::SetMode(2)) {
            let i = choose|i: int| 0 <= i < c.len() && c[i] == M0Call::SetMode(2);
            assert(c[i] is CachedStatus);
        }
    }
}

/// A begin request that is malformed or names a range other than 1 to 32768
/// bytes at the flash base is refused with status 06, without probing the
/// ROM and without touching the session.
pub proof fn lemma_begin_refuses_bad_range(s: M0Session, data: Seq<u8>, o: M0Outcomes)
    requires
        m0_request(data),
        data[7] == 0x42,
        ({
            let base = hex_field(data, 8, 8);
            let total = hex_field(data, 16, 8);
            data.len() != 25 || base is None || total is None || base.unwrap() != M0_FLASH_BASE
                || total.unwrap() < 1 || total.unwrap() > M0_FLASH_MAX_LEN
        }),
    ensures
        m0_effect(s, data, o) == (s, simple_reply(0x42, M0_ROM_STATUS_ARG)),
        m0_calls_for(s, data, o) == Seq::<M0Call>::empty(),
{
}

/// A data request whose chunk parses: a chunk out of range gets status 06
/// and one with no session open gets 05, neither writing anything; the
/// chunk is written only at the next write address, and a successful write
/// there is the only thing that moves the session on, by the chunk's
/// length. The reply carries the length only on success.
pub proof fn lemma_data_writes_only_at_next_address(
    s: M0Session,
    data: Seq<u8>,
    o: M0Outcomes,
    addr: u32,
    bytes: Seq<u8>,
)
    requires
        m0_request(data),
        data[7] == 0x44,
        chunk_fields(data) == Some((addr, bytes)),
    ensures
        !chunk_in_range(s, addr as int, bytes.len() as int) ==> m0_effect(s, data, o) == (
            s,
            chunk_reply(0x44, M0_ROM_STATUS_ARG, addr, 0),
        ) && m0_calls_for(s, data, o) == Seq::<M0Call>::empty(),
        chunk_in_range(s, addr as int, bytes.len() as int) && !s.active ==> m0_effect(s, data, o)
            == (s, chunk_reply(0x44, M0_ROM_STATUS_RX, addr, 0)) && m0_calls_for(s, data, o)
            == Seq::<M0Call>::empty(),
        (m0_calls_for(s, data, o) == seq![M0Call::RomWrite(addr, bytes, o.status)]) <==> (
        chunk_in_range(s, addr as int, bytes.len() as int) && s.active && addr == s.next_write),
        chunk_in_range(s, addr as int, bytes.len() as int) && s.active && addr == s.next_write
            ==> m0_effect(s, data, o).1 == chunk_reply(
            0x44,
            o.status,
            addr,
            if o.status == M0_ROM_STATUS_OK {
                bytes.len() as u16
            } else {
                0
            },
        ),
        m0_effect(s, data, o).0 != s ==> chunk_in_range(s, addr as int, bytes.len() as int)
            && s.active && addr == s.next_write && o.status == M0_ROM_STATUS_OK
            && m0_effect(s, data, o).0.next_write == addr + bytes.len(),
{
    let c = m0_calls_for(s, data, o);
    let w = seq![M0Call::RomWrite(addr, bytes, o.status)];
    if c == w {
        assert(c.len() == 1 && c[0] == w[0]);
    }
}

/// A verify request for a chunk in the range of an open session: a chunk
/// that reaches past what was written gets status 05 with nothing read and
/// nothing changed; one at the next verify address is read back, succeeds
/// exactly when the device read it back unchanged, and only then moves the
/// verify address past it.
pub proof fn lemma_verify_checks_written_bytes(
    s: M0Session,
    data: Seq<u8>,
    o: M0Outcomes,
    addr: u32,
    bytes: Seq<u8>,
)
    requires
        m0_request(data),
        data[7] == 0x56,
        chunk_fields(data) == Some((addr, bytes)),
        chunk_in_range(s, addr as int, bytes.len() as int),
        s.active,
    ensures
        addr + bytes.len() > s.next_write ==> m0_effect(s, data, o) == (
            s,
            chunk_reply(0x56, M0_ROM_STATUS_RX, addr, 0),
        ) && m0_calls_for(s, data, o) == Seq::<M0Call>::empty(),
        addr + bytes.len() <= s.next_write && addr == s.next_verify ==> ({
            let ok = o.read.0 == M0_ROM_STATUS_OK && o.read.1 == bytes;
            &&& m0_calls_for(s, data, o) == seq![
                M0Call::RomRead(addr, bytes.len(), o.read.0, o.read.1),
            ]
            &&& (verify_status(o.read.0, o.read.1, bytes) == M0_ROM_STATUS_OK) == ok
            &&& m0_effect(s, data, o).1 == chunk_reply(
                0x56,
                verify_status(o.read.0, o.read.1, bytes),
                addr,
                if ok {
                    bytes.len() as u16
                } else {
                    0
                },
            )
            &&& m0_effect(s, data, o).0.next_verify == (if ok {
                addr + bytes.len()
            } else {
                s.next_verify as int
            })
            &&& m0_effect(s, data, o).0.next_write == s.next_write
        }),
{
}

/// A boot request on a session that is not complete starts nothing and
/// changes nothing: it only asks for cached statuses, and answers status 06,
/// except after a boot that started firmware, which is answered again with
/// the cached status.
pub proof fn lemma_boot_refused_until_complete(s: M0Session, data: Seq<u8>, o: M0Outcomes)
    requires
        m0_request(data),
        data[7] == 0x4f,
        data.len() == 9,
        !session_complete(s),
    ensures
        m0_effect(s, data, o).0 == s,
        forall|i: int|
            0 <= i < m0_calls_for(s, data, o).len() ==> #[trigger] m0_calls_for(
                s,
                data,
                o,
            )[i] is CachedStatus,
        s.boot_retryable && o.first is Some ==> m0_effect(s, data, o).1 == status_reply(
            0x4f,
            o.first.unwrap(),
        ),
        !(s.boot_retryable && o.first is Some) ==> m0_effect(s, data, o).1 == status_reply(
            0x4f,
            M0FirmwareStatus {
                status: M0_ROM_STATUS_ARG,
                ..match o.second {
                    Some(x) => x,
                    None => unknown_status(),
                }
            },
        ),
{
}

/// Outcomes with only the probe or write status known.
pub open spec fn with_status(status: u8) -> M0Outcomes {
    M0Outcomes {
        status,
        read: arbitrary(),
        first: arbitrary(),
        second: arbitrary(),
        info: arbitrary(),
        stats: arbitrary(),
    }
}

/// Outcomes with only a read-back known.
pub open spec fn with_read(status: u8, read: (u8, Seq<u8>)) -> M0Outcomes {
    M0Outcomes {
        status,
        read,
        first: arbitrary(),
        second: arbitrary(),
        info: arbitrary(),
        stats: arbitrary(),
    }
}

/// Outcomes with only the firmware statuses known.
pub open spec fn with_statuses(
    first: Option<M0FirmwareStatus>,
    second: Option<M0FirmwareStatus>,
) -> M0Outcomes {
    M0Outcomes {
        status: arbitrary(),
        read: arbitrary(),
        first,
        second,
        info: arbitrary(),
        stats: arbitrary(),
    }
}

/// The calls of a flash begin request: the ROM is probed only for a valid
/// range.
pub open spec fn begin_calls(data: Seq<u8>, o: M0Outcomes) -> Seq<M0Call> {
    let base = hex_field(data, 8, 8);
    let total = hex_field(data, 16, 8);
    if data.len() != 25 || base is None || total is None || base.unwrap() != M0_FLASH_BASE
        || total.unwrap() < 1 || total.unwrap() > M0_FLASH_MAX_LEN {
        Seq::empty()
    } else {
        seq![M0Call::ForceRomProbe(o.status)]
    }
}

/// The calls of a flash data request: a chunk is written only at the next
/// write address, and a repeat of the last written chunk is read back.
pub open spec fn data_calls(s: M0Session, data: Seq<u8>, o: M0Outcomes) -> Seq<M0Call> {
    match chunk_fields(data) {
        None => Seq::empty(),
        Some((addr, bytes)) => {
            let len = bytes.len() as int;
            if !chunk_in_range(s, addr as int, len) || !s.active {
                Seq::empty()
            } else if addr == s.next_write {
                seq![M0Call::RomWrite(addr, bytes, o.status)]
            } else if addr == s.last_write_addr && len == s.last_write_len {
                seq![M0Call::RomRead(addr, len as nat, o.read.0, o.read.1)]
            } else {
                Seq::empty()
            }
        },
    }
}

/// The calls of a flash verify request: a written chunk at the next verify
/// address, or a repeat of the last verified one, is read back.
pub open spec fn verify_calls(s: M0Session, data: Seq<u8>, o: M0Outcomes) -> Seq<M0Call> {
    match chunk_fields(data) {
        None => Seq::empty(),
        Some((addr, bytes)) => {
            let len = bytes.len() as int;
            if !chunk_in_range(s, addr as int, len) || !s.active || addr + len > s.next_write {
                Seq::empty()
            } else if addr == s.next_verify || (addr == s.last_verify_addr && len
                == s.last_verify_len) {
                seq![M0Call::RomRead(addr, len as nat, o.read.0, o.read.1)]
            } else {
                Seq::empty()
            }
        },
    }
}

/// The calls of a boot request: an incomplete session only asks for the
/// cached status (first the one a retryable boot answers with); a complete
/// one starts the firmware and refreshes the status.
pub open spec fn boot_calls(s: M0Session, o: M0Outcomes) -> Seq<M0Call> {
    if !session_complete(s) {
        if s.boot_retryable {
            seq![M0Call::CachedStatus(o.first)] + if o.first is Some {
                Seq::<M0Call>::empty()
            } else {
                seq![M0Call::CachedStatus(o.second)]
            }
        } else {
            seq![M0Call::CachedStatus(o.second)]
        }
    } else {
        seq![M0Call::SetMode(2), M0Call::RefreshStatus(o.first)]
    }
}

/// The calls an M0 request makes of the device, given what it answered.
pub open spec fn m0_calls_for(s: M0Session, data: Seq<u8>, o: M0Outcomes) -> Seq<M0Call> {
    let cmd = data[7];
    if cmd == 0x53 && data.len() == 9 {
        seq![M0Call::RefreshStatus(o.first)]
    } else if cmd == 0x43 && data.len() == 9 {
        seq![M0Call::CachedStatus(o.first)]
    } else if cmd == 0x46 && data.len() == 9 {
        seq![M0Call::FlashInfo(o.info)]
    } else if cmd == 0x42 {
        begin_calls(data, o)
    } else if cmd == 0x44 {
        data_calls(s, data, o)
    } else if cmd == 0x56 {
        verify_calls(s, data, o)
    } else if cmd == 0x4f && data.len() == 9 {
        boot_calls(s, o)
    } else if cmd == 0x54 && data.len() == 9 {
        seq![M0Call::Stats(o.stats)]
    } else {
        Seq::empty()
    }
}

fn starts_with_m0_header(data: &[u8]) -> (r: bool)
    requires
        data.len() >= 6,
    ensures
        r == (data@.take(6) == novation_header()),
{
    let r = data[0] == 0xf0 && data[1] == 0x00 && data[2] == 0x20 && data[3] == 0x29 && data[4]
        == 0x02 && data[5] == 0x0e;
    proof {
        if r {
            assert(data@.take(6) == novation_header());
        } else {
            assert(!(data@.take(6) =~= novation_header()) ==> data@.take(6) != novation_header());
            if data@.take(6) == novation_header() {
                assert(data@.take(6)[0] == 0xf0 && data@.take(6)[5] == 0x0e);
            }
        }
    }
    r
}

/// `len` bytes at `addr` lie within the session's range.
fn flash_chunk_in_range(s: &M0Session, addr: u32, len: usize) -> (r: bool)
    ensures
        r == chunk_in_range(*s, addr as int, len as int),
{
    if len == 0 || len > M0_FLASH_CHUNK_LEN {
        return false;
    }
    let end = match s.base_addr.checked_add(s.total_len) {
        Some(e) => e,
        None => return false,
    };
    let room: u32 = if end >= addr {
        end - addr
    } else {
        0
    };
    addr >= s.base_addr && (len as u32) <= room
}

/// Every byte of the session was written and verified.
fn flash_session_complete(s: &M0Session) -> (r: bool)
    ensures
        r == session_complete(*s),
{
    if !s.active {
        return false;
    }
    let end = match s.base_addr.checked_add(s.total_len) {
        Some(e) => e,
        None => return false,
    };
    s.next_write == end && s.next_verify == end
}

/// Compares a read-back with the expected bytes.
fn check_readback(read_status: u8, readback: &Vec<u8>, expected: &Vec<u8>) -> (r: u8)
    ensures
        r == verify_status(read_status, readback@, expected@),
{
    if read_status != M0_ROM_STATUS_OK {
        return read_status;
    }
    if readback.len() != expected.len() {
        return M0_ROM_STATUS_ARG;
    }
    let mut i: usize = 0;
    while i < readback.len()
        invariant
            read_status == M0_ROM_STATUS_OK,
            readback@.len() == expected@.len(),
            i <= readback@.len(),
            forall|k: int| 0 <= k < i ==> readback@[k] == expected@[k],
        decreases readback.len() - i,
    {
        if readback[i] != expected[i] {
            assert(readback@[i as int] != expected@[i as int]);
            return M0_ROM_STATUS_ARG;
        }
        i += 1;
    }
    assert(readback@ == expected@);
    M0_ROM_STATUS_OK
}

/// Reads back a chunk and compares it with the chunk's bytes.
fn verify_chunk_bytes<D: M0Driver>(driver: &mut D, chunk: &FlashChunk) -> (r: (
    u8,
    Ghost<(u8, Seq<u8>)>,
))
    ensures
        r.0 == verify_status(r.1@.0, r.1@.1, chunk.data@),
        final(driver).m0_calls() == old(driver).m0_calls().push(
            M0Call::RomRead(chunk.addr, chunk.data@.len(), r.1@.0, r.1@.1),
        ),
{
    let (status, readback) = driver.m0_rom_read(chunk.addr, chunk.data.len());
    let r = check_readback(status, &readback, &chunk.data);
    (r, Ghost((status, readback@)))
}

/// The flash session and its M0 bridge protocol.
impl M0Session {
    fn handle_flash_begin<D: M0Driver>(&mut self, driver: &mut D, data: &[u8]) -> (r: (
        Vec<u8>,
        Ghost<M0Outcomes>,
    ))
        requires
            old(self).wf(),
        ensures
            (*final(self), r.0@) == begin_effect(*old(self), data@, r.1@),
            final(self).wf(),
            final(driver).m0_calls() == old(driver).m0_calls() + begin_calls(data@, r.1@),
    {
        let arg = simple_response(0x42, M0_ROM_STATUS_ARG);
        if data.len() != 25 {
            return (arg, Ghost(with_status(0)));
        }
        let base_addr = match parse_hex(data, 8, 8) {
            Some(v) => v,
            None => return (arg, Ghost(with_status(0))),
        };
        let total_len = match parse_hex(data, 16, 8) {
            Some(v) => v,
            None => return (arg, Ghost(with_status(0))),
        };
        if base_addr != M0_FLASH_BASE || total_len < 1 || total_len > M0_FLASH_MAX_LEN {
            return (arg, Ghost(with_status(0)));
        }
        self.active = false;
        self.boot_retryable = false;
        self.boot_cycle_requested = false;
        let status = driver.m0_force_rom_probe();
        if status == M0_ROM_STATUS_OK {
            self.base_addr = base_addr;
            self.total_len = total_len;
            self.next_write = base_addr;
            self.next_verify = base_addr;
            self.last_write_addr = 0;
            self.last_write_len = 0;
            self.last_verify_addr = 0;
            self.last_verify_len = 0;
            self.active = true;
        }
        (simple_response(0x42, status), Ghost(with_status(status)))
    }

    fn handle_flash_data<D: M0Driver>(&mut self, driver: &mut D, data: &[u8]) -> (r: (
        Vec<u8>,
        Ghost<M0Outcomes>,
    ))
        requires
            old(self).wf(),
        ensures
            (*final(self), r.0@) == data_effect(*old(self), data@, r.1@),
            final(self).wf(),
            final(driver).m0_calls() == old(driver).m0_calls() + data_calls(*old(self), data@, r.1@),
    {
        let chunk = match parse_chunk(data) {
            Some(c) => c,
            None => return (chunk_response(0x44, M0_ROM_STATUS_ARG, 0, 0), Ghost(with_status(0))),
        };
        let len = chunk.data.len();
        let ghost mut o = with_status(0);
        let status = if !flash_chunk_in_range(self, chunk.addr, len) {
            M0_ROM_STATUS_ARG
        } else if !self.active {
            M0_ROM_STATUS_RX
        } else if chunk.addr == self.next_write {
            let status = driver.m0_rom_write(chunk.addr, chunk.data.as_slice());
            proof {
                o = with_status(status);
            }
            if status == M0_ROM_STATUS_OK {
                self.next_write = chunk.addr + len as u32;
                self.last_write_addr = chunk.addr;
                self.last_write_len = len as u32;
            }
            status
        } else if chunk.addr == self.last_write_addr && len as u32 == self.last_write_len {
            let (status, read) = verify_chunk_bytes(driver, &chunk);
            proof {
                o = with_read(1, read@);
            }
            status
        } else {
            M0_ROM_STATUS_ARG
        };
        let shown: u16 = if status == M0_ROM_STATUS_OK {
            len as u16
        } else {
            0
        };
        (chunk_response(0x44, status, chunk.addr, shown), Ghost(o))
    }

    fn handle_flash_verify<D: M0Driver>(&mut self, driver: &mut D, data: &[u8]) -> (r: (
        Vec<u8>,
        Ghost<M0Outcomes>,
    ))
        requires
            old(self).wf(),
        ensures
            (*final(self), r.0@) == verify_effect(*old(self), data@, r.1@),
            final(self).wf(),
            final(driver).m0_calls() == old(driver).m0_calls() + verify_calls(*old(self), data@, r.1@),
    {
        let chunk = match parse_chunk(data) {
            Some(c) => c,
            None => return (chunk_response(0x56, M0_ROM_STATUS_ARG, 0, 0), Ghost(with_status(0))),
        };
        let len = chunk.data.len();
        let ghost mut o = with_read(0, (1, Seq::empty()));
        let status = if !flash_chunk_in_range(self, chunk.addr, len) {
            M0_ROM_STATUS_ARG
        } else if !self.active {
            M0_ROM_STATUS_RX
        } else {
            let chunk_end = chunk.addr + len as u32;
            if chunk_end > self.next_write {
                M0_ROM_STATUS_RX
            } else if chunk.addr == self.next_verify {
                let (status, read) = verify_chunk_bytes(driver, &chunk);
                proof {
                    o = with_read(0, read@);
                }
                if status == M0_ROM_STATUS_OK {
                    self.next_verify = chunk_end;
                    self.last_verify_addr = chunk.addr;
                    self.last_verify_len = len as u32;
                }
                status
            } else if chunk.addr == self.last_verify_addr && len as u32 == self.last_verify_len {
                let (status, read) = verify_chunk_bytes(driver, &chunk);
                proof {
                    o = with_read(0, read@);
                }
                status
            } else {
                M0_ROM_STATUS_ARG
            }
        };
        let shown: u16 = if status == M0_ROM_STATUS_OK {
            len as u16
        } else {
            0
        };
        (chunk_response(0x56, status, chunk.addr, shown), Ghost(o))
    }

    fn handle_boot<D: M0Driver>(&mut self, driver: &mut D) -> (r: (Vec<u8>, Ghost<M0Outcomes>))
        requires
            old(self).wf(),
        ensures
            (*final(self), r.0@) == boot_effect(*old(self), r.1@),
            final(self).wf(),
            final(driver).m0_calls() == old(driver).m0_calls() + boot_calls(*old(self), r.1@),
    {
        if !flash_session_complete(self) {
            if self.boot_retryable {
                let cached = driver.cached_m0_firmware_status();
                if let Some(status) = cached {
                    return (status_response(0x4f, &status), Ghost(with_statuses(cached, None)));
                }
            }
            let second = driver.cached_m0_firmware_status();
            let mut status = match second {
                Some(st) => st,
                None => M0FirmwareStatus::unknown(),
            };
            status.status = M0_ROM_STATUS_ARG;
            return (status_response(0x4f, &status), Ghost(with_statuses(None, second)));
        }
        self.boot_retryable = false;
        self.active = false;
        driver.m0_set_mode(2);
        let refreshed = driver.refresh_m0_firmware_status();
        match refreshed {
            Some(status) => {
                let known = status.kind == M0_FIRMWARE_KIND_LEGACY || status.kind
                    == M0_FIRMWARE_KIND_ROADRUNNER;
                let started = status.status == M0_ROM_STATUS_OK && known;
                let mut response = status;
                if response.status == M0_ROM_STATUS_OK && !known {
                    response.status = M0_ROM_STATUS_ARG;
                }
                let reply = status_response(0x4f, &response);
                if started {
                    self.boot_retryable = true;
                    self.boot_cycle_requested = true;
                }
                (reply, Ghost(with_statuses(refreshed, None)))
            },
            None => (
                simple_response(0x4f, M0_ROM_STATUS_ARG),
                Ghost(with_statuses(refreshed, None)),
            ),
        }
    }

    /// Handles an M0 bridge request (`F0 00 20 29 02 0E 70 <cmd> ... F7`).
    ///
    /// `None` when `data` is not such a request; the session is then left as
    /// it was. Otherwise the response to send back on `port`: the session and
    /// response are those of `m0_effect` for what the device answered.
    pub fn execute<D: M0Driver>(
        &mut self,
        driver: &mut D,
        app: AppId,
        port: MidiPort,
        data: &[u8],
    ) -> (r: Option<Vec<u8>>)
        requires
            old(self).wf(),
        ensures
            final(self).wf(),
            r is None <==> !m0_request(data@),
            r is None ==> *final(self) == *old(self) && final(driver).m0_calls() == old(
                driver,
            ).m0_calls(),
            r matches Some(reply) ==> exists|o: M0Outcomes|
                (*final(self), reply@) == #[trigger] m0_effect(*old(self), data@, o)
                    && final(driver).m0_calls() == old(driver).m0_calls() + m0_calls_for(
                    *old(self),
                    data@,
                    o,
                ),
            r matches Some(reply) ==> reply@.len() > 8 && reply@.take(8) == reply_prefix(data@[7])
                && reply@.last() == 0xf7,
    {
        if data.len() < 8 || data[data.len() - 1] != 0xf7 {
            return None;
        }
        if !starts_with_m0_header(data) || data[6] != M0_REQ_CMD {
            return None;
        }
        let cmd = data[7];
        let short = data.len() == 9;
        let (reply, o) = if cmd == 0x53 && short {
            let st = driver.refresh_m0_firmware_status();
            let reply = match st {
                Some(x) => status_response(0x53, &x),
                None => simple_response(0x53, M0_ROM_STATUS_ARG),
            };
            (reply, Ghost(with_statuses(st, None)))
        } else if cmd == 0x43 && short {
            let st = driver.cached_m0_firmware_status();
            let reply = match st {
                Some(x) => status_response(0x43, &x),
                None => simple_response(0x43, M0_ROM_STATUS_ARG),
            };
            (reply, Ghost(with_statuses(st, None)))
        } else if cmd == 0x46 && short {
            let info = driver.flash_info();
            let reply = match info {
                Some(x) => flash_info_response(&x),
                None => simple_response(0x46, M0_ROM_STATUS_ARG),
            };
            (
                reply,
                Ghost(
                    M0Outcomes {
                        status: arbitrary(),
                        read: arbitrary(),
                        first: arbitrary(),
                        second: arbitrary(),
                        info,
                        stats: arbitrary(),
                    },
                ),
            )
        } else if cmd == 0x42 {
            self.handle_flash_begin(driver, data)
        } else if cmd == 0x44 {
            self.handle_flash_data(driver, data)
        } else if cmd == 0x56 {
            self.handle_flash_verify(driver, data)
        } else if cmd == 0x4f && short {
            self.handle_boot(driver)
        } else if cmd == 0x54 && short {
            let stats = driver.roadrunner_stats();
            let reply = match stats {
                Some(Some(x)) => stats_response(&x),
                _ => simple_response(0x54, M0_ROM_STATUS_RX),
            };
            (
                reply,
                Ghost(
                    M0Outcomes {
                        status: arbitrary(),
                        read: arbitrary(),
                        first: arbitrary(),
                        second: arbitrary(),
                        info: arbitrary(),
                        stats,
                    },
                ),
            )
        } else {
            (simple_response(cmd, M0_ROM_STATUS_ARG), Ghost(with_status(0)))
        };
        proof {
            assert((*self, reply@) == m0_effect(*old(self), data@, o@));
            assert(driver.m0_calls() =~= old(driver).m0_calls() + m0_calls_for(*old(self), data@, o@));
            lemma_m0_reply_framed(*old(self), data@, o@);
        }
        Some(reply)
    }

    /// Takes the boot-cycle request a successful boot left behind.
    pub fn take_requested_app_switch(&mut self) -> (r: Option<AppId>)
        ensures
            r == (if old(self).boot_cycle_requested {
                Some(AppId::Boot)
            } else {
                None
            }),
            *final(self) == (M0Session { boot_cycle_requested: false, ..*old(self) }),
    {
        let requested = self.boot_cycle_requested;
        self.boot_cycle_requested = false;
        if requested {
            Some(AppId::Boot)
        } else {
            None
        }
    }
}

} // verus!
