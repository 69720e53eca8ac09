//! Scan scheduling of the Launchpad X: which LED row and PWM phase each of
//! the 96 slots of a frame drives, which ADC bank it captures, and how long
//! each phase lasts at a brightness level.
//!
//! The GPIO, SPI and timer work stays with the caller, which performs the
//! plan each function returns.

use vstd::prelude::*;

verus! {

/// LED row driven in each slot.
pub const SCAN_ROW_LUT: [u8; 96] = [
    0, 1, 2, 3, 0, 1, 2, 3, 0, 1, 2, 3, 0, 1, 2, 3, 0, 1, 2, 3, 0, 1, 2, 3, 3, 0, 1, 2, 3, 0, 1, 2,
    3, 0, 1, 2, 3, 0, 1, 2, 3, 0, 1, 2, 3, 0, 1, 2, 2, 3, 0, 1, 2, 3, 0, 1, 2, 3, 0, 1, 2, 3, 0, 1,
    2, 3, 0, 1, 2, 3, 0, 1, 1, 2, 3, 0, 1, 2, 3, 0, 1, 2, 3, 0, 1, 2, 3, 0, 1, 2, 3, 0, 1, 2, 3, 0,
];

/// PWM phase driven in each slot.
pub const SCAN_PHASE_LUT: [u8; 96] = [
    0, 3, 2, 4, 5, 0, 3, 2, 1, 5, 0, 3, 4, 1, 5, 0, 2, 4, 1, 5, 3, 2, 4, 1, 4, 0, 3, 2, 2, 5, 0, 3,
    3, 1, 5, 0, 0, 4, 1, 5, 5, 2, 4, 1, 1, 3, 2, 4, 2, 4, 0, 3, 3, 2, 5, 0, 0, 3, 1, 5, 5, 0, 4, 1,
    1, 5, 2, 4, 4, 1, 3, 2, 3, 2, 4, 0, 0, 3, 2, 5, 5, 0, 3, 1, 1, 5, 0, 4, 4, 1, 5, 2, 2, 4, 1, 3,
];

/// Length of the prepare phase at each of the nine brightness steps, in microseconds.
pub const BRIGHTNESS_BASE_LUT: [u64; 9] = [0x77, 0x6d, 0x62, 0x58, 0x4d, 0x43, 0x38, 0x2d, 0x22];

/// Length of each PWM phase at each brightness step, in microseconds.
pub const BRIGHTNESS_PHASE_LUT: [[u64; 6]; 9] = [
    [0x0005, 0x0008, 0x000e, 0x001a, 0x0032, 0x0062],
    [0x0006, 0x000a, 0x0012, 0x0022, 0x0042, 0x0082],
    [0x0007, 0x000c, 0x0016, 0x002a, 0x0052, 0x00a2],
    [0x0008, 0x000e, 0x001a, 0x0032, 0x0062, 0x00c2],
    [0x0009, 0x0010, 0x001e, 0x003a, 0x0072, 0x00e2],
    [0x000a, 0x0012, 0x0022, 0x0042, 0x0082, 0x0102],
    [0x000b, 0x0014, 0x0026, 0x004a, 0x0092, 0x0122],
    [0x000c, 0x0016, 0x002a, 0x0052, 0x00a2, 0x0142],
    [0x000d, 0x0018, 0x002e, 0x005a, 0x00b2, 0x0162],
];

/// GPIO mask of each LED row.
pub const ROW_MASK: [u16; 4] = [1, 2, 4, 1024];

/// The row-flipped LED index: row `r` of ten becomes row `9 - r`.
pub fn flip_index(index: u8) -> (r: u8)
    requires
        index < 100,
    ensures
        r == index % 10 + (9 - index / 10) * 10,
{
    (index % 10) + (9 - (index / 10)) * 10
}

/// Brightness step 0 to 8 of a brightness level (levels above 8 count as 8).
pub open spec fn brightness_step(brightness: u8) -> int {
    let level = if brightness < 8 { brightness as int } else { 8 };
    let raw = level * 255 / 8;
    (9 * raw) / 256
}

/// Brightness step 0 to 8 of a brightness level.
pub fn brightness_index(brightness: u8) -> (r: usize)
    ensures
        r == brightness_step(brightness),
        r <= 8,
{
    let level: u16 = if brightness < 8 {
        brightness as u16
    } else {
        8
    };
    let raw: u16 = level * 255 / 8;
    let scaled: u16 = 9 * raw;
    assert(scaled >> 8u16 == scaled / 256) by (bit_vector);
    (scaled >> 8) as usize
}

/// How long the prepare phase lasts at a brightness level.
pub fn prepare_delay_us(brightness: u8) -> (r: u64)
    ensures
        r == BRIGHTNESS_BASE_LUT@[brightness_step(brightness)],
{
    BRIGHTNESS_BASE_LUT[brightness_index(brightness)]
}

/// How long the drive phase of slot `scan_slot` lasts at a brightness level.
pub fn drive_delay_us(brightness: u8, scan_slot: u8) -> (r: u64)
    requires
        scan_slot < 96,
    ensures
        r == BRIGHTNESS_PHASE_LUT@[brightness_step(brightness)]@[SCAN_PHASE_LUT@[scan_slot as int] as int],
{
    let phase = SCAN_PHASE_LUT[scan_slot as usize] as usize;
    assert(phase < 6) by {
        assert(forall|k: int| 0 <= k < 96 ==> SCAN_PHASE_LUT@[k] < 6);
    }
    BRIGHTNESS_PHASE_LUT[brightness_index(brightness)][phase]
}

/// What the prepare phase of a slot does: send the LED bytes `start` to
/// `start + 8` of phase `phase`, take the side sample of `capture_row` in
/// `group`, select ADC bank `mux_bank` and start capturing it.
#[derive(Clone, Copy, Debug, PartialEq, Eq, Structural)]
pub struct PreparePlan {
    pub phase: u8,
    pub start: usize,
    pub group: u8,
    pub capture_row: u8,
    pub mux_bank: u8,
}

/// The scan position: the slot in the frame, the next and the active ADC
/// bank, and the bank whose capture is still to be finished.
pub struct ScanState {
    pub scan_slot: u8,
    pub mux_bank: u8,
    pub active_mux_bank: u8,
    pub pressure_pending_bank: u8,
    pub pressure_pending_valid: bool,
}

impl ScanState {
    /// The slot is within the frame and the bank within the eight.
    pub open spec fn wf(self) -> bool {
        self.scan_slot < 96 && self.mux_bank < 8
    }

    /// The first slot of a frame, bank 0, nothing pending.
    pub fn new() -> (r: ScanState)
        ensures
            r.wf(),
            r.scan_slot == 0 && r.mux_bank == 0 && r.active_mux_bank == 0,
            r.pressure_pending_bank == 0 && !r.pressure_pending_valid,
    {
        ScanState {
            scan_slot: 0,
            mux_bank: 0,
            active_mux_bank: 0,
            pressure_pending_bank: 0,
            pressure_pending_valid: false,
        }
    }

    /// The plan of the prepare phase; the bank it selects becomes the active
    /// one and the next bank follows it.
    pub fn prepare_phase(&mut self) -> (r: PreparePlan)
        requires
            old(self).wf(),
        ensures
            final(self).wf(),
            ({
                let slot = old(self).scan_slot as int;
                let prev = (slot + 95) % 96;
                &&& r.phase == SCAN_PHASE_LUT@[slot]
                &&& r.start == SCAN_ROW_LUT@[slot] * 8
                &&& r.group == (prev / 4) % 4
                &&& r.capture_row == SCAN_ROW_LUT@[prev]
                &&& r.mux_bank == old(self).mux_bank
            }),
            final(self).active_mux_bank == old(self).mux_bank,
            final(self).mux_bank == (old(self).mux_bank + 1) % 8,
            final(self).scan_slot == old(self).scan_slot,
            final(self).pressure_pending_bank == old(self).pressure_pending_bank,
            final(self).pressure_pending_valid == old(self).pressure_pending_valid,
    {
        let slot = self.scan_slot as usize;
        let row = SCAN_ROW_LUT[slot] as usize;
        let phase = SCAN_PHASE_LUT[slot];
        let prev_slot = (slot + 96 - 1) % 96;
        assert(((prev_slot >> 2usize) & 3) == (prev_slot / 4) % 4) by (bit_vector);
        let group = ((prev_slot >> 2) & 0x03) as u8;
        let capture_row = SCAN_ROW_LUT[prev_slot];
        let mux_bank = self.mux_bank;
        self.active_mux_bank = mux_bank;
        let next: u8 = mux_bank + 1;
        assert(next & 7 == next % 8) by (bit_vector);
        self.mux_bank = next & 0x07;
        assert(row < 4) by {
            assert(forall|k: int| 0 <= k < 96 ==> SCAN_ROW_LUT@[k] < 4);
        }
        PreparePlan { phase, start: row * 8, group, capture_row, mux_bank }
    }

    /// The drive phase: the row mask to drive and the phase bit to compare the
    /// overlay colours with; the active bank's capture becomes pending.
    pub fn drive_phase(&mut self) -> (r: (u16, u8))
        requires
            old(self).wf(),
        ensures
            final(self).wf(),
            r.0 == ROW_MASK@[SCAN_ROW_LUT@[old(self).scan_slot as int] as int],
            r.1 == 1u8 << SCAN_PHASE_LUT@[old(self).scan_slot as int],
            final(self).pressure_pending_bank == old(self).active_mux_bank,
            final(self).pressure_pending_valid,
            final(self).scan_slot == old(self).scan_slot,
            final(self).mux_bank == old(self).mux_bank,
            final(self).active_mux_bank == old(self).active_mux_bank,
    {
        let slot = self.scan_slot as usize;
        let row = SCAN_ROW_LUT[slot] as usize;
        let phase = SCAN_PHASE_LUT[slot];
        assert(row < 4) by {
            assert(forall|k: int| 0 <= k < 96 ==> SCAN_ROW_LUT@[k] < 4);
        }
        assert(phase < 6) by {
            assert(forall|k: int| 0 <= k < 96 ==> SCAN_PHASE_LUT@[k] < 6);
        }
        self.pressure_pending_bank = self.active_mux_bank;
        self.pressure_pending_valid = true;
        (ROW_MASK[row], 1u8 << phase)
    }

    /// Moves to the next slot, back to the first after the last.
    pub fn advance_slot(&mut self)
        requires
            old(self).wf(),
        ensures
            final(self).wf(),
            final(self).scan_slot == (old(self).scan_slot + 1) % 96,
            final(self).mux_bank == old(self).mux_bank,
            final(self).active_mux_bank == old(self).active_mux_bank,
            final(self).pressure_pending_bank == old(self).pressure_pending_bank,
            final(self).pressure_pending_valid == old(self).pressure_pending_valid,
    {
        self.scan_slot += 1;
        if self.scan_slot as usize >= 96 {
            self.scan_slot = 0;
        }
    }

    /// A frame is complete when the scan is back at its first slot.
    pub fn frame_complete(&self) -> (r: bool)
        ensures
            r == (self.scan_slot == 0),
    {
        self.scan_slot == 0
    }
}

/// The side-button sample of a port C input reading: inputs 0 to 3 each
/// set one nibble of the sample, input 0 the lowest.
pub open spec fn side_sample(idr: u32) -> u16 {
    (if idr & 1 != 0 { 0x0001u16 } else { 0u16 }) | (if idr & 2 != 0 { 0x0010u16 } else { 0u16 }) | (
    if idr & 4 != 0 { 0x0100u16 } else { 0u16 }) | (if idr & 8 != 0 { 0x1000u16 } else { 0u16 })
}

/// The side-button sample of a port C input reading.
pub fn side_sample_from_idr(idr: u32) -> (r: u16)
    ensures
        r == side_sample(idr),
{
    let in0: u16 = if idr & 1 != 0 { 0x0001 } else { 0 };
    let in1: u16 = if idr & 2 != 0 { 0x0010 } else { 0 };
    let in2: u16 = if idr & 4 != 0 { 0x0100 } else { 0 };
    let in3: u16 = if idr & 8 != 0 { 0x1000 } else { 0 };
    in0 | in1 | in2 | in3
}

} // verus!
