//! The Mystrix Pro's input surface: pressure-sensing pads, the touch bar and
//! the function button, turned into surface and aftertouch events.
//!
//! The ADC, row drivers and touch shift register are driven by the caller,
//! which hands each reading to the functions here.

use vstd::prelude::*;
use super::board::{BoardConfig, LED_COUNT};

verus! {

/// An input event: a press or release with its value, or a new pressure.
#[derive(Clone, Copy, Debug, PartialEq, Eq, Structural)]
pub enum HardwareEvent {
    Surface { pressed: bool, index: u8, value: u8 },
    Aftertouch { index: u8, value: u8 },
}

/// Logical (10x10 Launchpad Pro) id of each LED of the physical chain: the
/// grid rows from the top, then the right, top, left and bottom edges.
pub const PHYSICAL_TO_LOGICAL: [u8; 96] = [
    81, 82, 83, 84, 85, 86, 87, 88, 71, 72, 73, 74, 75, 76, 77, 78,
    61, 62, 63, 64, 65, 66, 67, 68, 51, 52, 53, 54, 55, 56, 57, 58,
    41, 42, 43, 44, 45, 46, 47, 48, 31, 32, 33, 34, 35, 36, 37, 38,
    21, 22, 23, 24, 25, 26, 27, 28, 11, 12, 13, 14, 15, 16, 17, 18,
    19, 29, 39, 49, 59, 69, 79, 89, 98, 97, 96, 95, 94, 93, 92, 91,
    80, 70, 60, 50, 40, 30, 20, 10, 1, 2, 3, 4, 5, 6, 7, 8,
];

/// The logical id of chain position `i`: the grid rows from the top, then
/// the right edge upwards, the top edge leftwards, the left edge downwards
/// and the bottom edge rightwards.
pub open spec fn chain_id(i: int) -> int {
    if i < 64 {
        (8 - i / 8) * 10 + i % 8 + 1
    } else if i < 72 {
        (i - 63) * 10 + 9
    } else if i < 80 {
        98 - (i - 72)
    } else if i < 88 {
        (88 - i) * 10
    } else {
        i - 87
    }
}

/// The chain position of a logical id given by `chain_id`.
pub open spec fn chain_pos(l: int) -> int {
    if 11 <= l <= 88 && 1 <= l % 10 <= 8 {
        (8 - l / 10) * 8 + l % 10 - 1
    } else if l % 10 == 9 && 19 <= l <= 89 {
        l / 10 + 63
    } else if 91 <= l <= 98 {
        98 - l + 72
    } else if l % 10 == 0 && 10 <= l <= 80 {
        88 - l / 10
    } else {
        l + 87
    }
}

proof fn lemma_chain_table()
    ensures
        forall|i: int| 0 <= i < LED_COUNT ==> #[trigger] PHYSICAL_TO_LOGICAL@[i] == chain_id(i),
{
    let t = PHYSICAL_TO_LOGICAL@;
    assert(t[0] == chain_id(0));
    assert(t[1] == chain_id(1));
    assert(t[2] == chain_id(2));
    assert(t[3] == chain_id(3));
    assert(t[4] == chain_id(4));
    assert(t[5] == chain_id(5));
    assert(t[6] == chain_id(6));
    assert(t[7] == chain_id(7));
    assert(t[8] == chain_id(8));
    assert(t[9] == chain_id(9));
    assert(t[10] == chain_id(10));
    assert(t[11] == chain_id(11));
    assert(t[12] == chain_id(12));
    assert(t[13] == chain_id(13));
    assert(t[14] == chain_id(14));
    assert(t[15] == chain_id(15));
    assert(t[16] == chain_id(16));
    assert(t[17] == chain_id(17));
    assert(t[18] == chain_id(18));
    assert(t[19] == chain_id(19));
    assert(t[20] == chain_id(20));
    assert(t[21] == chain_id(21));
    assert(t[22] == chain_id(22));
    assert(t[23] == chain_id(23));
    assert(t[24] == chain_id(24));
    assert(t[25] == chain_id(25));
    assert(t[26] == chain_id(26));
    assert(t[27] == chain_id(27));
    assert(t[28] == chain_id(28));
    assert(t[29] == chain_id(29));
    assert(t[30] == chain_id(30));
    assert(t[31] == chain_id(31));
    assert(t[32] == chain_id(32));
    assert(t[33] == chain_id(33));
    assert(t[34] == chain_id(34));
    assert(t[35] == chain_id(35));
    assert(t[36] == chain_id(36));
    assert(t[37] == chain_id(37));
    assert(t[38] == chain_id(38));
    assert(t[39] == chain_id(39));
    assert(t[40] == chain_id(40));
    assert(t[41] == chain_id(41));
    assert(t[42] == chain_id(42));
    assert(t[43] == chain_id(43));
    assert(t[44] == chain_id(44));
    assert(t[45] == chain_id(45));
    assert(t[46] == chain_id(46));
    assert(t[47] == chain_id(47));
    assert(t[48] == chain_id(48));
    assert(t[49] == chain_id(49));
    assert(t[50] == chain_id(50));
    assert(t[51] == chain_id(51));
    assert(t[52] == chain_id(52));
    assert(t[53] == chain_id(53));
    assert(t[54] == chain_id(54));
    assert(t[55] == chain_id(55));
    assert(t[56] == chain_id(56));
    assert(t[57] == chain_id(57));
    assert(t[58] == chain_id(58));
    assert(t[59] == chain_id(59));
    assert(t[60] == chain_id(60));
    assert(t[61] == chain_id(61));
    assert(t[62] == chain_id(62));
    assert(t[63] == chain_id(63));
    assert(t[64] == chain_id(64));
    assert(t[65] == chain_id(65));
    assert(t[66] == chain_id(66));
    assert(t[67] == chain_id(67));
    assert(t[68] == chain_id(68));
    assert(t[69] == chain_id(69));
    assert(t[70] == chain_id(70));
    assert(t[71] == chain_id(71));
    assert(t[72] == chain_id(72));
    assert(t[73] == chain_id(73));
    assert(t[74] == chain_id(74));
    assert(t[75] == chain_id(75));
    assert(t[76] == chain_id(76));
    assert(t[77] == chain_id(77));
    assert(t[78] == chain_id(78));
    assert(t[79] == chain_id(79));
    assert(t[80] == chain_id(80));
    assert(t[81] == chain_id(81));
    assert(t[82] == chain_id(82));
    assert(t[83] == chain_id(83));
    assert(t[84] == chain_id(84));
    assert(t[85] == chain_id(85));
    assert(t[86] == chain_id(86));
    assert(t[87] == chain_id(87));
    assert(t[88] == chain_id(88));
    assert(t[89] == chain_id(89));
    assert(t[90] == chain_id(90));
    assert(t[91] == chain_id(91));
    assert(t[92] == chain_id(92));
    assert(t[93] == chain_id(93));
    assert(t[94] == chain_id(94));
    assert(t[95] == chain_id(95));
}

/// Every LED of the chain has its own logical id, on the 10x10 layout and
/// not at one of its corners; so the chain position of an LED's id is found
/// again from the id.
pub proof fn lemma_chain_ids_distinct()
    ensures
        forall|i: int, j: int|
            0 <= i < j < LED_COUNT ==> #[trigger] PHYSICAL_TO_LOGICAL@[i] != #[trigger] PHYSICAL_TO_LOGICAL@[j],
        forall|i: int|
            0 <= i < LED_COUNT ==> {
                let l = #[trigger] PHYSICAL_TO_LOGICAL@[i];
                l < 100 && l != 0 && l != 9 && l != 90 && l != 99
            },
{
    lemma_chain_table();
    assert forall|i: int| 0 <= i < LED_COUNT implies chain_pos(chain_id(i)) == i && 0 < chain_id(i) < 100
        && chain_id(i) != 9 && chain_id(i) != 90 && chain_id(i) != 99 by {
    }
    assert forall|i: int, j: int| 0 <= i < j < LED_COUNT implies #[trigger] PHYSICAL_TO_LOGICAL@[i]
        != #[trigger] PHYSICAL_TO_LOGICAL@[j] by {
        assert(chain_pos(chain_id(i)) == i && chain_pos(chain_id(j)) == j);
    }
}

/// Logical id of the LED at `index` in the physical chain.
pub fn physical_to_logical(index: usize) -> (r: Option<u8>)
    ensures
        index < LED_COUNT ==> r == Some(PHYSICAL_TO_LOGICAL@[index as int]),
        index >= LED_COUNT ==> r is None,
{
    if index < LED_COUNT {
        Some(PHYSICAL_TO_LOGICAL[index])
    } else {
        None
    }
}

/// Position in the physical chain of the first LED with logical id `index`.
pub fn logical_to_physical(index: u8) -> (r: Option<usize>)
    ensures
        r matches Some(i) ==> i < LED_COUNT && PHYSICAL_TO_LOGICAL@[i as int] == index && forall|
            j: int,
        |
            0 <= j < i ==> PHYSICAL_TO_LOGICAL@[j] != index,
        r is None ==> forall|j: int| 0 <= j < LED_COUNT ==> PHYSICAL_TO_LOGICAL@[j] != index,
        forall|j: int| 0 <= j < LED_COUNT && #[trigger] PHYSICAL_TO_LOGICAL@[j] == index ==> r == Some(
            j as usize,
        ),
        (index >= 100 || index == 0 || index == 9 || index == 90 || index == 99) ==> r is None,
{
    proof {
        lemma_chain_ids_distinct();
    }
    let mut i: usize = 0;
    while i < LED_COUNT
        invariant
            i <= LED_COUNT,
            forall|j: int| 0 <= j < i ==> PHYSICAL_TO_LOGICAL@[j] != index,
        decreases LED_COUNT - i,
    {
        if PHYSICAL_TO_LOGICAL[i] == index {
            return Some(i);
        }
        i += 1;
    }
    None
}

/// Logical id of the pad in column `x` and row `y` (row 0 at the top).
pub fn pad_logical_index(x: usize, y: usize) -> (r: Option<u8>)
    ensures
        x < 8 && y < 8 ==> r == Some(((8 - y) * 10 + x + 1) as u8),
        !(x < 8 && y < 8) ==> r is None,
{
    if x < 8 && y < 8 {
        Some(((8 - y) * 10 + x + 1) as u8)
    } else {
        None
    }
}

/// Logical id of a touch bar segment: 0 to 7 down the left edge, 8 to 15 up
/// the right edge.
pub fn touch_logical_index(segment: u8) -> (r: Option<u8>)
    ensures
        segment <= 7 ==> r == Some(((8 - segment) * 10) as u8),
        8 <= segment <= 15 ==> r == Some(((16 - segment) * 10 + 9) as u8),
        segment > 15 ==> r is None,
{
    if segment <= 7 {
        Some((8 - segment) * 10)
    } else if segment <= 15 {
        Some((16 - segment) * 10 + 9)
    } else {
        None
    }
}

/// Readings at or below this are released pads.
pub const LOW_THRESHOLD: u16 = 64;
/// Reading of a fully pressed pad.
pub const HIGH_THRESHOLD: u16 = 8192;
/// How far above the low threshold a pad must read to press.
pub const ACTIVATION_OFFSET: u16 = 64;
/// How long a press or release must last, in milliseconds.
pub const DEBOUNCE_MS: u32 = 4;
/// Smallest change of pressure that is reported.
pub const AFTERTOUCH_DELTA: u8 = 3;

/// What a pad's reading means.
#[derive(Clone, Copy, Debug, PartialEq, Eq, Structural)]
pub enum PressureEvent {
    Press { velocity: u8 },
    Release,
    Aftertouch { pressure: u8 },
}

/// The debounce and pressure state of one pad.
#[derive(Clone, Copy, Debug)]
pub struct PadState {
    pub active: bool,
    pub edge_since_ms: u32,
    pub candidate: bool,
    pub baseline: u16,
    pub peak_slope: u16,
    pub last_raw: u16,
    pub last_aftertouch: u8,
}

/// `a - b`, or 0 when `b` is larger.
pub open spec fn sat_sub(a: int, b: int) -> int {
    if a > b {
        a - b
    } else {
        0
    }
}

/// The smaller of two values.
pub open spec fn min(a: int, b: int) -> int {
    if a < b {
        a
    } else {
        b
    }
}

/// Milliseconds from `since` to `now` on a clock that wraps at 2^32.
pub open spec fn elapsed(now: u32, since: u32) -> int {
    if now >= since {
        now - since
    } else {
        now + 0x1_0000_0000 - since
    }
}

/// Pressure 0 to 127 of a reading between the low and high thresholds.
pub open spec fn pressure_of(raw: u16, low: u16, high: u16) -> u8 {
    if raw <= low {
        0
    } else {
        let range = if high > low { high - low } else { 1 };
        min((raw - low) * 127 / range, 127) as u8
    }
}

/// Velocity 1 to 127 of a press: three parts from the steepest rise
/// (full at 4096 counts), one part from the rise above the baseline (full at
/// 8192 counts).
pub open spec fn velocity_of(slope: u16, excursion: u16) -> u8 {
    let sv = min(slope * 127 / 4096, 127);
    let ev = min(excursion * 127 / 8192, 127);
    let v = (sv * 3 + ev) / 4;
    (if v < 1 { 1 } else if v > 127 { 127 } else { v }) as u8
}

/// What a reading does to a pad: a press needs the reading above the press
/// threshold for the debounce time, a release the reading at or below the
/// low threshold for the debounce time; while pressed, pressure changes of
/// three or more (or reaching 127) are reported.
pub open spec fn pad_step(s: PadState, now: u32, stable: u16, filtered: u16, low: u16, high: u16) -> (
    PadState,
    Option<PressureEvent>,
) {
    let press_threshold = min(low + ACTIVATION_OFFSET, 0xffff);
    if !s.active {
        if stable > press_threshold {
            let s1 = if !s.candidate {
                PadState {
                    candidate: true,
                    edge_since_ms: now,
                    baseline: min(s.last_raw as int, low as int) as u16,
                    peak_slope: sat_sub(stable as int, s.last_raw as int) as u16,
                    ..s
                }
            } else {
                PadState {
                    peak_slope: if s.peak_slope >= sat_sub(stable as int, s.last_raw as int) {
                        s.peak_slope
                    } else {
                        sat_sub(stable as int, s.last_raw as int) as u16
                    },
                    ..s
                }
            };
            if elapsed(now, s1.edge_since_ms) >= DEBOUNCE_MS {
                (
                    PadState {
                        active: true,
                        candidate: false,
                        last_aftertouch: pressure_of(filtered, low, high),
                        last_raw: stable,
                        ..s1
                    },
                    Some(
                        PressureEvent::Press {
                            velocity: velocity_of(
                                s1.peak_slope,
                                sat_sub(stable as int, s1.baseline as int) as u16,
                            ),
                        },
                    ),
                )
            } else {
                (PadState { last_raw: stable, ..s1 }, None)
            }
        } else {
            (PadState { candidate: false, last_raw: stable, ..s }, None)
        }
    } else if stable <= low {
        if !s.candidate {
            (PadState { candidate: true, edge_since_ms: now, last_raw: stable, ..s }, None)
        } else if elapsed(now, s.edge_since_ms) >= DEBOUNCE_MS {
            (
                PadState {
                    active: false,
                    candidate: false,
                    last_aftertouch: 0,
                    last_raw: stable,
                    ..s
                },
                Some(PressureEvent::Release),
            )
        } else {
            (PadState { last_raw: stable, ..s }, None)
        }
    } else {
        let p = pressure_of(filtered, low, high);
        let diff = if p >= s.last_aftertouch { p - s.last_aftertouch } else { s.last_aftertouch - p };
        if diff >= AFTERTOUCH_DELTA || (p == 127 && s.last_aftertouch != 127) {
            (
                PadState { candidate: false, last_aftertouch: p, last_raw: stable, ..s },
                Some(PressureEvent::Aftertouch { pressure: p }),
            )
        } else {
            (PadState { candidate: false, last_raw: stable, ..s }, None)
        }
    }
}

/// A pad's state and reported events after the readings `rs` (each a time,
/// the stable and the filtered reading, and the low and high thresholds), in
/// order.
pub open spec fn pad_run(s: PadState, rs: Seq<(u32, u16, u16, u16, u16)>) -> (PadState, Seq<PressureEvent>)
    decreases rs.len(),
{
    if rs.len() == 0 {
        (s, Seq::empty())
    } else {
        let (t, e) = pad_run(s, rs.drop_last());
        let r = rs.last();
        let (u, o) = pad_step(t, r.0, r.1, r.2, r.3, r.4);
        (
            u,
            match o {
                Some(x) => e.push(x),
                None => e,
            },
        )
    }
}

/// The pressed state after event `e` while `active`, or `None` when `e`
/// cannot come then: a press (velocity 1 to 127) only while up, a release
/// and aftertouch (pressure at most 127) only while down.
pub open spec fn pad_event_step(active: bool, e: PressureEvent) -> Option<bool> {
    match e {
        PressureEvent::Press { velocity } => if !active && 1 <= velocity <= 127 {
            Some(true)
        } else {
            None
        },
        PressureEvent::Release => if active {
            Some(false)
        } else {
            None
        },
        PressureEvent::Aftertouch { pressure } => if active && pressure <= 127 {
            Some(true)
        } else {
            None
        },
    }
}

/// The pressed state after the events `es` from `active`, or `None` when
/// one of them cannot come.
pub open spec fn follow_pad(active: bool, es: Seq<PressureEvent>) -> Option<bool>
    decreases es.len(),
{
    if es.len() == 0 {
        Some(active)
    } else {
        match follow_pad(active, es.drop_last()) {
            None => None,
            Some(q) => pad_event_step(q, es.last()),
        }
    }
}

proof fn lemma_pad_step_follows(s: PadState, r: (u32, u16, u16, u16, u16))
    ensures
        ({
            let (u, o) = pad_step(s, r.0, r.1, r.2, r.3, r.4);
            match o {
                Some(x) => pad_event_step(s.active, x) == Some(u.active),
                None => u.active == s.active,
            }
        }),
{
}

/// A pad's reports follow its presses over any run of readings: presses
/// (velocity 1 to 127) and releases alternate, starting with a press for a
/// released pad, and aftertouch (pressure at most 127) comes only between a
/// press and the next release; the pad ends in the state they lead to.
pub proof fn lemma_pad_events_alternate(s: PadState, rs: Seq<(u32, u16, u16, u16, u16)>)
    ensures
        follow_pad(s.active, pad_run(s, rs).1) == Some(pad_run(s, rs).0.active),
    decreases rs.len(),
{
    if rs.len() > 0 {
        lemma_pad_events_alternate(s, rs.drop_last());
        let (t, e) = pad_run(s, rs.drop_last());
        lemma_pad_step_follows(t, rs.last());
        let (u, o) = pad_step(t, rs.last().0, rs.last().1, rs.last().2, rs.last().3, rs.last().4);
        if let Some(x) = o {
            assert(e.push(x).drop_last() =~= e);
        }
    }
}

/// A released pad stays released and silent while every reading stays at or
/// below its press threshold (the low threshold plus the activation offset).
pub proof fn lemma_pad_silent_below_threshold(s: PadState, rs: Seq<(u32, u16, u16, u16, u16)>)
    requires
        !s.active,
        forall|i: int| 0 <= i < rs.len() ==> (#[trigger] rs[i]).1 <= min(rs[i].3 + ACTIVATION_OFFSET, 0xffff),
    ensures
        !pad_run(s, rs).0.active,
        pad_run(s, rs).1.len() == 0,
    decreases rs.len(),
{
    if rs.len() > 0 {
        assert forall|i: int| 0 <= i < rs.drop_last().len() implies (#[trigger] rs.drop_last()[i]).1
            <= min(rs.drop_last()[i].3 + ACTIVATION_OFFSET, 0xffff) by {
            assert(rs.drop_last()[i] == rs[i]);
        }
        lemma_pad_silent_below_threshold(s, rs.drop_last());
        assert(rs.last() == rs[rs.len() - 1]);
    }
}

/// Pressure 0 to 127 of a reading between the low and high thresholds.
pub fn normalize_pressure(raw: u16, low: u16, high: u16) -> (r: u8)
    ensures
        r == pressure_of(raw, low, high),
        r <= 127,
{
    if raw <= low {
        return 0;
    }
    let range: u32 = if high > low {
        (high - low) as u32
    } else {
        1
    };
    let scaled: u32 = ((raw - low) as u32 * 127) / range;
    if scaled < 127 {
        scaled as u8
    } else {
        127
    }
}

/// Velocity 1 to 127 of a press from the steepest rise and the rise above
/// the baseline.
fn velocity_from_slope(slope: u16, excursion: u16) -> (r: u8)
    ensures
        r == velocity_of(slope, excursion),
        1 <= r <= 127,
{
    let sv: u32 = (slope as u32 * 127) / 4096;
    let slope_velocity: u32 = if sv < 127 {
        sv
    } else {
        127
    };
    let ev: u32 = (excursion as u32 * 127) / 8192;
    let excursion_velocity: u32 = if ev < 127 {
        ev
    } else {
        127
    };
    let v = (slope_velocity * 3 + excursion_velocity) / 4;
    (if v < 1 {
        1
    } else if v > 127 {
        127
    } else {
        v
    }) as u8
}

/// A released pad with no history.
pub open spec fn released_pad() -> PadState {
    PadState {
        active: false,
        edge_since_ms: 0,
        candidate: false,
        baseline: 0,
        peak_slope: 0,
        last_raw: 0,
        last_aftertouch: 0,
    }
}

impl PadState {
    /// A released pad with no history.
    pub fn new() -> (r: PadState)
        ensures
            r == released_pad(),
            !r.active && !r.candidate,
            r.edge_since_ms == 0 && r.baseline == 0 && r.peak_slope == 0 && r.last_raw == 0
                && r.last_aftertouch == 0,
    {
        PadState {
            active: false,
            edge_since_ms: 0,
            candidate: false,
            baseline: 0,
            peak_slope: 0,
            last_raw: 0,
            last_aftertouch: 0,
        }
    }

    /// Feeds one reading of the pad at time `now_ms`: `stable` drives press
    /// and release, `filtered` the pressure.
    pub fn update(&mut self, now_ms: u32, stable: u16, filtered: u16, low: u16, high: u16) -> (r:
        Option<PressureEvent>)
        ensures
            (*final(self), r) == pad_step(*old(self), now_ms, stable, filtered, low, high),
            r matches Some(PressureEvent::Press { velocity }) ==> 1 <= velocity <= 127
                && !old(self).active && final(self).active,
            r matches Some(PressureEvent::Release) ==> old(self).active && !final(self).active,
            r matches Some(PressureEvent::Aftertouch { pressure }) ==> pressure <= 127
                && old(self).active && final(self).active,
    {
        let press_threshold: u16 = if low <= 0xffff - ACTIVATION_OFFSET {
            low + ACTIVATION_OFFSET
        } else {
            0xffff
        };
        if !self.active {
            if stable > press_threshold {
                let rise: u16 = if stable > self.last_raw {
                    stable - self.last_raw
                } else {
                    0
                };
                if !self.candidate {
                    self.candidate = true;
                    self.edge_since_ms = now_ms;
                    self.baseline = if self.last_raw < low {
                        self.last_raw
                    } else {
                        low
                    };
                    self.peak_slope = rise;
                } else {
                    self.peak_slope = if self.peak_slope >= rise {
                        self.peak_slope
                    } else {
                        rise
                    };
                }
                if now_ms.wrapping_sub(self.edge_since_ms) >= DEBOUNCE_MS {
                    self.active = true;
                    self.candidate = false;
                    self.last_aftertouch = normalize_pressure(filtered, low, high);
                    self.last_raw = stable;
                    let excursion: u16 = if stable > self.baseline {
                        stable - self.baseline
                    } else {
                        0
                    };
                    return Some(
                        PressureEvent::Press {
                            velocity: velocity_from_slope(self.peak_slope, excursion),
                        },
                    );
                }
            } else {
                self.candidate = false;
            }
        } else if stable <= low {
            if !self.candidate {
                self.candidate = true;
                self.edge_since_ms = now_ms;
            } else if now_ms.wrapping_sub(self.edge_since_ms) >= DEBOUNCE_MS {
                self.active = false;
                self.candidate = false;
                self.last_aftertouch = 0;
                self.last_raw = stable;
                return Some(PressureEvent::Release);
            }
        } else {
            self.candidate = false;
            let pressure = normalize_pressure(filtered, low, high);
            let diff = if pressure >= self.last_aftertouch {
                pressure - self.last_aftertouch
            } else {
                self.last_aftertouch - pressure
            };
            if diff >= AFTERTOUCH_DELTA || (pressure == 127 && self.last_aftertouch != 127) {
                self.last_aftertouch = pressure;
                self.last_raw = stable;
                return Some(PressureEvent::Aftertouch { pressure });
            }
        }
        self.last_raw = stable;
        None
    }
}

/// An ADC reading scaled to 16 counts per step plus its high byte, saturating.
pub fn scale_adc(reading: u16) -> (r: u16)
    ensures
        r == min(reading * 16 + reading / 256, 0xffff),
{
    let high = reading >> 8;
    assert(high == reading / 256) by (bit_vector)
        requires
            high == reading >> 8,
    ;
    if reading > 4095 {
        0xffff
    } else {
        reading * 16 + high
    }
}

/// The reading to use from the scaled samples taken so far of one pad; `None`
/// when another sample is needed. A low first sample is taken as is; a high
/// one is confirmed by a second close to it (within 192), else the mean of the
/// second and a third is used.
pub fn stable_adc_read(samples: &[u16]) -> (r: Option<u16>)
    requires
        1 <= samples.len() <= 3,
    ensures
        samples[0] <= 640 ==> r == Some(samples[0]),
        samples[0] > 640 && samples.len() == 1 ==> r is None,
        samples[0] > 640 && samples.len() >= 2 && sat_sub(samples[0] as int, samples[1] as int)
            + sat_sub(samples[1] as int, samples[0] as int) <= 192 ==> r == Some(samples[1]),
        samples[0] > 640 && samples.len() == 2 && sat_sub(samples[0] as int, samples[1] as int)
            + sat_sub(samples[1] as int, samples[0] as int) > 192 ==> r is None,
        samples[0] > 640 && samples.len() == 3 && sat_sub(samples[0] as int, samples[1] as int)
            + sat_sub(samples[1] as int, samples[0] as int) > 192 ==> r == Some(
            ((samples[1] + samples[2]) / 2) as u16,
        ),
{
    let first = samples[0];
    if first <= 640 {
        return Some(first);
    }
    if samples.len() < 2 {
        return None;
    }
    let second = samples[1];
    let diff = if first >= second {
        first - second
    } else {
        second - first
    };
    if diff <= 192 {
        return Some(second);
    }
    if samples.len() < 3 {
        return None;
    }
    Some(((second as u32 + samples[2] as u32) / 2) as u16)
}

/// The integrator and state of a switch after one sample: the integrator
/// counts up to 3 while pressed and down to 0 while released; the switch
/// turns on at 3 and off at 0. Gives the new integrator, the new state, and
/// the state to report when it changed.
pub open spec fn debounce_step(pressed: bool, integrator: u8, active: bool) -> (u8, bool, Option<bool>) {
    let i = if pressed {
        min(integrator + 1, 3) as u8
    } else {
        sat_sub(integrator as int, 1) as u8
    };
    if i == 3 && !active {
        (i, true, Some(true))
    } else if i == 0 && active {
        (i, false, Some(false))
    } else {
        (i, active, None)
    }
}

/// Debounces one sample of a switch; gives the new state when it changed.
pub fn debounce_binary(pressed: bool, integrator: &mut u8, active: &mut bool) -> (r: Option<bool>)
    ensures
        (*final(integrator), *final(active), r) == debounce_step(pressed, *old(integrator), *old(active)),
{
    if pressed {
        *integrator = if *integrator >= 3 {
            3
        } else {
            *integrator + 1
        };
    } else {
        *integrator = if *integrator > 0 {
            *integrator - 1
        } else {
            0
        };
    }
    let on = *integrator == 3;
    let released = *integrator == 0;
    if on && !*active {
        *active = true;
        Some(true)
    } else if released && *active {
        *active = false;
        Some(false)
    } else {
        None
    }
}

/// The `heapless::Deque` of 128 input events, oldest first.
#[verifier::external_body]
pub struct EventDeque {
    inner: heapless::Deque<HardwareEvent, 128>,
}

/// The events an `EventDeque` holds, oldest first.
pub uninterp spec fn deque_events(q: EventDeque) -> Seq<HardwareEvent>;

impl EventDeque {
    /// `Deque::new`: an empty deque.
    #[verifier::external_body]
    pub(crate) fn new() -> (r: EventDeque)
        ensures
            deque_events(r) == Seq::<HardwareEvent>::empty(),
    {
        EventDeque { inner: heapless::Deque::new() }
    }

    /// `Deque::push_back`: appends `item` unless the 128 places are taken,
    /// and hands `item` back when they are.
    #[verifier::external_body]
    pub(crate) fn push_back(&mut self, item: HardwareEvent) -> (r: Result<(), HardwareEvent>)
        ensures
            deque_events(*old(self)).len() < 128 ==> r is Ok && deque_events(*final(self))
                == deque_events(*old(self)).push(item),
            deque_events(*old(self)).len() >= 128 ==> (r matches Err(x) && x == item),
            deque_events(*old(self)).len() >= 128 ==> deque_events(*final(self)) == deque_events(
                *old(self),
            ),
    {
        self.inner.push_back(item)
    }

    /// `Deque::pop_front`: removes and returns the oldest item.
    #[verifier::external_body]
    pub(crate) fn pop_front(&mut self) -> (r: Option<HardwareEvent>)
        ensures
            deque_events(*old(self)).len() == 0 ==> r is None && deque_events(*final(self))
                == deque_events(*old(self)),
            deque_events(*old(self)).len() > 0 ==> r == Some(deque_events(*old(self))[0])
                && deque_events(*final(self)) == deque_events(*old(self)).drop_first(),
    {
        self.inner.pop_front()
    }
}

/// `q` with `e` appended when it has room.
pub open spec fn queued(q: Seq<HardwareEvent>, e: HardwareEvent) -> Seq<HardwareEvent> {
    if q.len() < 128 {
        q.push(e)
    } else {
        q
    }
}

/// The event of a pad's pressure event.
pub open spec fn pad_event(index: u8, e: PressureEvent) -> HardwareEvent {
    match e {
        PressureEvent::Press { velocity } => HardwareEvent::Surface {
            pressed: true,
            index,
            value: velocity,
        },
        PressureEvent::Release => HardwareEvent::Surface { pressed: false, index, value: 0 },
        PressureEvent::Aftertouch { pressure } => HardwareEvent::Aftertouch {
            index,
            value: pressure,
        },
    }
}

/// The event of a switch that turned on or off.
pub open spec fn switch_event(index: u8, active: bool) -> HardwareEvent {
    HardwareEvent::Surface {
        pressed: active,
        index,
        value: if active {
            127
        } else {
            0
        },
    }
}

/// The input state of the grid: filtered pad readings, pad states, touch
/// and function button debouncing, and the queue of events.
pub struct GridState {
    pub touch_map: [u8; 16],
    pub filtered: [u16; 64],
    pub pad_states: [PadState; 64],
    pub touch_integrator: [u8; 16],
    pub touch_active: [bool; 16],
    pub fn_integrator: u8,
    pub fn_active: bool,
    pub events: EventDeque,
}

impl GridState {
    /// The state at power-up for a board's wiring.
    pub fn new(config: &BoardConfig) -> (r: GridState)
        ensures
            r.touch_map == config.touch_map,
            forall|i: int| 0 <= i < 64 ==> r.filtered@[i] == 0 && !r.pad_states@[i].active,
            forall|i: int| 0 <= i < 64 ==> r.pad_states@[i] == released_pad(),
            r.touch_integrator@ == Seq::new(16, |i: int| 0u8),
            r.touch_active@ == Seq::new(16, |i: int| false),
            deque_events(r.events) == Seq::<HardwareEvent>::empty(),
            !r.fn_active && r.fn_integrator == 0,
    {
        let r = GridState {
            touch_map: config.touch_map,
            filtered: [0; 64],
            pad_states: [PadState::new(); 64],
            touch_integrator: [0; 16],
            touch_active: [false; 16],
            fn_integrator: 0,
            fn_active: false,
            events: EventDeque::new(),
        };
        assert(r.touch_integrator@ =~= Seq::new(16, |i: int| 0u8));
        assert(r.touch_active@ =~= Seq::new(16, |i: int| false));
        r
    }

    /// Takes the oldest input event.
    pub fn poll_event(&mut self) -> (r: Option<HardwareEvent>)
        ensures
            deque_events(old(self).events).len() == 0 ==> r is None,
            deque_events(old(self).events).len() > 0 ==> r == Some(
                deque_events(old(self).events)[0],
            ) && deque_events(final(self).events) == deque_events(old(self).events).drop_first(),
    {
        self.events.pop_front()
    }

    /// Debounces a sample of the function button (index 0).
    pub fn scan_fn(&mut self, pressed: bool)
        ensures
            ({
                let (i, a, e) = debounce_step(pressed, old(self).fn_integrator, old(self).fn_active);
                &&& final(self).fn_integrator == i
                &&& final(self).fn_active == a
                &&& deque_events(final(self).events) == match e {
                    Some(on) => queued(deque_events(old(self).events), switch_event(0, on)),
                    None => deque_events(old(self).events),
                }
            }),
    {
        let mut integrator = self.fn_integrator;
        let mut active = self.fn_active;
        let edge = debounce_binary(pressed, &mut integrator, &mut active);
        self.fn_integrator = integrator;
        self.fn_active = active;
        if let Some(on) = edge {
            let _ = self.events.push_back(
                HardwareEvent::Surface {
                    pressed: on,
                    index: 0,
                    value: if on {
                        127
                    } else {
                        0
                    },
                },
            );
        }
    }

    /// Debounces the touch bar bit read at position `serial_index` of the
    /// serial stream.
    pub fn scan_touch_input(&mut self, serial_index: usize, pressed: bool)
        requires
            serial_index < 16,
            forall|i: int| 0 <= i < 16 ==> old(self).touch_map@[i] < 16,
        ensures
            forall|i: int| 0 <= i < 16 ==> final(self).touch_map@[i] < 16,
            ({
                let seg = old(self).touch_map@[serial_index as int] as int;
                let (i, a, e) = debounce_step(
                    pressed,
                    old(self).touch_integrator@[seg],
                    old(self).touch_active@[seg],
                );
                &&& final(self).touch_integrator@ == old(self).touch_integrator@.update(seg, i)
                &&& final(self).touch_active@ == old(self).touch_active@.update(seg, a)
                &&& deque_events(final(self).events) == match e {
                    Some(on) => queued(
                        deque_events(old(self).events),
                        switch_event(
                            (if seg <= 7 {
                                (8 - seg) * 10
                            } else {
                                (16 - seg) * 10 + 9
                            }) as u8,
                            on,
                        ),
                    ),
                    None => deque_events(old(self).events),
                }
            }),
            final(self).touch_map == old(self).touch_map,
            final(self).filtered == old(self).filtered,
            final(self).pad_states == old(self).pad_states,
    {
        let segment = self.touch_map[serial_index] as usize;
        let mut integrator = self.touch_integrator[segment];
        let mut active = self.touch_active[segment];
        let edge = debounce_binary(pressed, &mut integrator, &mut active);
        self.touch_integrator[segment] = integrator;
        self.touch_active[segment] = active;
        if let Some(on) = edge {
            if let Some(index) = touch_logical_index(segment as u8) {
                let _ = self.events.push_back(
                    HardwareEvent::Surface {
                        pressed: on,
                        index,
                        value: if on {
                            127
                        } else {
                            0
                        },
                    },
                );
            }
        }
    }

    /// Feeds the stable reading `raw` of the pad in column `x`, row `y`: the
    /// filtered value moves a quarter of the way to it (or starts at it), and
    /// the pad's event, if any, is queued.
    pub fn scan_grid_sensor(&mut self, now_ms: u32, x: usize, y: usize, raw: u16)
        requires
            x < 8,
            y < 8,
        ensures
            ({
                let sensor = (y * 8 + x) as int;
                let old_f = old(self).filtered@[sensor];
                let f = if old_f == 0 {
                    raw
                } else {
                    ((old_f * 3 + raw) / 4) as u16
                };
                let (ps, e) = pad_step(
                    old(self).pad_states@[sensor],
                    now_ms,
                    raw,
                    f,
                    LOW_THRESHOLD,
                    HIGH_THRESHOLD,
                );
                &&& final(self).filtered@ == old(self).filtered@.update(sensor, f)
                &&& final(self).pad_states@ == old(self).pad_states@.update(sensor, ps)
                &&& deque_events(final(self).events) == match e {
                    Some(pe) => queued(
                        deque_events(old(self).events),
                        pad_event(((8 - y) * 10 + x + 1) as u8, pe),
                    ),
                    None => deque_events(old(self).events),
                }
            }),
            final(self).touch_map == old(self).touch_map,
            final(self).touch_integrator == old(self).touch_integrator,
            final(self).touch_active == old(self).touch_active,
    {
        let sensor = y * 8 + x;
        let previous = self.filtered[sensor];
        let filtered: u16 = if previous == 0 {
            raw
        } else {
            ((previous as u32 * 3 + raw as u32) / 4) as u16
        };
        self.filtered[sensor] = filtered;
        let mut state = self.pad_states[sensor];
        let event = state.update(now_ms, raw, filtered, LOW_THRESHOLD, HIGH_THRESHOLD);
        self.pad_states[sensor] = state;
        if let Some(event) = event {
            let index = ((8 - y) * 10 + x + 1) as u8;
            let hardware_event = match event {
                PressureEvent::Press { velocity } => HardwareEvent::Surface {
                    pressed: true,
                    index,
                    value: velocity,
                },
                PressureEvent::Release => HardwareEvent::Surface { pressed: false, index, value: 0 },
                PressureEvent::Aftertouch { pressure } => HardwareEvent::Aftertouch {
                    index,
                    value: pressure,
                },
            };
            let _ = self.events.push_back(hardware_event);
        }
    }
}

} // verus!
