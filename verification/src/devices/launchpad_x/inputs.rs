//! The Launchpad X's inputs: the 64 pressure-sensing pads, read one ADC
//! bank at a time, and the 16 side buttons, sampled four times and decided
//! by majority. Readings become press, release and aftertouch events.
//!
//! The ADC and its DMA transfer are driven by the caller, which hands the
//! captured values and side samples to the functions here.

use vstd::prelude::*;
use crate::sys::driver::launchpad_s_and_mini::ring::Ring;
use crate::sys::driver::launchpad_s_and_mini::usb::push_all;

verus! {

/// Pads with a pressure sensor.
pub const LP_GRID_SENSOR_COUNT: usize = 64;
/// Side buttons without pressure.
pub const LP_SIMPLE_BTN_COUNT: usize = 16;
/// ADC channels captured per bank.
pub const LP_ADC_CHANNELS: usize = 8;
/// Slots of the event queue (one fewer events fit).
pub const LP_GRID_QUEUE_LEN: usize = 64;

/// Rise above the baseline that presses a pad.
pub const LP_PRESS_START_NORM: u16 = 0x012c;
/// Rise above the baseline at or below which a pad counts towards release.
pub const LP_PRESS_RELEASE_NORM: u16 = 0x0090;
/// Reading above which aftertouch starts.
pub const LP_AFTER_START_NORM: u16 = 0x0259;
/// Smallest change of aftertouch that is reported.
pub const LP_AFTER_DELTA_THR: u8 = 3;
/// Readings above the press threshold needed to press.
pub const LP_PRESS_ON_COUNT: u8 = 1;
/// Readings at the release threshold needed to release.
pub const LP_RELEASE_COUNT: u8 = 8;
/// Readings after a press during which no release is taken.
pub const LP_RELEASE_HOLDOFF: u8 = 10;
/// Readings to wait after an aftertouch report.
pub const LP_AFTER_COOLDOWN: u8 = 2;
/// Rise above the baseline under which the baseline follows the reading.
pub const LP_BASELINE_GUARD: u16 = 0x0060;
/// Floor of the stretched aftertouch curve.
pub const LP_AFTER_FLOOR_16: u32 = 0x2222;
/// Gain of the velocity curve.
pub const LP_VELOCITY_GAIN_NUM: u32 = 140;

/// For each LED index (bottom-left origin, 10 per row): the pressure sensor
/// under it (below 0x40), its side button (0x80 + button), or none (0xff).
pub const PAD_SCAN_MAP: [u8; 100] = [
    0xff, 0x80, 0x81, 0x82, 0x83, 0x84, 0x85, 0x86, 0x87, 0xff, 0xff, 0x00, 0x08, 0x10, 0x18, 0x01,
    0x09, 0x11, 0x19, 0x88, 0xff, 0x20, 0x28, 0x30, 0x38, 0x21, 0x29, 0x31, 0x39, 0x89, 0xff, 0x02,
    0x0a, 0x12, 0x1a, 0x03, 0x0b, 0x13, 0x1b, 0x8a, 0xff, 0x22, 0x2a, 0x32, 0x3a, 0x23, 0x2b, 0x33,
    0x3b, 0x8b, 0xff, 0x04, 0x0c, 0x14, 0x1c, 0x05, 0x0d, 0x15, 0x1d, 0x8c, 0xff, 0x24, 0x2c, 0x34,
    0x3c, 0x25, 0x2d, 0x35, 0x3d, 0x8d, 0xff, 0x06, 0x0e, 0x16, 0x1e, 0x07, 0x0f, 0x17, 0x1f, 0x8e,
    0xff, 0x26, 0x2e, 0x36, 0x3e, 0x27, 0x2f, 0x37, 0x3f, 0x8f, 0xff, 0xff, 0xff, 0xff, 0xff, 0xff,
    0xff, 0xff, 0xff, 0xff,
];

/// An input event for the note (LED index, top-left origin) of a pad or button.
#[derive(Clone, Copy, Debug, PartialEq, Eq, Structural)]
pub enum GridEvent {
    Press { note: u8, value: u8 },
    Release { note: u8 },
    Aftertouch { note: u8, value: u8 },
}

/// Which event a pad produced.
#[derive(Clone, Copy, Debug, PartialEq, Eq, Structural)]
pub enum GridEventKind {
    Press,
    Release,
    Aftertouch,
}

/// The row-flipped index: row `r` becomes row `9 - r`.
pub open spec fn flipped(index: u8) -> u8 {
    ((9 - index / 10) * 10 + index % 10) as u8
}

/// The row-flipped index of an LED index below 100.
pub fn idx_to_yx(index: u8) -> (r: u8)
    requires
        index < 100,
    ensures
        r == flipped(index),
{
    (9 - (index / 10)) * 10 + (index % 10)
}

/// The middle one of three values.
pub open spec fn median_of(a: u16, b: u16, c: u16) -> u16 {
    if (a <= b && b <= c) || (c <= b && b <= a) {
        b
    } else if (b <= a && a <= c) || (c <= a && a <= b) {
        a
    } else {
        c
    }
}

/// The middle one of three values.
pub fn median3(a: u16, b: u16, c: u16) -> (r: u16)
    ensures
        r == median_of(a, b, c),
{
    let (mut a, mut b, mut c) = (a, b, c);
    if a > b {
        let t = a;
        a = b;
        b = t;
    }
    if b > c {
        let t = b;
        b = c;
        c = t;
    }
    if a > b {
        let t = a;
        a = b;
        b = t;
    }
    b
}

/// A raw 12-bit reading on the 0 to 0xFFF scale: 0 up to 0x96, full from 0xDAC.
pub open spec fn norm_of(raw: u16) -> u16 {
    if raw < 0x0097 {
        0
    } else if raw >= 0x0dac {
        0x0fff
    } else {
        ((raw - 0x0096) * 4096 / 0x0d16) as u16
    }
}

/// A raw 12-bit reading on the 0 to 0xFFF scale.
pub fn normalize_raw_to_norm(raw: u16) -> (r: u16)
    ensures
        r == norm_of(raw),
        r <= 0x0fff,
{
    if raw < 0x0097 {
        return 0;
    }
    if raw >= 0x0dac {
        return 0x0fff;
    }
    let d: u32 = (raw - 0x0096) as u32;
    assert(d << 12u32 == d * 4096) by (bit_vector)
        requires
            d < 0x1000,
    ;
    ((d << 12) / 0x0d16) as u16
}

/// Velocity 1 to 127 of a press that reached `norm`.
pub open spec fn velocity_of(norm: u16) -> u8 {
    if norm <= LP_PRESS_START_NORM {
        1
    } else {
        let v = (norm - LP_PRESS_START_NORM) * LP_VELOCITY_GAIN_NUM / 0x0ed4;
        (if v == 0 {
            1
        } else if v > 127 {
            127
        } else {
            v
        }) as u8
    }
}

/// Velocity grows with pressure: a harder press never gives a softer
/// velocity; every press gives 1 to 127, a press at or below the start
/// threshold gives 1, a full-scale press gives 127, and in between the
/// velocity is the reading above the threshold times 140 / 0x0ED4.
pub proof fn lemma_velocity_grows_with_pressure(n1: u16, n2: u16)
    requires
        n1 <= n2,
    ensures
        velocity_of(n1) <= velocity_of(n2),
        1 <= velocity_of(n1) <= 127,
        n1 <= LP_PRESS_START_NORM ==> velocity_of(n1) == 1,
        velocity_of(0x0fff) == 127,
        n1 > LP_PRESS_START_NORM ==> velocity_of(n1) == (if (n1 - 0x012c) * 140 / 0x0ed4 < 1 {
            1
        } else if (n1 - 0x012c) * 140 / 0x0ed4 > 127 {
            127
        } else {
            (n1 - 0x012c) * 140 / 0x0ed4
        }),
{
    if n1 > LP_PRESS_START_NORM {
        let a: int = (n1 - LP_PRESS_START_NORM) * 140;
        let b: int = (n2 - LP_PRESS_START_NORM) * 140;
        assert(a <= b) by (nonlinear_arith)
            requires
                n1 <= n2,
                a == (n1 - LP_PRESS_START_NORM) * 140,
                b == (n2 - LP_PRESS_START_NORM) * 140,
        ;
        vstd::arithmetic::div_mod::lemma_div_is_ordered(a, b, 0x0ed4);
    }
    assert((0x0fffint - 0x012c) * 140 / 0x0ed4 == 139);
}

/// Aftertouch grows with pressure: a harder press never gives less; nothing
/// up to the start threshold, and 127 at full scale.
pub proof fn lemma_aftertouch_grows_with_pressure(n1: u16, n2: u16)
    requires
        n1 <= n2,
    ensures
        aftertouch_of(n1) <= aftertouch_of(n2),
        aftertouch_of(n1) <= 127,
        n1 <= LP_AFTER_START_NORM ==> aftertouch_of(n1) == 0,
        aftertouch_of(0x0fff) == 127,
{
    if n1 > LP_AFTER_START_NORM {
        let sc1: int = if n1 >= 0x0fff {
            0xffff
        } else {
            (n1 - 0x0258) * 65536 / 0x0da7
        };
        let sc2: int = if n2 >= 0x0fff {
            0xffff
        } else {
            (n2 - 0x0258) * 65536 / 0x0da7
        };
        if n2 < 0x0fff {
            assert((n1 - 0x0258) * 65536 <= (n2 - 0x0258) * 65536) by (nonlinear_arith)
                requires
                    n1 <= n2,
            ;
            vstd::arithmetic::div_mod::lemma_div_is_ordered(
                (n1 - 0x0258) * 65536,
                (n2 - 0x0258) * 65536,
                0x0da7,
            );
        } else if n1 < 0x0fff {
            assert((n1 - 0x0258) * 65536 <= (0x0ffeint - 0x0258) * 65536) by (nonlinear_arith)
                requires
                    n1 < 0x0fff,
            ;
            vstd::arithmetic::div_mod::lemma_div_is_ordered(
                (n1 - 0x0258) * 65536,
                (0x0ffeint - 0x0258) * 65536,
                0x0da7,
            );
            assert((0x0ffeint - 0x0258) * 65536 / 0x0da7 <= 0xffff);
        }
        assert(sc1 <= sc2);
        assert(0x9000 * sc1 <= 0x9000 * sc2) by (nonlinear_arith)
            requires
                sc1 <= sc2,
        ;
        vstd::arithmetic::div_mod::lemma_div_is_ordered(0x9000 * sc1, 0x9000 * sc2, 32768);
        let s1: int = 0x9000 * sc1 / 32768;
        let s2: int = 0x9000 * sc2 / 32768;
        let t1: int = if s1 > 0xffff { 0xffff } else { s1 };
        let t2: int = if s2 > 0xffff { 0xffff } else { s2 };
        let f: int = LP_AFTER_FLOOR_16 as int;
        if t1 > f {
            assert((t1 - f) * 65536 <= (t2 - f) * 65536) by (nonlinear_arith)
                requires
                    t1 <= t2,
            ;
            vstd::arithmetic::div_mod::lemma_div_is_ordered(
                (t1 - f) * 65536,
                (t2 - f) * 65536,
                0x10000 - f,
            );
            let o1: int = (t1 - f) * 65536 / (0x10000 - f);
            let o2: int = (t2 - f) * 65536 / (0x10000 - f);
            vstd::arithmetic::div_mod::lemma_div_is_ordered(o1, o2, 512);
        }
    }
    assert(0x9000int * 0xffff / 32768 > 0xffff);
    assert((0xffffint - 0x2222) * 65536 / (0x10000 - 0x2222) / 512 == 127);
}

/// Velocity 1 to 127 of a press that reached `norm`.
pub fn norm_to_velocity(norm: u16) -> (r: u8)
    ensures
        r == velocity_of(norm),
        1 <= r <= 127,
{
    if norm <= LP_PRESS_START_NORM {
        return 1;
    }
    let mut value: u32 = (((norm - LP_PRESS_START_NORM) as u32) * LP_VELOCITY_GAIN_NUM) / 0x0ed4;
    if value == 0 {
        value = 1;
    }
    (if value < 127 {
        value
    } else {
        127
    }) as u8
}

/// Aftertouch 0 to 127 of a reading: nothing up to the start threshold, then
/// a curve stretched by 0x9000/0x8000 with its lowest part cut off.
pub open spec fn aftertouch_of(norm: u16) -> u8 {
    if norm <= LP_AFTER_START_NORM {
        0
    } else {
        let scaled16: int = if norm >= 0x0fff {
            0xffff
        } else {
            (norm - 0x0258) * 65536 / 0x0da7
        };
        let s = 0x9000 * scaled16 / 32768;
        let stretched16 = if s > 0xffff { 0xffff } else { s };
        let out16 = if stretched16 > LP_AFTER_FLOOR_16 {
            (stretched16 - LP_AFTER_FLOOR_16) * 65536 / (0x10000 - LP_AFTER_FLOOR_16)
        } else {
            0
        };
        let v = out16 / 512;
        (if v > 127 { 127 } else { v }) as u8
    }
}

/// Aftertouch 0 to 127 of a reading.
pub fn norm_to_aftertouch(norm: u16) -> (r: u8)
    ensures
        r == aftertouch_of(norm),
        r <= 127,
{
    if norm <= LP_AFTER_START_NORM {
        return 0;
    }
    let scaled16: u32 = if norm >= 0x0fff {
        0xffff
    } else {
        let d: u32 = (norm - 0x0258) as u32;
        assert(d << 16u32 == d * 65536) by (bit_vector)
            requires
                d < 0x1000,
        ;
        (d << 16) / 0x0da7
    };
    assert(scaled16 <= 0xffff);
    let product: u32 = 0x9000 * scaled16;
    assert(product >> 15u32 == product / 32768) by (bit_vector);
    let s = product >> 15;
    let stretched16: u32 = if s < 0xffff {
        s
    } else {
        0xffff
    };
    let out16: u32 = if stretched16 > LP_AFTER_FLOOR_16 {
        let e: u32 = stretched16 - LP_AFTER_FLOOR_16;
        assert(e << 16u32 == e * 65536) by (bit_vector)
            requires
                e < 0x10000,
        ;
        (e << 16) / (0x10000 - LP_AFTER_FLOOR_16)
    } else {
        0
    };
    assert(out16 >> 9u32 == out16 / 512) by (bit_vector);
    let v = out16 >> 9;
    (if v < 127 {
        v
    } else {
        127
    }) as u8
}

/// The state of one pressure sensor: its history of three readings, the
/// filtered value and baseline, and its press, release and aftertouch state.
#[derive(Clone, Copy, Debug)]
pub struct SensorState {
    pub base: u16,
    pub filt: u16,
    pub hist0: u16,
    pub hist1: u16,
    pub hist2: u16,
    pub hist_pos: u8,
    pub hist_count: u8,
    pub ready: bool,
    pub pressed: bool,
    pub last_at: u8,
    pub on_count: u8,
    pub off_count: u8,
    pub release_holdoff: u8,
    pub after_cooldown: u8,
}

/// A sensor that has not read anything yet.
pub open spec fn fresh_sensor(s: SensorState) -> bool {
    &&& s.base == 0 && s.filt == 0 && s.hist0 == 0 && s.hist1 == 0 && s.hist2 == 0
    &&& s.hist_pos == 0 && s.hist_count == 0
    &&& !s.ready && !s.pressed
    &&& s.last_at == 0 && s.on_count == 0 && s.off_count == 0
    &&& s.release_holdoff == 0 && s.after_cooldown == 0
}

/// The history position stays within the three readings.
pub open spec fn sensor_wf(s: SensorState) -> bool {
    s.hist_pos < 3
}

/// `a - b`, or 0 when `b` is larger.
pub open spec fn sat_sub(a: int, b: int) -> int {
    if a > b {
        a - b
    } else {
        0
    }
}

/// The baseline moved a 32nd of the way towards `filt`, rounded.
pub open spec fn follow(base: u16, filt: u16) -> u16 {
    ((base * 31 + filt + 16) / 32) as u16
}

/// What a reading does to a pressure sensor, and the event it gives.
///
/// The reading enters the history; once three are there their median is
/// used. The filter rises halfway and falls an eighth of the way to the
/// normalised reading. The first reading sets the baseline; after it the
/// baseline follows the filter while the pad is up and the rise is small.
/// A rise of 0x12C presses; while pressed, aftertouch changes of three or
/// more are reported (then two readings are skipped), and eight readings at
/// a rise of 0x90 or less release, but not in the first ten after the press;
/// an aftertouch report comes before a release of the same reading.
pub open spec fn sensor_step(s: SensorState, raw: u16) -> (SensorState, Seq<(GridEventKind, u8)>) {
    let pos = s.hist_pos as int;
    let h0 = if pos == 0 { raw } else { s.hist0 };
    let h1 = if pos == 1 { raw } else { s.hist1 };
    let h2 = if pos == 2 { raw } else { s.hist2 };
    let count = if s.hist_count >= 3 { 3u8 } else { (s.hist_count + 1) as u8 };
    let sample = if count >= 3 { median_of(h0, h1, h2) } else { raw };
    let norm = norm_of(sample);
    let filt: u16 = if s.filt == 0 {
        norm
    } else if norm >= s.filt {
        ((s.filt + norm + 1) / 2) as u16
    } else {
        ((s.filt * 7 + norm + 4) / 8) as u16
    };
    let s1 = SensorState {
        hist0: h0,
        hist1: h1,
        hist2: h2,
        hist_pos: ((pos + 1) % 3) as u8,
        hist_count: count,
        filt,
        ..s
    };
    if !s.ready {
        (SensorState { base: filt, ready: true, ..s1 }, Seq::empty())
    } else {
        let base = if filt > s.base {
            if filt - s.base < LP_BASELINE_GUARD && !s.pressed {
                follow(s.base, filt)
            } else {
                s.base
            }
        } else if !s.pressed {
            follow(s.base, filt)
        } else {
            s.base
        };
        let s2 = SensorState { base, ..s1 };
        let delta = sat_sub(filt as int, base as int);
        let velocity = velocity_of(norm);
        let pressure = aftertouch_of(norm);
        if !s.pressed {
            if delta >= LP_PRESS_START_NORM {
                (
                    SensorState {
                        pressed: true,
                        on_count: 0,
                        off_count: 0,
                        release_holdoff: LP_RELEASE_HOLDOFF,
                        after_cooldown: 0,
                        last_at: pressure,
                        ..s2
                    },
                    seq![(GridEventKind::Press, velocity)],
                )
            } else {
                (SensorState { on_count: 0, ..s2 }, Seq::empty())
            }
        } else {
            let holdoff = sat_sub(s.release_holdoff as int, 1) as u8;
            let diff = if pressure >= s.last_at { pressure - s.last_at } else { s.last_at - pressure };
            let report = s.after_cooldown == 0 && diff >= LP_AFTER_DELTA_THR;
            let s3 = SensorState {
                release_holdoff: holdoff,
                after_cooldown: if s.after_cooldown != 0 {
                    (s.after_cooldown - 1) as u8
                } else if report {
                    LP_AFTER_COOLDOWN
                } else {
                    0
                },
                last_at: if report { pressure } else { s.last_at },
                ..s2
            };
            let at = if report {
                seq![(GridEventKind::Aftertouch, pressure)]
            } else {
                Seq::empty()
            };
            if delta <= LP_PRESS_RELEASE_NORM {
                let off = if s.off_count == 255 { 255u8 } else { (s.off_count + 1) as u8 };
                if off >= LP_RELEASE_COUNT && holdoff == 0 {
                    (
                        SensorState {
                            pressed: false,
                            off_count: 0,
                            release_holdoff: 0,
                            after_cooldown: 0,
                            last_at: 0,
                            base: filt,
                            ..s3
                        },
                        at.push((GridEventKind::Release, 0u8)),
                    )
                } else {
                    (SensorState { off_count: off, ..s3 }, at)
                }
            } else {
                (SensorState { off_count: 0, ..s3 }, at)
            }
        }
    }
}

/// The press state after an event of kind `k` while `pressed`, or `None`
/// when the event cannot come then: a press only while up, a release and
/// aftertouch only while down.
pub open spec fn kind_step(pressed: bool, k: GridEventKind) -> Option<bool> {
    match k {
        GridEventKind::Press => if !pressed { Some(true) } else { None },
        GridEventKind::Release => if pressed { Some(false) } else { None },
        GridEventKind::Aftertouch => if pressed { Some(true) } else { None },
    }
}

/// The press state after the events `evs` from `pressed`, or `None` when
/// one of them cannot come.
pub open spec fn follow_events(pressed: bool, evs: Seq<(GridEventKind, u8)>) -> Option<bool>
    decreases evs.len(),
{
    if evs.len() == 0 {
        Some(pressed)
    } else {
        match follow_events(pressed, evs.drop_last()) {
            None => None,
            Some(q) => kind_step(q, evs.last().0),
        }
    }
}

/// A sensor's state and events after the readings `raws`, in order.
pub open spec fn sensor_run(s: SensorState, raws: Seq<u16>) -> (SensorState, Seq<(GridEventKind, u8)>)
    decreases raws.len(),
{
    if raws.len() == 0 {
        (s, Seq::empty())
    } else {
        let (t, e) = sensor_run(s, raws.drop_last());
        let (u, f) = sensor_step(t, raws.last());
        (u, e + f)
    }
}

proof fn lemma_follow_concat(p: bool, a: Seq<(GridEventKind, u8)>, b: Seq<(GridEventKind, u8)>)
    ensures
        follow_events(p, a + b) == match follow_events(p, a) {
            None => None,
            Some(q) => follow_events(q, b),
        },
    decreases b.len(),
{
    if b.len() == 0 {
        assert(a + b =~= a);
    } else {
        lemma_follow_concat(p, a, b.drop_last());
        assert((a + b).drop_last() =~= a + b.drop_last());
        if follow_events(p, a) is None {
            lemma_follow_none(p, a, b);
        }
    }
}

proof fn lemma_follow_none(p: bool, a: Seq<(GridEventKind, u8)>, b: Seq<(GridEventKind, u8)>)
    requires
        follow_events(p, a) is None,
    ensures
        follow_events(p, a + b) is None,
    decreases b.len(),
{
    if b.len() == 0 {
        assert(a + b =~= a);
    } else {
        lemma_follow_none(p, a, b.drop_last());
        assert((a + b).drop_last() =~= a + b.drop_last());
    }
}

proof fn lemma_step_follows(s: SensorState, raw: u16)
    ensures
        follow_events(s.pressed, sensor_step(s, raw).1) == Some(sensor_step(s, raw).0.pressed),
{
    reveal_with_fuel(follow_events, 3);
    let evs = sensor_step(s, raw).1;
    let t = sensor_step(s, raw).0;
    if !s.ready {
        assert(evs.len() == 0 && t.pressed == s.pressed);
    } else if !s.pressed {
        if evs.len() == 1 {
            assert(evs[0].0 == GridEventKind::Press && t.pressed);
            assert(evs.drop_last() =~= Seq::<(GridEventKind, u8)>::empty());
        } else {
            assert(evs.len() == 0 && !t.pressed);
        }
    } else {
        let e0: Seq<(GridEventKind, u8)> = Seq::empty();
        assert(evs.len() <= 2);
        assert(forall|i: int| 0 <= i < evs.len() - 1 ==> #[trigger] evs[i].0 == GridEventKind::Aftertouch);
        assert(evs.len() > 0 && evs.last().0 == GridEventKind::Release ==> !t.pressed);
        assert(!(evs.len() > 0 && evs.last().0 == GridEventKind::Release) ==> t.pressed);
        assert(evs.len() > 0 ==> evs.last().0 != GridEventKind::Press);
        if evs.len() == 1 {
            assert(evs.drop_last() =~= e0);
        } else if evs.len() == 2 {
            assert(evs.drop_last().drop_last() =~= e0);
            assert(evs.drop_last().last() == evs[0]);
        }
    }
}

/// A pad's events follow its presses: from its state before, each press
/// comes while it is up, each release and aftertouch while it is down, and
/// the pad ends in the state the events lead to; so presses and releases
/// alternate. A sensor that has read nothing reports nothing on its first
/// reading.
pub proof fn lemma_press_release_alternate(s: SensorState, raws: Seq<u16>)
    ensures
        follow_events(s.pressed, sensor_run(s, raws).1) == Some(sensor_run(s, raws).0.pressed),
        fresh_sensor(s) && raws.len() >= 1 ==> sensor_step(s, raws[0]).1.len() == 0,
    decreases raws.len(),
{
    if raws.len() > 0 {
        lemma_press_release_alternate(s, raws.drop_last());
        let (t, e) = sensor_run(s, raws.drop_last());
        lemma_step_follows(t, raws.last());
        lemma_follow_concat(s.pressed, e, sensor_step(t, raws.last()).1);
    }
}

/// No event of the run is a release.
pub open spec fn no_release(evs: Seq<(GridEventKind, u8)>) -> bool {
    forall|i: int| 0 <= i < evs.len() ==> (#[trigger] evs[i]).0 != GridEventKind::Release
}

/// A reading that presses a pad starts its hold-off of ten readings and its
/// count of calm readings from zero.
pub proof fn lemma_press_starts_holdoff(s: SensorState, raw: u16)
    requires
        !s.pressed,
        sensor_step(s, raw).0.pressed,
    ensures
        sensor_step(s, raw).0.release_holdoff == LP_RELEASE_HOLDOFF,
        sensor_step(s, raw).0.off_count == 0,
        sensor_step(s, raw).0.ready,
        sensor_step(s, raw).1 =~= seq![(GridEventKind::Press, sensor_step(s, raw).1[0].1)],
{
}

/// A pressed pad is not released before its hold-off has run out: after a
/// press (hold-off ten readings) the first nine readings release nothing.
pub proof fn lemma_release_waits_for_holdoff(s: SensorState, raws: Seq<u16>)
    requires
        s.ready,
        s.pressed,
        raws.len() < s.release_holdoff,
    ensures
        sensor_run(s, raws).0.pressed,
        sensor_run(s, raws).0.ready,
        sensor_run(s, raws).0.release_holdoff == s.release_holdoff - raws.len(),
        no_release(sensor_run(s, raws).1),
    decreases raws.len(),
{
    if raws.len() > 0 {
        lemma_release_waits_for_holdoff(s, raws.drop_last());
        let (t, e) = sensor_run(s, raws.drop_last());
        let f = sensor_step(t, raws.last());
        assert(no_release(f.1)) by {
            assert(f.1.len() <= 1);
        }
        assert forall|i: int| 0 <= i < (e + f.1).len() implies (#[trigger] (e + f.1)[i]).0
            != GridEventKind::Release by {
            if i < e.len() {
                assert((e + f.1)[i] == e[i]);
            } else {
                assert((e + f.1)[i] == f.1[i - e.len()]);
            }
        }
    }
}

/// A pressed pad is released only after eight calm readings in a row: with
/// fewer readings than the calm readings it still lacks, it stays pressed.
pub proof fn lemma_release_needs_calm_readings(s: SensorState, raws: Seq<u16>)
    requires
        s.ready,
        s.pressed,
        s.off_count + raws.len() < LP_RELEASE_COUNT,
    ensures
        sensor_run(s, raws).0.pressed,
        sensor_run(s, raws).0.ready,
        sensor_run(s, raws).0.off_count <= s.off_count + raws.len(),
        no_release(sensor_run(s, raws).1),
    decreases raws.len(),
{
    if raws.len() > 0 {
        lemma_release_needs_calm_readings(s, raws.drop_last());
        let (t, e) = sensor_run(s, raws.drop_last());
        let f = sensor_step(t, raws.last());
        assert(no_release(f.1)) by {
            assert(f.1.len() <= 1);
        }
        assert forall|i: int| 0 <= i < (e + f.1).len() implies (#[trigger] (e + f.1)[i]).0
            != GridEventKind::Release by {
            if i < e.len() {
                assert((e + f.1)[i] == e[i]);
            } else {
                assert((e + f.1)[i] == f.1[i - e.len()]);
            }
        }
    }
}

/// The sensors, and the events each reading emits (with its sensor), after
/// the readings `calls` (sensor, raw reading) of `update_grid_sensor`, in
/// order.
pub open spec fn sensors_run(sensors: Seq<SensorState>, calls: Seq<(int, u16)>) -> (
    Seq<SensorState>,
    Seq<(int, GridEventKind, u8)>,
)
    decreases calls.len(),
{
    if calls.len() == 0 {
        (sensors, Seq::empty())
    } else {
        let (ss, em) = sensors_run(sensors, calls.drop_last());
        let c = calls.last();
        let (t, evs) = sensor_step(ss[c.0], c.1);
        (ss.update(c.0, t), em + evs.map_values(|e: (GridEventKind, u8)| (c.0, e.0, e.1)))
    }
}

/// The readings of sensor `k` among `calls`, in order.
pub open spec fn readings_of(calls: Seq<(int, u16)>, k: int) -> Seq<u16>
    decreases calls.len(),
{
    if calls.len() == 0 {
        Seq::empty()
    } else if calls.last().0 == k {
        readings_of(calls.drop_last(), k).push(calls.last().1)
    } else {
        readings_of(calls.drop_last(), k)
    }
}

/// The events of sensor `k` among `em`, in order.
pub open spec fn emitted_for(em: Seq<(int, GridEventKind, u8)>, k: int) -> Seq<(GridEventKind, u8)>
    decreases em.len(),
{
    if em.len() == 0 {
        Seq::empty()
    } else if em.last().0 == k {
        emitted_for(em.drop_last(), k).push((em.last().1, em.last().2))
    } else {
        emitted_for(em.drop_last(), k)
    }
}

proof fn lemma_emitted_concat(
    em: Seq<(int, GridEventKind, u8)>,
    evs: Seq<(GridEventKind, u8)>,
    j: int,
    k: int,
)
    ensures
        emitted_for(em + evs.map_values(|e: (GridEventKind, u8)| (j, e.0, e.1)), k) == emitted_for(
            em,
            k,
        ) + if j == k {
            evs
        } else {
            Seq::<(GridEventKind, u8)>::empty()
        },
    decreases evs.len(),
{
    let m = evs.map_values(|e: (GridEventKind, u8)| (j, e.0, e.1));
    if evs.len() == 0 {
        assert(em + m =~= em);
        if j == k {
            assert(emitted_for(em, k) + evs =~= emitted_for(em, k));
        } else {
            assert(emitted_for(em, k) + Seq::<(GridEventKind, u8)>::empty() =~= emitted_for(em, k));
        }
    } else {
        lemma_emitted_concat(em, evs.drop_last(), j, k);
        let m0 = evs.drop_last().map_values(|e: (GridEventKind, u8)| (j, e.0, e.1));
        assert((em + m).drop_last() =~= em + m0);
        assert((em + m).last() == (j, evs.last().0, evs.last().1));
        if j == k {
            assert(emitted_for(em, k) + evs.drop_last() + seq![evs.last()] =~= emitted_for(em, k)
                + evs);
            assert(evs.last() == (evs.last().0, evs.last().1));
        } else {
            assert(emitted_for(em, k) + Seq::<(GridEventKind, u8)>::empty() =~= emitted_for(em, k));
        }
    }
}

/// Over any run of `update_grid_sensor` readings on the whole input state,
/// each sensor goes as if it read only its own readings: its state and the
/// events emitted for it are those of its own run. So, per sensor, presses
/// and releases alternate, aftertouch comes only while pressed, and a fresh
/// sensor's first reading emits nothing.
pub proof fn lemma_sensor_runs_apart(sensors: Seq<SensorState>, calls: Seq<(int, u16)>, k: int)
    requires
        sensors.len() == 64,
        0 <= k < 64,
        forall|i: int| 0 <= i < calls.len() ==> 0 <= (#[trigger] calls[i]).0 < 64,
    ensures
        sensors_run(sensors, calls).0.len() == 64,
        sensors_run(sensors, calls).0[k] == sensor_run(sensors[k], readings_of(calls, k)).0,
        emitted_for(sensors_run(sensors, calls).1, k) == sensor_run(sensors[k], readings_of(calls, k)).1,
        follow_events(sensors[k].pressed, emitted_for(sensors_run(sensors, calls).1, k)) == Some(
            sensors_run(sensors, calls).0[k].pressed,
        ),
    decreases calls.len(),
{
    if calls.len() > 0 {
        let init = calls.drop_last();
        assert forall|i: int| 0 <= i < init.len() implies 0 <= (#[trigger] init[i]).0 < 64 by {
            assert(init[i] == calls[i]);
        }
        lemma_sensor_runs_apart(sensors, init, k);
        let (ss, em) = sensors_run(sensors, init);
        let c = calls.last();
        assert(c == calls[calls.len() - 1]);
        let (t, evs) = sensor_step(ss[c.0], c.1);
        lemma_emitted_concat(em, evs, c.0, k);
        if c.0 == k {
            assert(readings_of(calls, k).drop_last() =~= readings_of(init, k));
        } else {
            assert(emitted_for(em, k) + Seq::<(GridEventKind, u8)>::empty() =~= emitted_for(em, k));
        }
    }
    lemma_press_release_alternate(sensors[k], readings_of(calls, k));
}

/// A sensor that has not read anything yet.
pub fn new_sensor() -> (r: SensorState)
    ensures
        fresh_sensor(r),
        sensor_wf(r),
{
    let r = SensorState {
        base: 0,
        filt: 0,
        hist0: 0,
        hist1: 0,
        hist2: 0,
        hist_pos: 0,
        hist_count: 0,
        ready: false,
        pressed: false,
        last_at: 0,
        on_count: 0,
        off_count: 0,
        release_holdoff: 0,
        after_cooldown: 0,
    };
    r
}

impl SensorState {
    /// Feeds one reading to the sensor; gives its events in order.
    #[verifier::rlimit(80)]
    #[verifier::spinoff_prover]
    pub fn update(&mut self, raw: u16) -> (r: Vec<(GridEventKind, u8)>)
        requires
            sensor_wf(*old(self)),
        ensures
            sensor_wf(*final(self)),
            (*final(self), r@) == sensor_step(*old(self), raw),
    {
        let mut events: Vec<(GridEventKind, u8)> = Vec::new();
        let pos = self.hist_pos;
        if pos == 0 {
            self.hist0 = raw;
        } else if pos == 1 {
            self.hist1 = raw;
        } else {
            self.hist2 = raw;
        }
        self.hist_pos = (pos + 1) % 3;
        self.hist_count = if self.hist_count >= 3 {
            3
        } else {
            self.hist_count + 1
        };
        let mut sample = raw;
        if self.hist_count >= 3 {
            sample = median3(self.hist0, self.hist1, self.hist2);
        }
        let norm = normalize_raw_to_norm(sample);
        let mut filt = self.filt;
        if filt == 0 {
            filt = norm;
        } else if norm >= filt {
            filt = ((filt as u32 + norm as u32 + 1) / 2) as u16;
        } else {
            filt = (((filt as u32) * 7 + norm as u32 + 4) / 8) as u16;
        }
        self.filt = filt;
        if !self.ready {
            self.base = filt;
            self.ready = true;
            return events;
        }
        let mut base = self.base;
        if filt > base {
            if filt - base < LP_BASELINE_GUARD && !self.pressed {
                base = (((base as u32) * 31 + filt as u32 + 16) / 32) as u16;
            }
        } else if !self.pressed {
            base = (((base as u32) * 31 + filt as u32 + 16) / 32) as u16;
        }
        self.base = base;
        let delta: u16 = if filt > base {
            filt - base
        } else {
            0
        };
        let velocity = norm_to_velocity(norm);
        let pressure = norm_to_aftertouch(norm);
        if !self.pressed {
            if delta >= LP_PRESS_START_NORM {
                self.on_count = if self.on_count == 255 {
                    255
                } else {
                    self.on_count + 1
                };
                if self.on_count >= LP_PRESS_ON_COUNT {
                    self.pressed = true;
                    self.on_count = 0;
                    self.off_count = 0;
                    self.release_holdoff = LP_RELEASE_HOLDOFF;
                    self.after_cooldown = 0;
                    self.last_at = pressure;
                    events.push((GridEventKind::Press, velocity));
                }
            } else {
                self.on_count = 0;
            }
            assert(events@ =~= sensor_step(*old(self), raw).1);
            return events;
        }
        self.release_holdoff = if self.release_holdoff > 0 {
            self.release_holdoff - 1
        } else {
            0
        };
        if self.after_cooldown != 0 {
            self.after_cooldown = self.after_cooldown - 1;
        } else {
            let prev = self.last_at;
            let diff = if pressure >= prev {
                pressure - prev
            } else {
                prev - pressure
            };
            if diff >= LP_AFTER_DELTA_THR {
                self.last_at = pressure;
                self.after_cooldown = LP_AFTER_COOLDOWN;
                events.push((GridEventKind::Aftertouch, pressure));
            }
        }
        if delta <= LP_PRESS_RELEASE_NORM {
            self.off_count = if self.off_count == 255 {
                255
            } else {
                self.off_count + 1
            };
            if self.off_count >= LP_RELEASE_COUNT && self.release_holdoff == 0 {
                self.pressed = false;
                self.off_count = 0;
                self.release_holdoff = 0;
                self.after_cooldown = 0;
                self.last_at = 0;
                self.base = filt;
                events.push((GridEventKind::Release, 0));
            }
            assert(events@ =~= sensor_step(*old(self), raw).1);
            return events;
        }
        self.off_count = 0;
        assert(events@ =~= sensor_step(*old(self), raw).1);
        events
    }
}

/// Bit `b` of `v` is set.
pub open spec fn has_bit(v: u16, b: int) -> bool {
    (v >> (b as u16)) & 1 == 1
}

proof fn lemma_mask_bit(v: u16, k: u16)
    requires
        k < 16,
    ensures
        (v & (1u16 << k) != 0) == has_bit(v, k as int),
        forall|b: u16| b < 16 ==> #[trigger] has_bit(v | (1u16 << k), b as int) == (b == k || has_bit(v, b as int)),
        forall|b: u16| b < 16 ==> #[trigger] has_bit(v & !(1u16 << k), b as int) == (b != k && has_bit(v, b as int)),
{
    assert((v & (1u16 << k) != 0) == ((v >> k) & 1 == 1)) by (bit_vector)
        requires
            k < 16,
    ;
    assert forall|b: u16| b < 16 implies #[trigger] has_bit(v | (1u16 << k), b as int) == (b == k || has_bit(v, b as int)) by {
        assert((((v | (1u16 << k)) >> b) & 1 == 1) == (b == k || (v >> b) & 1 == 1)) by (bit_vector)
            requires
                k < 16,
                b < 16,
        ;
    }
    assert forall|b: u16| b < 16 implies #[trigger] has_bit(v & !(1u16 << k), b as int) == (b != k && has_bit(v, b as int)) by {
        assert((((v & !(1u16 << k)) >> b) & 1 == 1) == (b != k && (v >> b) & 1 == 1)) by (bit_vector)
            requires
                k < 16,
                b < 16,
        ;
    }
}

/// How many of the four side samples have bit `b` set.
pub open spec fn side_votes(hist: Seq<u16>, b: int) -> int {
    (if has_bit(hist[0], b) { 1int } else { 0 }) + (if has_bit(hist[1], b) { 1int } else { 0 }) + (
    if has_bit(hist[2], b) { 1int } else { 0 }) + (if has_bit(hist[3], b) { 1int } else { 0 })
}

/// The events of the side buttons below `n` whose state changed from `old`
/// to `new`: a press (value 127) or a release of each mapped button, in
/// button order.
pub open spec fn side_events(old: u16, new: u16, notes: Seq<u8>, n: int) -> Seq<GridEvent>
    decreases n,
{
    if n <= 0 {
        Seq::empty()
    } else {
        let b = n - 1;
        let before = side_events(old, new, notes, b);
        if has_bit(old, b) == has_bit(new, b) || notes[b] == 0xff {
            before
        } else if has_bit(new, b) {
            before.push(GridEvent::Press { note: notes[b], value: 127 })
        } else {
            before.push(GridEvent::Release { note: notes[b] })
        }
    }
}

/// The events for `note` of a sensor's events; none for an unmapped sensor.
pub open spec fn note_events(note: u8, evs: Seq<(GridEventKind, u8)>) -> Seq<GridEvent> {
    if note == 0xff {
        Seq::empty()
    } else {
        evs.map_values(
            |e: (GridEventKind, u8)|
                match e.0 {
                    GridEventKind::Press => GridEvent::Press { note, value: e.1 },
                    GridEventKind::Release => GridEvent::Release { note },
                    GridEventKind::Aftertouch => GridEvent::Aftertouch { note, value: e.1 },
                },
        )
    }
}

/// Sensors and queued events after one reading of `sensor`.
pub open spec fn sensor_apply(
    sensors: Seq<SensorState>,
    queue: Seq<GridEvent>,
    notes: Seq<u8>,
    sensor: int,
    raw: u16,
) -> (Seq<SensorState>, Seq<GridEvent>) {
    let (s, evs) = sensor_step(sensors[sensor], raw);
    (sensors.update(sensor, s), push_all(queue, note_events(notes[sensor], evs), 63))
}

/// Sensors and queued events after the readings of channels below `n` of
/// bank `bank` (sensors `8 * bank` on).
pub open spec fn bank_apply(
    st: (Seq<SensorState>, Seq<GridEvent>),
    notes: Seq<u8>,
    raws: Seq<u16>,
    bank: int,
    n: int,
) -> (Seq<SensorState>, Seq<GridEvent>)
    decreases n,
{
    if n <= 0 {
        st
    } else {
        let prev = bank_apply(st, notes, raws, bank, n - 1);
        sensor_apply(prev.0, prev.1, notes, 8 * bank + n - 1, raws[n - 1])
    }
}

/// Sensors and queued events after the captured banks below `n` whose bit
/// in `mask` is set, lowest bank first.
pub open spec fn banks_apply(
    st: (Seq<SensorState>, Seq<GridEvent>),
    notes: Seq<u8>,
    raw: Seq<Seq<u16>>,
    mask: u8,
    n: int,
) -> (Seq<SensorState>, Seq<GridEvent>)
    decreases n,
{
    if n <= 0 {
        st
    } else {
        let prev = banks_apply(st, notes, raw, mask, n - 1);
        if mask & (1u8 << ((n - 1) as u8)) != 0 {
            bank_apply(prev, notes, raw[n - 1], n - 1, 8)
        } else {
            prev
        }
    }
}

/// The note tables after the first `k` entries of the scan map: each pad's
/// sensor and each side button maps to the row-flipped index of its LED.
pub open spec fn note_tables(k: int) -> (Seq<u8>, Seq<u8>)
    decreases k,
{
    if k <= 0 {
        (Seq::new(64, |i: int| 0xffu8), Seq::new(16, |i: int| 0xffu8))
    } else {
        let (sensors, simple) = note_tables(k - 1);
        let map = PAD_SCAN_MAP@[k - 1];
        let note = flipped((k - 1) as u8);
        if map < 64 {
            (sensors.update(map as int, note), simple)
        } else if map & 0xf0 == 0x80 {
            (sensors, simple.update((map & 0x0f) as int, note))
        } else {
            (sensors, simple)
        }
    }
}

/// The input state: side samples and their decided state, the pressure
/// capture, the sensors, the note tables and the event queue.
pub struct Inputs {
    pub side_hist: [u16; 4],
    pub side_stable: u16,
    pub pressure_capture_bank: u8,
    pub pressure_capture_active: bool,
    pub pressure_raw: [[u16; 8]; 8],
    pub pressure_dirty_mask: u8,
    pub sensors: [SensorState; 64],
    pub sensor_to_note: [u8; 64],
    pub simple_to_note: [u8; 16],
    pub queue: Ring<GridEvent, 64>,
}

/// The raw captures as sequences.
pub open spec fn raw_view(raw: [[u16; 8]; 8]) -> Seq<Seq<u16>> {
    raw@.map_values(|r: [u16; 8]| r@)
}

impl Inputs {
    /// The queue is well formed and every sensor's history position is valid.
    pub open spec fn wf(self) -> bool {
        &&& self.queue.wf()
        &&& forall|i: int| 0 <= i < 64 ==> sensor_wf(#[trigger] self.sensors@[i])
    }

    /// Fresh sensors, no side button held, nothing captured or queued, and the
    /// note tables of the scan map.
    pub fn new() -> (r: Inputs)
        ensures
            r.wf(),
            forall|i: int| 0 <= i < 64 ==> fresh_sensor(#[trigger] r.sensors@[i]),
            (r.sensor_to_note@, r.simple_to_note@) == note_tables(100),
            r.queue.view() == Seq::<GridEvent>::empty(),
            r.side_stable == 0 && r.pressure_dirty_mask == 0 && !r.pressure_capture_active,
            r.pressure_capture_bank == 0xff,
            r.side_hist@ == Seq::new(4, |i: int| 0u16),
            forall|b: int, c: int| 0 <= b < 8 && 0 <= c < 8 ==> #[trigger] r.pressure_raw@[b]@[c] == 0,
    {
        let mut this = Inputs {
            side_hist: [0; 4],
            side_stable: 0,
            pressure_capture_bank: 0xff,
            pressure_capture_active: false,
            pressure_raw: [[0; 8]; 8],
            pressure_dirty_mask: 0,
            sensors: [new_sensor(); 64],
            sensor_to_note: [0xff; 64],
            simple_to_note: [0xff; 16],
            queue: Ring::new(GridEvent::Release { note: 0 }),
        };
        assert(this.side_hist@ =~= Seq::new(4, |i: int| 0u16));
        assert(this.sensor_to_note@ =~= note_tables(0).0);
        assert(this.simple_to_note@ =~= note_tables(0).1);
        let mut index: usize = 0;
        while index < 100
            invariant
                index <= 100,
                (this.sensor_to_note@, this.simple_to_note@) == note_tables(index as int),
                this.wf(),
                forall|i: int| 0 <= i < 64 ==> fresh_sensor(#[trigger] this.sensors@[i]),
                this.queue.view() == Seq::<GridEvent>::empty(),
                this.side_stable == 0 && this.pressure_dirty_mask == 0,
                !this.pressure_capture_active && this.pressure_capture_bank == 0xff,
                this.side_hist@ == Seq::new(4, |i: int| 0u16),
                forall|b: int, c: int| 0 <= b < 8 && 0 <= c < 8 ==> #[trigger] this.pressure_raw@[b]@[c] == 0,
            decreases 100 - index,
        {
            let map = PAD_SCAN_MAP[index];
            let note = idx_to_yx(index as u8);
            if (map as usize) < 64 {
                this.sensor_to_note[map as usize] = note;
            } else if (map & 0xf0) == 0x80 {
                assert(map & 0x0f < 16) by (bit_vector);
                this.simple_to_note[(map & 0x0f) as usize] = note;
            }
            index += 1;
        }
        this
    }

    /// Records one side-button sample: for each of the four columns, bit
    /// `4 * column` of `sample` becomes bit `4 * column + row` of group `group`.
    pub fn capture_side(&mut self, group: u8, row: u8, sample: u16)
        ensures
            (group >= 4 || row >= 4) ==> *final(self) == *old(self),
            group < 4 && row < 4 ==> final(self).side_hist@ == old(self).side_hist@.update(
                group as int,
                final(self).side_hist@[group as int],
            ),
            group < 4 && row < 4 ==> forall|b: int|
                0 <= b < 16 ==> #[trigger] has_bit(final(self).side_hist@[group as int], b) == if b
                    % 4 == row {
                    has_bit(sample, b - row)
                } else {
                    has_bit(old(self).side_hist@[group as int], b)
                },
            final(self).sensors == old(self).sensors,
            final(self).queue == old(self).queue,
            final(self).side_stable == old(self).side_stable,
    {
        if group >= 4 || row >= 4 {
            return;
        }
        let mut value = self.side_hist[group as usize];
        let ghost start = value;
        let mut col: u16 = 0;
        while col < 4
            invariant
                col <= 4,
                row < 4,
                forall|b: int|
                    0 <= b < 16 ==> #[trigger] has_bit(value, b) == if b % 4 == row && b / 4 < col {
                        has_bit(sample, b - row)
                    } else {
                        has_bit(start, b)
                    },
            decreases 4 - col,
        {
            let shift: u16 = col * 4;
            let pmask: u16 = 1u16 << shift;
            let bit: u16 = col * 4 + row as u16;
            let mask: u16 = 1u16 << bit;
            proof {
                lemma_mask_bit(sample, shift);
                lemma_mask_bit(value, bit);
            }
            let pressed = (sample & pmask) != 0;
            if pressed {
                value = value | mask;
            } else {
                value = value & !mask;
            }
            proof {
                assert forall|b: int| 0 <= b < 16 implies #[trigger] has_bit(value, b) == if b % 4
                    == row && b / 4 < col + 1 {
                    has_bit(sample, b - row)
                } else {
                    has_bit(start, b)
                } by {
                    let bb = b as u16;
                    if b == bit as int {
                        assert(b % 4 == row && b / 4 == col);
                    }
                    assert(has_bit(value, bb as int) == has_bit(value, b));
                }
            }
            col += 1;
        }
        self.side_hist[group as usize] = value;
    }

    /// Queues an event unless the queue is full.
    fn queue_event(&mut self, event: GridEvent)
        requires
            old(self).wf(),
        ensures
            final(self).wf(),
            final(self).queue.view() == push_all(old(self).queue.view(), seq![event], 63),
            final(self).sensors == old(self).sensors,
            final(self).sensor_to_note == old(self).sensor_to_note,
            final(self).simple_to_note == old(self).simple_to_note,
            final(self).side_hist == old(self).side_hist,
            final(self).side_stable == old(self).side_stable,
            final(self).pressure_raw == old(self).pressure_raw,
            final(self).pressure_dirty_mask == old(self).pressure_dirty_mask,
            final(self).pressure_capture_bank == old(self).pressure_capture_bank,
            final(self).pressure_capture_active == old(self).pressure_capture_active,
    {
        let ghost q = self.queue.view();
        let _ = self.queue.push(event);
        assert(push_all(q, seq![event], 63) =~= if q.len() < 63 {
            q.push(event)
        } else {
            q
        });
    }

    /// Feeds one reading of `sensor` and queues its events for the sensor's note.
    pub fn update_grid_sensor(&mut self, sensor: usize, raw: u16)
        requires
            old(self).wf(),
        ensures
            final(self).wf(),
            sensor >= 64 ==> *final(self) == *old(self),
            sensor < 64 ==> (final(self).sensors@, final(self).queue.view()) == sensor_apply(
                old(self).sensors@,
                old(self).queue.view(),
                old(self).sensor_to_note@,
                sensor as int,
                raw,
            ),
            final(self).sensor_to_note == old(self).sensor_to_note,
            final(self).simple_to_note == old(self).simple_to_note,
            final(self).side_hist == old(self).side_hist,
            final(self).side_stable == old(self).side_stable,
            final(self).pressure_raw == old(self).pressure_raw,
            final(self).pressure_dirty_mask == old(self).pressure_dirty_mask,
            final(self).pressure_capture_bank == old(self).pressure_capture_bank,
            final(self).pressure_capture_active == old(self).pressure_capture_active,
    {
        if sensor >= LP_GRID_SENSOR_COUNT {
            return;
        }
        let mut state = self.sensors[sensor];
        let events = state.update(raw);
        self.sensors[sensor] = state;
        let note = self.sensor_to_note[sensor];
        let ghost start = self.queue.view();
        let ghost all = note_events(note, events@);
        if note == 0xff {
            assert(push_all(start, all, 63) =~= start);
            return;
        }
        let mut i: usize = 0;
        assert(push_all(start, all.take(0), 63) =~= start);
        while i < events.len()
            invariant
                i <= events.len(),
                note != 0xff,
                all == note_events(note, events@),
                start.len() <= 63,
                self.wf(),
                self.queue.view() == push_all(start, all.take(i as int), 63),
                self.sensors@ == old(self).sensors@.update(sensor as int, state),
                self.sensor_to_note == old(self).sensor_to_note,
                self.simple_to_note == old(self).simple_to_note,
                self.side_hist == old(self).side_hist,
                self.side_stable == old(self).side_stable,
                self.pressure_raw == old(self).pressure_raw,
                self.pressure_dirty_mask == old(self).pressure_dirty_mask,
                self.pressure_capture_bank == old(self).pressure_capture_bank,
                self.pressure_capture_active == old(self).pressure_capture_active,
            decreases events.len() - i,
        {
            let (kind, value) = events[i];
            let event = match kind {
                GridEventKind::Press => GridEvent::Press { note, value },
                GridEventKind::Release => GridEvent::Release { note },
                GridEventKind::Aftertouch => GridEvent::Aftertouch { note, value },
            };
            let ghost before = self.queue.view();
            self.queue_event(event);
            proof {
                assert(all[i as int] == event);
                assert(all.take(i + 1) =~= all.take(i as int).push(event));
                if before.len() < 63 {
                    assert(push_all(start, all.take(i + 1), 63) =~= before.push(event));
                } else {
                    assert(push_all(start, all.take(i + 1), 63) =~= before);
                }
            }
            i += 1;
        }
        assert(all.take(i as int) =~= all);
    }
}

proof fn lemma_xor_bit(n: u16, o: u16, k: u16)
    requires
        k < 16,
    ensures
        ((n ^ o) & (1u16 << k) == 0) == (has_bit(n, k as int) == has_bit(o, k as int)),
        (n & (1u16 << k) != 0) == has_bit(n, k as int),
{
    assert(((n ^ o) & (1u16 << k) == 0) == (((n >> k) & 1 == 1) == ((o >> k) & 1 == 1))) by (bit_vector)
        requires
            k < 16,
    ;
    assert((n & (1u16 << k) != 0) == ((n >> k) & 1 == 1)) by (bit_vector)
        requires
            k < 16,
    ;
}

proof fn lemma_same_bits_no_events(o: u16, n: u16, notes: Seq<u8>, k: int)
    requires
        0 <= k <= 16,
        forall|b: int| 0 <= b < 16 ==> #[trigger] has_bit(n, b) == has_bit(o, b),
    ensures
        side_events(o, n, notes, k) == Seq::<GridEvent>::empty(),
    decreases k,
{
    if k > 0 {
        lemma_same_bits_no_events(o, n, notes, k - 1);
        assert(has_bit(n, k - 1) == has_bit(o, k - 1));
    }
}

proof fn lemma_zero_bits()
    ensures
        forall|b: int| 0 <= b < 16 ==> !#[trigger] has_bit(0u16, b),
{
    assert forall|b: int| 0 <= b < 16 implies !#[trigger] has_bit(0u16, b) by {
        let bb = b as u16;
        assert((0u16 >> bb) & 1 == 0) by (bit_vector);
    }
}

/// `b` is `a` after its captured banks were read into the sensors.
pub open spec fn pressure_serviced(a: Inputs, b: Inputs) -> bool {
    &&& (b.sensors@, b.queue.view()) == banks_apply(
        (a.sensors@, a.queue.view()),
        a.sensor_to_note@,
        raw_view(a.pressure_raw),
        a.pressure_dirty_mask,
        8,
    )
    &&& b.pressure_dirty_mask == 0
    &&& b.side_hist == a.side_hist && b.side_stable == a.side_stable
    &&& b.sensor_to_note == a.sensor_to_note && b.simple_to_note == a.simple_to_note
    &&& b.pressure_raw == a.pressure_raw
    &&& b.pressure_capture_bank == a.pressure_capture_bank
    &&& b.pressure_capture_active == a.pressure_capture_active
}

/// `b` is `a` after the side buttons were decided by majority of the four
/// samples and the changes queued.
pub open spec fn side_serviced(a: Inputs, b: Inputs) -> bool {
    &&& forall|k: int| 0 <= k < 16 ==> #[trigger] has_bit(b.side_stable, k) == (side_votes(a.side_hist@, k) > 1)
    &&& b.queue.view() == push_all(
        a.queue.view(),
        side_events(a.side_stable, b.side_stable, a.simple_to_note@, 16),
        63,
    )
    &&& b.sensors == a.sensors
    &&& b.side_hist == a.side_hist
    &&& b.sensor_to_note == a.sensor_to_note && b.simple_to_note == a.simple_to_note
    &&& b.pressure_raw == a.pressure_raw
    &&& b.pressure_dirty_mask == a.pressure_dirty_mask
    &&& b.pressure_capture_bank == a.pressure_capture_bank
    &&& b.pressure_capture_active == a.pressure_capture_active
}

/// What the end of a pressure capture reports.
#[derive(Clone, Copy, Debug, PartialEq, Eq, Structural)]
pub enum CaptureStatus {
    /// The transfer of the bank's readings is complete.
    Complete,
    /// The transfer failed.
    Error,
    /// The transfer is still running.
    Busy,
}

impl Inputs {
    /// Decides the side buttons by majority (at least two of the four
    /// samples) and queues a press or release for each mapped button whose
    /// state changed, in button order.
    pub fn service_side_buttons_foreground(&mut self)
        requires
            old(self).wf(),
        ensures
            final(self).wf(),
            side_serviced(*old(self), *final(self)),
    {
        let mut new_stable: u16 = 0;
        let mut bit: u16 = 0;
        proof {
            lemma_zero_bits();
        }
        while bit < 16
            invariant
                bit <= 16,
                forall|k: int|
                    0 <= k < 16 ==> #[trigger] has_bit(new_stable, k) == (k < bit && side_votes(
                        self.side_hist@,
                        k,
                    ) > 1),
            decreases 16 - bit,
        {
            let mask: u16 = 1u16 << bit;
            let mut sum: u8 = 0;
            let mut k: usize = 0;
            while k < 4
                invariant
                    k <= 4,
                    bit < 16,
                    mask == 1u16 << bit,
                    sum == (if k > 0 && has_bit(self.side_hist@[0], bit as int) { 1int } else { 0 })
                        + (if k > 1 && has_bit(self.side_hist@[1], bit as int) { 1int } else { 0 })
                        + (if k > 2 && has_bit(self.side_hist@[2], bit as int) { 1int } else { 0 })
                        + (if k > 3 && has_bit(self.side_hist@[3], bit as int) { 1int } else { 0 }),
                decreases 4 - k,
            {
                proof {
                    lemma_mask_bit(self.side_hist@[k as int], bit);
                }
                if self.side_hist[k] & mask != 0 {
                    sum += 1;
                }
                k += 1;
            }
            proof {
                lemma_mask_bit(new_stable, bit);
            }
            if sum > 1 {
                new_stable = new_stable | mask;
            }
            bit += 1;
        }
        let changed = new_stable ^ self.side_stable;
        if changed == 0 {
            proof {
                assert forall|b: int| 0 <= b < 16 implies #[trigger] has_bit(new_stable, b)
                    == has_bit(self.side_stable, b) by {
                    let bb = b as u16;
                    lemma_xor_bit(new_stable, self.side_stable, bb);
                    assert(changed & (1u16 << bb) == 0) by (bit_vector)
                        requires
                            changed == 0,
                    ;
                }
                lemma_same_bits_no_events(self.side_stable, self.side_stable, self.simple_to_note@, 16);
                assert(push_all(self.queue.view(), Seq::<GridEvent>::empty(), 63) =~= self.queue.view());
                assert forall|k: int| 0 <= k < 16 implies #[trigger] has_bit(self.side_stable, k) == (
                side_votes(self.side_hist@, k) > 1) by {
                    assert(has_bit(new_stable, k) == has_bit(self.side_stable, k));
                }
            }
            return;
        }
        let ghost start = self.queue.view();
        let ghost old_stable = self.side_stable;
        let mut bit: u16 = 0;
        assert(push_all(start, side_events(old_stable, new_stable, self.simple_to_note@, 0), 63)
            =~= start);
        while bit < 16
            invariant
                bit <= 16,
                start == old(self).queue.view(),
                start.len() <= 63,
                old_stable == old(self).side_stable,
                changed == new_stable ^ old_stable,
                self.wf(),
                self.queue.view() == push_all(
                    start,
                    side_events(old_stable, new_stable, self.simple_to_note@, bit as int),
                    63,
                ),
                self.sensors == old(self).sensors,
                self.side_hist == old(self).side_hist,
                self.side_stable == old(self).side_stable,
                self.sensor_to_note == old(self).sensor_to_note,
                self.simple_to_note == old(self).simple_to_note,
                self.pressure_raw == old(self).pressure_raw,
                self.pressure_dirty_mask == old(self).pressure_dirty_mask,
                self.pressure_capture_bank == old(self).pressure_capture_bank,
                self.pressure_capture_active == old(self).pressure_capture_active,
            decreases 16 - bit,
        {
            let mask: u16 = 1u16 << bit;
            proof {
                lemma_xor_bit(new_stable, old_stable, bit);
            }
            let ghost evs = side_events(old_stable, new_stable, self.simple_to_note@, bit as int);
            if changed & mask != 0 {
                let note = self.simple_to_note[bit as usize];
                if note != 0xff {
                    let event = if new_stable & mask != 0 {
                        GridEvent::Press { note, value: 127 }
                    } else {
                        GridEvent::Release { note }
                    };
                    let ghost before = self.queue.view();
                    self.queue_event(event);
                    proof {
                        assert(side_events(old_stable, new_stable, self.simple_to_note@, bit + 1)
                            == evs.push(event));
                        if before.len() < 63 {
                            assert(push_all(start, evs.push(event), 63) =~= before.push(event));
                        } else {
                            assert(push_all(start, evs.push(event), 63) =~= before);
                        }
                    }
                }
            }
            bit += 1;
        }
        self.side_stable = new_stable;
    }

    /// Reads every captured bank into its eight sensors, lowest bank first.
    pub fn service_pressure_foreground(&mut self)
        requires
            old(self).wf(),
        ensures
            final(self).wf(),
            pressure_serviced(*old(self), *final(self)),
    {
        let mask = self.pressure_dirty_mask;
        let ghost notes = self.sensor_to_note@;
        let ghost raw = raw_view(self.pressure_raw);
        let ghost start = (self.sensors@, self.queue.view());
        let mut bank: usize = 0;
        while bank < 8
            invariant
                bank <= 8,
                mask == old(self).pressure_dirty_mask,
                notes == old(self).sensor_to_note@,
                raw == raw_view(old(self).pressure_raw),
                start == (old(self).sensors@, old(self).queue.view()),
                self.wf(),
                (self.sensors@, self.queue.view()) == banks_apply(start, notes, raw, mask, bank as int),
                self.sensor_to_note == old(self).sensor_to_note,
                self.simple_to_note == old(self).simple_to_note,
                self.side_hist == old(self).side_hist,
                self.side_stable == old(self).side_stable,
                self.pressure_raw == old(self).pressure_raw,
                self.pressure_dirty_mask == old(self).pressure_dirty_mask,
                self.pressure_capture_bank == old(self).pressure_capture_bank,
                self.pressure_capture_active == old(self).pressure_capture_active,
            decreases 8 - bank,
        {
            if mask & (1u8 << (bank as u8)) != 0 {
                let ghost prev = (self.sensors@, self.queue.view());
                let raws = self.pressure_raw[bank];
                assert(raws@ == raw[bank as int]);
                let mut ch: usize = 0;
                while ch < 8
                    invariant
                        ch <= 8,
                        bank < 8,
                        raws@ == raw[bank as int],
                        notes == self.sensor_to_note@,
                        self.wf(),
                        (self.sensors@, self.queue.view()) == bank_apply(
                            prev,
                            notes,
                            raws@,
                            bank as int,
                            ch as int,
                        ),
                        self.sensor_to_note == old(self).sensor_to_note,
                        self.simple_to_note == old(self).simple_to_note,
                        self.side_hist == old(self).side_hist,
                        self.side_stable == old(self).side_stable,
                        self.pressure_raw == old(self).pressure_raw,
                        self.pressure_dirty_mask == old(self).pressure_dirty_mask,
                        self.pressure_capture_bank == old(self).pressure_capture_bank,
                        self.pressure_capture_active == old(self).pressure_capture_active,
                    decreases 8 - ch,
                {
                    self.update_grid_sensor(bank * 8 + ch, raws[ch]);
                    ch += 1;
                }
            }
            bank += 1;
        }
        self.pressure_dirty_mask = 0;
    }

    /// Starts capturing `bank` (0 to 7); `false`, changing nothing, for any
    /// other bank.
    pub fn start_pressure_capture(&mut self, bank: u8) -> (r: bool)
        ensures
            r == (bank < 8),
            r ==> final(self).pressure_capture_bank == bank && final(self).pressure_capture_active,
            !r ==> *final(self) == *old(self),
            final(self).sensors == old(self).sensors,
            final(self).queue == old(self).queue,
            final(self).pressure_raw == old(self).pressure_raw,
            final(self).pressure_dirty_mask == old(self).pressure_dirty_mask,
    {
        if bank >= 8 {
            return false;
        }
        self.pressure_capture_bank = bank;
        self.pressure_capture_active = true;
        true
    }

    /// Ends the capture of `bank` with the transfer's status and the eight
    /// ADC values; `false` while it is still running. A complete transfer
    /// keeps the 12-bit readings and marks the bank captured; a failed one is
    /// dropped. A bank that is not the one being captured is done at once.
    pub fn finish_pressure_capture(&mut self, bank: u8, status: CaptureStatus, adc: [u16; 8]) -> (r:
        bool)
        ensures
            (bank >= 8 || !old(self).pressure_capture_active || old(self).pressure_capture_bank
                != bank) ==> r && *final(self) == *old(self),
            !(bank >= 8 || !old(self).pressure_capture_active || old(self).pressure_capture_bank
                != bank) ==> match status {
                CaptureStatus::Busy => !r && *final(self) == *old(self),
                CaptureStatus::Error => r && final(self).pressure_capture_bank == 0xff
                    && !final(self).pressure_capture_active && final(self).pressure_raw
                    == old(self).pressure_raw && final(self).pressure_dirty_mask == old(self).pressure_dirty_mask,
                CaptureStatus::Complete => r && final(self).pressure_capture_bank == 0xff
                    && !final(self).pressure_capture_active && final(self).pressure_raw@ == old(self).pressure_raw@.update(bank as int, final(self).pressure_raw@[bank as int])
                    && (forall|ch: int|
                    0 <= ch < 8 ==> #[trigger] final(self).pressure_raw@[bank as int]@[ch] == adc@[ch]
                        & 0x0fff) && final(self).pressure_dirty_mask == old(self).pressure_dirty_mask | (1u8 << bank),
            },
            final(self).sensors == old(self).sensors,
            final(self).queue == old(self).queue,
            final(self).side_hist == old(self).side_hist,
            final(self).side_stable == old(self).side_stable,
            final(self).sensor_to_note == old(self).sensor_to_note,
            final(self).simple_to_note == old(self).simple_to_note,
    {
        if bank >= 8 || !self.pressure_capture_active || self.pressure_capture_bank != bank {
            return true;
        }
        match status {
            CaptureStatus::Busy => {
                return false;
            },
            CaptureStatus::Error => {
                self.pressure_capture_bank = 0xff;
                self.pressure_capture_active = false;
                return true;
            },
            CaptureStatus::Complete => {},
        }
        let mut row = [0u16; 8];
        let mut ch: usize = 0;
        while ch < 8
            invariant
                ch <= 8,
                forall|k: int| 0 <= k < ch ==> #[trigger] row@[k] == adc@[k] & 0x0fff,
            decreases 8 - ch,
        {
            row[ch] = adc[ch] & 0x0fff;
            ch += 1;
        }
        self.pressure_raw[bank as usize] = row;
        self.pressure_capture_bank = 0xff;
        self.pressure_capture_active = false;
        self.pressure_dirty_mask = self.pressure_dirty_mask | (1u8 << bank);
        true
    }

    /// Services the captured pressure and the side buttons, then takes the
    /// oldest queued event.
    pub fn pop_event(&mut self) -> (r: Option<GridEvent>)
        requires
            old(self).wf(),
        ensures
            final(self).wf(),
            exists|m1: Inputs, m2: Inputs|
                #![trigger pressure_serviced(*old(self), m1), side_serviced(m1, m2)]
                pressure_serviced(*old(self), m1) && side_serviced(m1, m2) && final(self).sensors
                    == m2.sensors && final(self).side_stable == m2.side_stable && final(self).pressure_dirty_mask == 0 && (if m2.queue.view().len() == 0 {
                    r is None && final(self).queue.view() == m2.queue.view()
                } else {
                    r == Some(m2.queue.view()[0]) && final(self).queue.view()
                        == m2.queue.view().drop_first()
                }),
    {
        self.service_pressure_foreground();
        let ghost m1 = *self;
        self.service_side_buttons_foreground();
        let ghost m2 = *self;
        let r = self.queue.pop();
        assert(pressure_serviced(*old(self), m1) && side_serviced(m1, m2));
        r
    }
}

} // verus!
