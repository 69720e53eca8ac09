//! The Launchpad Mini's surface: 81 bi-colour keys driven as three columns
//! of 56 LED bits with six bit-planes of brightness, and 80 switches read
//! through a shift register and debounced.

use vstd::prelude::*;
use crate::sys::driver::launchpad_s_and_mini::ring::Ring;

verus! {

/// Columns of the LED matrix.
pub const NCOLS: usize = 3;

/// LED bits per column.
pub const NLEDBITS: usize = 56;

/// LED bits in all.
pub const NLED: usize = 168;

/// Switches.
pub const NSW: usize = 80;

/// Bits of one switch scan.
pub const NSWBITS: usize = 96;

/// Bytes of one column's switch scan.
pub const NSWBYTES: usize = 4;

/// Bytes shifted out per column.
pub const LED_BYTES_PER_COL: usize = 7;

/// Slots of the event queue, which holds one less.
pub const EVENT_QUEUE_LEN: usize = 8;

/// Keys: 72 grid pads, 8 side buttons and the last one.
pub const NKEYS: usize = 81;

/// Timer ticks while the outputs are blank.
pub const BLANK_TICKS: u16 = 22;

/// Timer ticks of a shift step.
pub const SHIFT_TICKS: u16 = 15;

/// Timer ticks each bit-plane is lit.
pub const BRIGHT_TICKS: [u16; 6] = [2, 90, 6, 34, 10, 18];

/// The bit of the LED value each bit-plane shows.
pub const BIT_ORDER: [u8; 6] = [0, 5, 1, 4, 2, 3];

/// The order columns are driven in, three groups of three.
pub const COL_ORDER: [u8; 9] = [0, 1, 2, 1, 2, 0, 2, 0, 1];

/// The key each bit of a switch scan reads; 80 marks an unused bit.
pub const SWITCH_MAP: [u8; 96] = [
    0x06, 0x0f, 0x18, 0x21, 0x2a, 0x33, 0x3c, 0x45, 0x03, 0x0c, 0x15, 0x1e, 0x27, 0x30, 0x39, 0x42,
    0x00, 0x09, 0x12, 0x1b, 0x24, 0x2d, 0x36, 0x3f, 0x48, 0x4b, 0x4e, 0x50, 0x50, 0x50, 0x50, 0x50,
    0x07, 0x10, 0x19, 0x22, 0x2b, 0x34, 0x3d, 0x46, 0x04, 0x0d, 0x16, 0x1f, 0x28, 0x31, 0x3a, 0x43,
    0x01, 0x0a, 0x13, 0x1c, 0x25, 0x2e, 0x37, 0x40, 0x49, 0x4c, 0x4f, 0x50, 0x50, 0x50, 0x50, 0x50,
    0x08, 0x11, 0x1a, 0x23, 0x2c, 0x35, 0x3e, 0x47, 0x05, 0x0e, 0x17, 0x20, 0x29, 0x32, 0x3b, 0x44,
    0x02, 0x0b, 0x14, 0x1d, 0x26, 0x2f, 0x38, 0x41, 0x4a, 0x4d, 0x50, 0x50, 0x50, 0x50, 0x50, 0x50,
];

/// The LED bit of each key's green element.
pub const GRN_MAP: [u8; 81] = [
    0x1f, 0x57, 0x8f, 0x27, 0x5f, 0x97, 0x2f, 0x67, 0x9f, 0x1e, 0x56, 0x8e, 0x26, 0x5e, 0x96, 0x2e,
    0x66, 0x9e, 0x1d, 0x55, 0x8d, 0x25, 0x5d, 0x95, 0x2d, 0x65, 0x9d, 0x1c, 0x54, 0x8c, 0x24, 0x5c,
    0x94, 0x2c, 0x64, 0x9c, 0x17, 0x4f, 0x87, 0x0f, 0x47, 0x7f, 0x07, 0x3f, 0x77, 0x16, 0x4e, 0x86,
    0x0e, 0x46, 0x7e, 0x06, 0x3e, 0x76, 0x15, 0x4d, 0x85, 0x0d, 0x45, 0x7d, 0x05, 0x3d, 0x75, 0x14,
    0x4c, 0x84, 0x0c, 0x44, 0x7c, 0x04, 0x3c, 0x74, 0x37, 0x6f, 0xa7, 0x36, 0x6e, 0xa6, 0x35, 0x6d,
    0x30,
];

/// The LED bit of each key's red element.
pub const RED_MAP: [u8; 81] = [
    0x1b, 0x53, 0x8b, 0x23, 0x5b, 0x93, 0x2b, 0x63, 0x9b, 0x1a, 0x52, 0x8a, 0x22, 0x5a, 0x92, 0x2a,
    0x62, 0x9a, 0x19, 0x51, 0x89, 0x21, 0x59, 0x91, 0x29, 0x61, 0x99, 0x18, 0x50, 0x88, 0x20, 0x58,
    0x90, 0x28, 0x60, 0x98, 0x13, 0x4b, 0x83, 0x0b, 0x43, 0x7b, 0x03, 0x3b, 0x73, 0x12, 0x4a, 0x82,
    0x0a, 0x42, 0x7a, 0x02, 0x3a, 0x72, 0x11, 0x49, 0x81, 0x09, 0x41, 0x79, 0x01, 0x39, 0x71, 0x10,
    0x48, 0x80, 0x08, 0x40, 0x78, 0x00, 0x38, 0x70, 0x34, 0x6c, 0xa4, 0x33, 0x6b, 0xa3, 0x32, 0x6a,
    0x30,
];

/// A 6-bit LED value shown at a brightness level (0 to 7): off stays off,
/// full stays full at level 7, and the rest scales with the square of the
/// level plus five.
pub open spec fn scaled(value: u8, brightness: u8) -> u8 {
    let v: int = if value > 0x3f {
        0x3f
    } else {
        value as int
    };
    let x: int = if brightness > 7 {
        7
    } else {
        brightness as int
    };
    if v == 0 {
        0
    } else {
        (((v - 1) * (63 * (x + 5) * (x + 5) - 144)) / 8928int + 1) as u8
    }
}

/// A 6-bit LED value shown at a brightness level.
pub fn apply_led_brightness(value: u8, brightness: u8) -> (r: u8)
    ensures
        r == scaled(value, brightness),
        r <= 0x3f,
{
    let v: u8 = if value > 0x3f {
        0x3f
    } else {
        value
    };
    if v == 0 {
        return 0;
    }
    let x: u32 = if brightness > 7 {
        7
    } else {
        brightness as u32
    };
    assert(1575 <= 63 * (x + 5) * (x + 5) <= 9072) by (nonlinear_arith)
        requires
            x <= 7,
    ;
    let k: u32 = 63 * (x + 5) * (x + 5) - 144;
    let w: u32 = v as u32 - 1;
    assert(w * k <= 62 * 8928) by (nonlinear_arith)
        requires
            w <= 62,
            k <= 8928,
    ;
    let p: u32 = w * k;
    let q: u32 = p / (62 * 144);
    assert(q <= 62) by (nonlinear_arith)
        requires
            p <= 62 * 8928,
            q == p / 8928,
    ;
    (q + 1) as u8
}

/// The surface index (as `row * 10 + column`, bottom row 1) of a key: the
/// 72 pads of rows 1 to 8, first key top left, then the side buttons from
/// 91.
pub open spec fn key_index(key: int) -> u8 {
    if key < 72 {
        ((7 - key / 9 + 1) * 10 + (key % 9 + 1)) as u8
    } else {
        (91 + (key - 72)) as u8
    }
}

/// The key of a surface index, or `NKEYS` for an index with no key.
pub open spec fn index_key(index: u8) -> int {
    if 11 <= index <= 89 && index / 10 >= 1 && index % 10 >= 1 && index / 10 - 1 < 8 && index
        % 10 - 1 < 9 {
        (7 - (index / 10 - 1)) * 9 + (index % 10 - 1)
    } else if 91 <= index <= 98 {
        72 + (index - 91)
    } else if index == 99 {
        80
    } else {
        NKEYS as int
    }
}

/// The surface index of a key.
pub fn key_to_index(key: usize) -> (r: u8)
    requires
        key < NKEYS,
    ensures
        r == key_index(key as int),
{
    if key < 72 {
        let row = key / 9;
        let col = key % 9;
        let mirrored_row = 7 - row;
        ((mirrored_row + 1) * 10 + (col + 1)) as u8
    } else {
        91 + (key - 72) as u8
    }
}

/// The key of a surface index, or `NKEYS` for an index with no key.
pub fn index_to_key(index: u8) -> (r: usize)
    ensures
        r == index_key(index),
{
    if index >= 11 && index <= 89 {
        let row: usize = if index / 10 >= 1 {
            (index / 10 - 1) as usize
        } else {
            0
        };
        let col: usize = if index % 10 >= 1 {
            (index % 10 - 1) as usize
        } else {
            0
        };
        if index % 10 >= 1 && row < 8 && col < 9 {
            let mirrored_row = 7 - row;
            mirrored_row * 9 + col
        } else {
            NKEYS
        }
    } else if index >= 91 && index <= 98 {
        72 + (index - 91) as usize
    } else if index == 99 {
        80
    } else {
        NKEYS
    }
}

/// Every key has an index, and the index leads back to the key.
pub proof fn lemma_key_index_roundtrip(key: int)
    requires
        0 <= key < NKEYS,
    ensures
        index_key(key_index(key)) == key,
{
}

/// A switch went down (with a velocity) or up.
#[derive(Copy, Clone, Debug, PartialEq, Eq, Structural)]
pub enum SurfaceEvent {
    Press { index: u8, value: u8 },
    Release { index: u8 },
}

/// What the hardware does at a scan interrupt.
#[derive(Copy, Clone, Debug, PartialEq, Eq, Structural)]
pub enum ScanAction {
    /// Turn the LED outputs off and deselect every column.
    Blank,
    /// Shift the prepared bytes out to the LED drivers.
    ShiftOut,
    /// Select a column.
    SelectColumn(u8),
    /// Turn the LED outputs on.
    EnableOutput,
    /// Read the switches of a column and store them.
    ReadSwitches(u8),
    /// Nothing.
    Idle,
}

/// A 6-bit value: larger values are cut to 63.
pub open spec fn six_bits(v: u8) -> u8 {
    if v > 0x3f {
        0x3f
    } else {
        v
    }
}

/// The raw LED values after setting a key's red and green elements.
pub open spec fn set_key_raw(raw: Seq<u8>, key: int, r: u8, g: u8) -> Seq<u8> {
    raw.update(RED_MAP@[key] as int, six_bits(r)).update(GRN_MAP@[key] as int, six_bits(g))
}

/// The raw LED values after setting every surface index below `n` to red
/// `r` and green `g`, in order.
pub open spec fn fill_upto(raw: Seq<u8>, r: u8, g: u8, n: nat) -> Seq<u8>
    decreases n,
{
    if n == 0 {
        raw
    } else {
        let before = fill_upto(raw, r, g, (n - 1) as nat);
        let key = index_key((n - 1) as u8);
        if key < NKEYS {
            set_key_raw(before, key, r, g)
        } else {
            before
        }
    }
}

/// Bits of `n` LED bits from `start` that have `mask` set, lane `i` as
/// bit `i`.
pub open spec fn lane_bits(leds: Seq<u8>, start: int, mask: u8, n: nat) -> u8
    decreases n,
{
    if n == 0 {
        0
    } else {
        lane_bits(leds, start, mask, (n - 1) as nat) | (if leds[start + n - 1] & mask != 0 {
            1u8 << ((n - 1) as u8)
        } else {
            0u8
        })
    }
}

/// The mask of the LED value bit shown by bit-plane `bit`.
pub open spec fn plane_mask(bit: int) -> u8 {
    1u8 << BIT_ORDER@[bit]
}

/// The bytes shifted out for a column and bit-plane: a driver output is low
/// (lit) where the LED's value has the plane's bit.
pub open spec fn payload(leds: Seq<u8>, col: int, bit: int) -> Seq<u8> {
    Seq::new(
        LED_BYTES_PER_COL as nat,
        |byte: int| !lane_bits(leds, col * NLEDBITS + byte * 8, plane_mask(bit), 8),
    )
}

/// Column order position, bit-plane and column group after one column.
pub open spec fn advance(order: u8, bit: u8, group: u8) -> (u8, u8, u8) {
    if order + 1 < NCOLS {
        ((order + 1) as u8, bit, group)
    } else if bit + 1 < 6 {
        (0, (bit + 1) as u8, group)
    } else if group + 1 < NCOLS {
        (0, 0, (group + 1) as u8)
    } else {
        (0, 0, 0)
    }
}

/// A counter that stops at 255.
pub open spec fn bump(c: u8) -> u8 {
    if c == 255 {
        255
    } else {
        (c + 1) as u8
    }
}

/// One debounce step of a key: a switch goes down after three scans seen
/// pressed, and up after forty seen released. Gives the switch state, the
/// press and release counts, and whether it changed.
pub open spec fn key_step(sw: u8, pc: u8, rc: u8, pressed: bool) -> (u8, u8, u8, bool) {
    if pressed {
        if sw == 0 {
            if bump(pc) >= 3 {
                (1, 0, 0, true)
            } else {
                (0, bump(pc), 0, false)
            }
        } else {
            (sw, pc, 0, false)
        }
    } else {
        if sw != 0 {
            if bump(rc) >= 40 {
                (0, 0, 0, true)
            } else {
                (sw, 0, bump(rc), false)
            }
        } else {
            (sw, 0, rc, false)
        }
    }
}

/// A key's state after `n` scans that all read `pressed`, and whether it
/// changed at the last of them.
pub open spec fn key_steps(sw: u8, pc: u8, rc: u8, pressed: bool, n: nat) -> (u8, u8, u8, bool)
    decreases n,
{
    if n == 0 {
        (sw, pc, rc, false)
    } else {
        let p = key_steps(sw, pc, rc, pressed, (n - 1) as nat);
        key_step(p.0, p.1, p.2, pressed)
    }
}

/// The state of a released key after `n` pressed scans.
proof fn lemma_press_state(rc: u8, n: nat)
    ensures
        n == 0 ==> key_steps(0, 0, rc, true, n) == (0u8, 0u8, rc, false),
        n == 1 ==> key_steps(0, 0, rc, true, n) == (0u8, 1u8, 0u8, false),
        n == 2 ==> key_steps(0, 0, rc, true, n) == (0u8, 2u8, 0u8, false),
        n == 3 ==> key_steps(0, 0, rc, true, n) == (1u8, 0u8, 0u8, true),
        n > 3 ==> key_steps(0, 0, rc, true, n) == (1u8, 0u8, 0u8, false),
    decreases n,
{
    if n > 0 {
        lemma_press_state(rc, (n - 1) as nat);
    }
}

/// A released key held down goes down at its third scan, and only then.
pub proof fn lemma_press_after_three_scans(rc: u8, n: nat)
    requires
        n >= 1,
    ensures
        key_steps(0, 0, rc, true, n).3 == (n == 3),
        key_steps(0, 0, rc, true, n).0 == (if n >= 3 {
            1u8
        } else {
            0u8
        }),
{
    lemma_press_state(rc, n);
}

/// The state of a held key after `n` released scans.
proof fn lemma_release_state(pc: u8, n: nat)
    requires
        n >= 1,
    ensures
        n < 40 ==> key_steps(1, pc, 0, false, n) == (1u8, 0u8, n as u8, false),
        n == 40 ==> key_steps(1, pc, 0, false, n) == (0u8, 0u8, 0u8, true),
        n > 40 ==> key_steps(1, pc, 0, false, n) == (0u8, 0u8, 0u8, false),
    decreases n,
{
    if n > 1 {
        lemma_release_state(pc, (n - 1) as nat);
    } else {
        assert(key_steps(1, pc, 0, false, 0) == (1u8, pc, 0u8, false));
    }
}

/// A held key let go goes up at its fortieth released scan, and only then.
pub proof fn lemma_release_after_forty_scans(pc: u8, n: nat)
    requires
        n >= 1,
    ensures
        key_steps(1, pc, 0, false, n).3 == (n == 40),
        key_steps(1, pc, 0, false, n).0 == (if n >= 40 {
            0u8
        } else {
            1u8
        }),
{
    lemma_release_state(pc, n);
}

/// The scan bit that reads key `key`.
pub open spec fn key_bit(key: int) -> int {
    if key < 72 {
        32 * ((key % 9) % 3) + 8 * (2 - (key % 9) / 3) + key / 9
    } else {
        24 + 32 * ((key - 72) % 3) + (key - 72) / 3
    }
}

/// Each key is read by exactly one scan bit, `key_bit(key)`.
pub proof fn lemma_switch_map_one_bit_per_key()
    ensures
        forall|b: int|
            0 <= b < NSWBITS && SWITCH_MAP@[b] < NSW ==> key_bit(#[trigger] SWITCH_MAP@[b] as int)
                == b,
        forall|k: int| 0 <= k < NSW ==> 0 <= #[trigger] key_bit(k) < NSWBITS && SWITCH_MAP@[key_bit(k)] == k,
{
}

/// Whether scan bit `bit` reads its switch pressed.
pub open spec fn scan_pressed(scan: Seq<u8>, bit: int) -> bool {
    scan[bit / 8] & (0x80u8 >> ((bit % 8) as u8)) != 0
}

/// The event of a key changing to `pressed`.
pub open spec fn key_event(key: int, pressed: bool) -> SurfaceEvent {
    if pressed {
        SurfaceEvent::Press { index: key_index(key), value: 127 }
    } else {
        SurfaceEvent::Release { index: key_index(key) }
    }
}

/// Switch states, press and release counts, and events after debouncing
/// the first `n` scan bits, in order.
pub open spec fn debounce_upto(
    sw: Seq<u8>,
    pc: Seq<u8>,
    rc: Seq<u8>,
    scan: Seq<u8>,
    n: nat,
) -> (Seq<u8>, Seq<u8>, Seq<u8>, Seq<SurfaceEvent>)
    decreases n,
{
    if n == 0 {
        (sw, pc, rc, Seq::empty())
    } else {
        let (a, b, c, e) = debounce_upto(sw, pc, rc, scan, (n - 1) as nat);
        let key = SWITCH_MAP@[n - 1] as int;
        if key >= NSW {
            (a, b, c, e)
        } else {
            let pressed = scan_pressed(scan, n - 1);
            let (s2, p2, r2, changed) = key_step(a[key], b[key], c[key], pressed);
            (
                a.update(key, s2),
                b.update(key, p2),
                c.update(key, r2),
                if changed {
                    e.push(key_event(key, pressed))
                } else {
                    e
                },
            )
        }
    }
}

/// The surface index an event is about.
pub open spec fn event_index(e: SurfaceEvent) -> u8 {
    match e {
        SurfaceEvent::Press { index, .. } => index,
        SurfaceEvent::Release { index } => index,
    }
}

/// The events of `es` about surface index `index`, in order.
pub open spec fn events_for(es: Seq<SurfaceEvent>, index: u8) -> Seq<SurfaceEvent>
    decreases es.len(),
{
    if es.len() == 0 {
        Seq::empty()
    } else {
        let r = events_for(es.drop_last(), index);
        if event_index(es.last()) == index {
            r.push(es.last())
        } else {
            r
        }
    }
}

/// Debouncing the first `n` scan bits leaves key `key` as it was until its
/// own bit is reached, then takes one debounce step on that bit's reading;
/// an event about the key comes exactly when that step changes it.
proof fn lemma_debounce_upto_key(
    sw: Seq<u8>,
    pc: Seq<u8>,
    rc: Seq<u8>,
    scan: Seq<u8>,
    n: nat,
    key: int,
)
    requires
        sw.len() == NSW,
        pc.len() == NSW,
        rc.len() == NSW,
        n <= NSWBITS,
        0 <= key < NSW,
    ensures
        ({
            let (a, b, c, e) = debounce_upto(sw, pc, rc, scan, n);
            let pressed = scan_pressed(scan, key_bit(key));
            let st = key_step(sw[key], pc[key], rc[key], pressed);
            &&& a.len() == NSW && b.len() == NSW && c.len() == NSW
            &&& n <= key_bit(key) ==> a[key] == sw[key] && b[key] == pc[key] && c[key] == rc[key]
                && events_for(e, key_index(key)) == Seq::<SurfaceEvent>::empty()
            &&& n > key_bit(key) ==> a[key] == st.0 && b[key] == st.1 && c[key] == st.2
                && events_for(e, key_index(key)) == (if st.3 {
                seq![key_event(key, pressed)]
            } else {
                Seq::<SurfaceEvent>::empty()
            })
        }),
    decreases n,
{
    lemma_switch_map_one_bit_per_key();
    if n > 0 {
        lemma_debounce_upto_key(sw, pc, rc, scan, (n - 1) as nat, key);
        let (a0, b0, c0, e0) = debounce_upto(sw, pc, rc, scan, (n - 1) as nat);
        let (a, b, c, e) = debounce_upto(sw, pc, rc, scan, n);
        let k = SWITCH_MAP@[n - 1] as int;
        if k < NSW {
            let pr = scan_pressed(scan, n - 1);
            let st = key_step(a0[k], b0[k], c0[k], pr);
            if k == key {
                assert(key_bit(key) == n - 1);
                if st.3 {
                    assert(e == e0.push(key_event(k, pr)));
                    assert(event_index(key_event(k, pr)) == key_index(key));
                    assert(e.drop_last() == e0);
                }
            } else {
                assert(key_bit(key) != n - 1);
                if st.3 {
                    lemma_key_index_roundtrip(k);
                    lemma_key_index_roundtrip(key);
                    assert(event_index(key_event(k, pr)) == key_index(k));
                    assert(e == e0.push(key_event(k, pr)));
                    assert(e.drop_last() == e0);
                }
            }
        }
    }
}

/// `t` holds the switch states and counts that a tick leaves on `s`.
pub open spec fn ticked(s: Surface, t: Surface) -> bool {
    let (a, b, c, e) = debounce_upto(
        s.switches@,
        s.press_count@,
        s.release_count@,
        s.switch_scan@,
        NSWBITS as nat,
    );
    &&& t.switches@ == a
    &&& t.press_count@ == b
    &&& t.release_count@ == c
}

/// The events a tick on `s` detects about key `key`, in order.
pub open spec fn tick_events(s: Surface, key: int) -> Seq<SurfaceEvent> {
    events_for(
        debounce_upto(
            s.switches@,
            s.press_count@,
            s.release_count@,
            s.switch_scan@,
            NSWBITS as nat,
        ).3,
        key_index(key),
    )
}

/// Whether the scan that a tick on `s` debounces reads key `key` pressed.
pub open spec fn reads_pressed(s: Surface, key: int) -> bool {
    scan_pressed(s.switch_scan@, key_bit(key))
}

/// Over ticks whose scans all read key `key` the same way, the key's state
/// follows its debounce steps, and each tick detects an event about it
/// exactly when that step changes it.
proof fn lemma_ticks_follow_key_steps(ss: Seq<Surface>, key: int, pressed: bool, i: nat)
    requires
        0 <= key < NSW,
        i < ss.len(),
        forall|j: int| 0 <= j < ss.len() - 1 ==> ticked(#[trigger] ss[j], ss[j + 1]),
        forall|j: int| 0 <= j < ss.len() - 1 ==> reads_pressed(#[trigger] ss[j], key) == pressed,
    ensures
        ({
            let k = key_steps(
                ss[0].switches@[key],
                ss[0].press_count@[key],
                ss[0].release_count@[key],
                pressed,
                i,
            );
            &&& ss[i as int].switches@[key] == k.0
            &&& ss[i as int].press_count@[key] == k.1
            &&& ss[i as int].release_count@[key] == k.2
        }),
        i + 1 < ss.len() ==> tick_events(ss[i as int], key) == (if key_steps(
            ss[0].switches@[key],
            ss[0].press_count@[key],
            ss[0].release_count@[key],
            pressed,
            i + 1,
        ).3 {
            seq![key_event(key, pressed)]
        } else {
            Seq::<SurfaceEvent>::empty()
        }),
    decreases i,
{
    lemma_switch_map_one_bit_per_key();
    if i > 0 {
        lemma_ticks_follow_key_steps(ss, key, pressed, (i - 1) as nat);
        let s = ss[i - 1];
        assert(ticked(s, ss[i as int]));
        assert(reads_pressed(s, key) == pressed);
        lemma_debounce_upto_key(
            s.switches@,
            s.press_count@,
            s.release_count@,
            s.switch_scan@,
            NSWBITS as nat,
            key,
        );
    }
    if i + 1 < ss.len() {
        let s = ss[i as int];
        assert(reads_pressed(s, key) == pressed);
        lemma_debounce_upto_key(
            s.switches@,
            s.press_count@,
            s.release_count@,
            s.switch_scan@,
            NSWBITS as nat,
            key,
        );
    }
}

/// A released key (one whose press count is back at zero, as after any
/// released reading) that ticks read pressed goes down at the third tick:
/// a press at full velocity is detected there and at no other of them.
pub proof fn lemma_key_press_detected_at_third_tick(ss: Seq<Surface>, key: int)
    requires
        0 <= key < NSW,
        ss.len() >= 1,
        ss[0].switches@[key] == 0,
        ss[0].press_count@[key] == 0,
        forall|j: int| 0 <= j < ss.len() - 1 ==> ticked(#[trigger] ss[j], ss[j + 1]),
        forall|j: int| 0 <= j < ss.len() - 1 ==> reads_pressed(#[trigger] ss[j], key),
    ensures
        forall|i: int|
            0 <= i < ss.len() - 1 ==> #[trigger] tick_events(ss[i], key) == (if i == 2 {
                seq![SurfaceEvent::Press { index: key_index(key), value: 127 }]
            } else {
                Seq::<SurfaceEvent>::empty()
            }),
        ss.last().switches@[key] == (if ss.len() >= 4 {
            1u8
        } else {
            0u8
        }),
{
    let rc = ss[0].release_count@[key];
    assert forall|i: int| 0 <= i < ss.len() - 1 implies #[trigger] tick_events(ss[i], key) == (
    if i == 2 {
        seq![SurfaceEvent::Press { index: key_index(key), value: 127 }]
    } else {
        Seq::<SurfaceEvent>::empty()
    }) by {
        lemma_ticks_follow_key_steps(ss, key, true, i as nat);
        lemma_press_state(rc, (i + 1) as nat);
    }
    lemma_ticks_follow_key_steps(ss, key, true, (ss.len() - 1) as nat);
    lemma_press_state(rc, (ss.len() - 1) as nat);
}

/// A held key (one whose release count is at zero, as after any pressed
/// reading, since a pressed reading of a held key starts the count over)
/// that ticks read released goes up at the fortieth tick: a release is
/// detected there and at no other of them.
pub proof fn lemma_key_release_detected_at_fortieth_tick(ss: Seq<Surface>, key: int)
    requires
        0 <= key < NSW,
        ss.len() >= 1,
        ss[0].switches@[key] == 1,
        ss[0].release_count@[key] == 0,
        forall|j: int| 0 <= j < ss.len() - 1 ==> ticked(#[trigger] ss[j], ss[j + 1]),
        forall|j: int| 0 <= j < ss.len() - 1 ==> !reads_pressed(#[trigger] ss[j], key),
    ensures
        forall|i: int|
            0 <= i < ss.len() - 1 ==> #[trigger] tick_events(ss[i], key) == (if i == 39 {
                seq![SurfaceEvent::Release { index: key_index(key) }]
            } else {
                Seq::<SurfaceEvent>::empty()
            }),
        ss.last().switches@[key] == (if ss.len() >= 41 {
            0u8
        } else {
            1u8
        }),
        forall|pc: u8, rc: u8| #[trigger] key_step(1, pc, rc, true) == (1u8, pc, 0u8, false),
{
    let pc = ss[0].press_count@[key];
    assert forall|i: int| 0 <= i < ss.len() - 1 implies #[trigger] tick_events(ss[i], key) == (
    if i == 39 {
        seq![SurfaceEvent::Release { index: key_index(key) }]
    } else {
        Seq::<SurfaceEvent>::empty()
    }) by {
        lemma_ticks_follow_key_steps(ss, key, false, i as nat);
        lemma_release_state(pc, (i + 1) as nat);
    }
    lemma_ticks_follow_key_steps(ss, key, false, (ss.len() - 1) as nat);
    if ss.len() > 1 {
        lemma_release_state(pc, (ss.len() - 1) as nat);
    }
}

/// The queue after offering `es` in order: an event finds room while fewer
/// than seven are queued, and is dropped otherwise.
pub open spec fn enqueue_all(q: Seq<SurfaceEvent>, es: Seq<SurfaceEvent>) -> Seq<SurfaceEvent>
    decreases es.len(),
{
    if es.len() == 0 {
        q
    } else {
        let before = enqueue_all(q, es.drop_last());
        if before.len() < EVENT_QUEUE_LEN - 1 {
            before.push(es.last())
        } else {
            before
        }
    }
}

/// How many of `n` offered events find room in a queue holding `queued`.
pub open spec fn admitted(queued: nat, n: nat) -> nat {
    let room = (EVENT_QUEUE_LEN - 1 - queued) as nat;
    if n < room {
        n
    } else {
        room
    }
}

/// Offering events keeps the queued ones first and in order, then takes
/// the offered ones in the order they came while there is room; once seven
/// are pending, every further event is dropped.
pub proof fn lemma_enqueue_keeps_order(q: Seq<SurfaceEvent>, es: Seq<SurfaceEvent>)
    requires
        q.len() <= EVENT_QUEUE_LEN - 1,
    ensures
        enqueue_all(q, es) == q + es.take(admitted(q.len(), es.len()) as int),
    decreases es.len(),
{
    if es.len() > 0 {
        let init = es.drop_last();
        lemma_enqueue_keeps_order(q, init);
        let k0 = admitted(q.len(), init.len());
        assert(init.take(k0 as int) =~= es.take(k0 as int));
        if k0 == init.len() && init.len() < EVENT_QUEUE_LEN - 1 - q.len() {
            assert(es.take(k0 as int).push(es.last()) =~= es.take(es.len() as int));
            assert((q + es.take(k0 as int)).push(es.last()) =~= q + es.take(es.len() as int));
        }
    }
}

/// What `n` successive polls of a queue holding `q` return, as each poll's
/// contract gives it.
pub open spec fn poll_results(q: Seq<SurfaceEvent>, n: nat) -> Seq<Option<SurfaceEvent>>
    decreases n,
{
    if n == 0 {
        Seq::empty()
    } else if q.len() == 0 {
        seq![None].add(poll_results(q, (n - 1) as nat))
    } else {
        seq![Some(q[0])].add(poll_results(q.drop_first(), (n - 1) as nat))
    }
}

/// Successive polls hand the queued events out oldest first, each once,
/// and then nothing.
pub proof fn lemma_polls_in_order(q: Seq<SurfaceEvent>, n: nat)
    ensures
        poll_results(q, n).len() == n,
        forall|i: int|
            0 <= i < n ==> #[trigger] poll_results(q, n)[i] == (if i < q.len() {
                Some(q[i])
            } else {
                None
            }),
    decreases n,
{
    if n > 0 {
        if q.len() == 0 {
            lemma_polls_in_order(q, (n - 1) as nat);
            assert forall|i: int| 0 <= i < n implies #[trigger] poll_results(q, n)[i] == (if i
                < q.len() {
                Some(q[i])
            } else {
                None
            }) by {
                if i > 0 {
                    assert(poll_results(q, n)[i] == poll_results(q, (n - 1) as nat)[i - 1]);
                }
            }
        } else {
            let rest = q.drop_first();
            lemma_polls_in_order(rest, (n - 1) as nat);
            assert forall|i: int| 0 <= i < n implies #[trigger] poll_results(q, n)[i] == (if i
                < q.len() {
                Some(q[i])
            } else {
                None
            }) by {
                if i > 0 {
                    assert(poll_results(q, n)[i] == poll_results(rest, (n - 1) as nat)[i - 1]);
                    assert(i - 1 < rest.len() ==> rest[i - 1] == q[i]);
                }
            }
        }
    }
}

/// The surface: LED values as set and as shown, switch debouncing, queued
/// events, and the position of the LED scan.
pub struct Surface {
    pub leds: [u8; 168],
    pub raw_leds: [u8; 168],
    pub switches: [u8; 80],
    pub press_count: [u8; 80],
    pub release_count: [u8; 80],
    pub switch_scan: [u8; 12],
    pub events: Ring<SurfaceEvent, 8>,
    pub tx: [u8; 7],
    pub rx: [u8; 7],
    pub col: u8,
    pub col_group: u8,
    pub col_order: u8,
    pub bit: u8,
    pub phase: u8,
    pub brightness: u8,
}

impl Surface {
    /// The shown values are the set values at the brightness; the scan
    /// position is within its ranges and the column follows the order.
    pub open spec fn wf(self) -> bool {
        &&& self.events.wf()
        &&& self.col_group < NCOLS
        &&& self.col_order < NCOLS
        &&& self.bit < 6
        &&& self.col == COL_ORDER@[self.col_group * 3 + self.col_order]
        &&& self.brightness <= 7
        &&& forall|i: int| 0 <= i < NLED ==> #[trigger] self.leds@[i] == scaled(self.raw_leds@[i], self.brightness)
    }

    /// All LEDs off, no switch down, no events, scan at its start,
    /// brightness 7.
    pub fn new() -> (r: Surface)
        ensures
            r.wf(),
            r.raw_leds@ == Seq::new(168, |i: int| 0u8),
            r.switches@ == Seq::new(80, |i: int| 0u8),
            r.press_count@ == Seq::new(80, |i: int| 0u8),
            r.release_count@ == Seq::new(80, |i: int| 0u8),
            r.switch_scan@ == Seq::new(12, |i: int| 0u8),
            r.leds@ == Seq::new(168, |i: int| 0u8),
            r.tx@ == Seq::new(7, |i: int| 0xffu8),
            r.rx@ == Seq::new(7, |i: int| 0xffu8),
            r.events.view() == Seq::<SurfaceEvent>::empty(),
            r.phase == 0 && r.col == 0 && r.bit == 0,
            r.col_group == 0 && r.col_order == 0,
            r.brightness == 7,
    {
        let r = Surface {
            leds: [0; 168],
            raw_leds: [0; 168],
            switches: [0; 80],
            press_count: [0; 80],
            release_count: [0; 80],
            switch_scan: [0; 12],
            events: Ring::new(SurfaceEvent::Release { index: 0 }),
            tx: [0xff; 7],
            rx: [0xff; 7],
            col: 0,
            col_group: 0,
            col_order: 0,
            bit: 0,
            phase: 0,
            brightness: 7,
        };
        assert(r.raw_leds@ =~= Seq::new(168, |i: int| 0u8));
        assert(r.switches@ =~= Seq::new(80, |i: int| 0u8));
        assert(r.press_count@ =~= Seq::new(80, |i: int| 0u8));
        assert(r.release_count@ =~= Seq::new(80, |i: int| 0u8));
        assert(r.switch_scan@ =~= Seq::new(12, |i: int| 0u8));
        assert(r.leds@ =~= Seq::new(168, |i: int| 0u8));
        assert(r.tx@ =~= Seq::new(7, |i: int| 0xffu8));
        assert(r.rx@ =~= Seq::new(7, |i: int| 0xffu8));
        r
    }

    /// The brightness level.
    pub fn brightness(&self) -> (r: u8)
        ensures
            r == self.brightness,
    {
        self.brightness
    }

    /// Sets the brightness (at most 7) and shows every LED at it.
    pub fn set_brightness(&mut self, brightness: u8)
        requires
            old(self).wf(),
        ensures
            final(self).wf(),
            final(self).brightness == (if brightness > 7 {
                7
            } else {
                brightness
            }),
            final(self).raw_leds == old(self).raw_leds,
            final(self).events == old(self).events,
    {
        self.brightness = if brightness > 7 {
            7
        } else {
            brightness
        };
        self.rebuild_scaled_leds();
    }

    /// Shows every LED at the current brightness.
    fn rebuild_scaled_leds(&mut self)
        requires
            old(self).events.wf(),
            old(self).col_group < NCOLS,
            old(self).col_order < NCOLS,
            old(self).bit < 6,
            old(self).col == COL_ORDER@[old(self).col_group * 3 + old(self).col_order],
            old(self).brightness <= 7,
        ensures
            final(self).wf(),
            final(self).brightness == old(self).brightness,
            final(self).raw_leds == old(self).raw_leds,
            final(self).events == old(self).events,
    {
        let mut i: usize = 0;
        while i < NLED
            invariant
                i <= NLED,
                self.events.wf(),
                self.col_group < NCOLS,
                self.col_order < NCOLS,
                self.bit < 6,
                self.col == COL_ORDER@[self.col_group * 3 + self.col_order],
                self.brightness <= 7,
                self.brightness == old(self).brightness,
                self.raw_leds == old(self).raw_leds,
                self.events == old(self).events,
                forall|k: int| 0 <= k < i ==> #[trigger] self.leds@[k] == scaled(self.raw_leds@[k], self.brightness),
            decreases NLED - i,
        {
            let v = apply_led_brightness(self.raw_leds[i], self.brightness);
            self.leds[i] = v;
            i = i + 1;
        }
    }

    /// Sets a key's red and green elements (6 bits each).
    #[verifier::rlimit(40)]
    fn set_key_rgb(&mut self, key: usize, r: u8, g: u8)
        requires
            old(self).wf(),
            key < NKEYS,
        ensures
            final(self).wf(),
            final(self).raw_leds@ == set_key_raw(old(self).raw_leds@, key as int, r, g),
            final(self).brightness == old(self).brightness,
            final(self).events == old(self).events,
            final(self).switches == old(self).switches,
    {
        let r_idx = RED_MAP[key] as usize;
        let g_idx = GRN_MAP[key] as usize;
        let r6 = if r > 0x3f {
            0x3f
        } else {
            r
        };
        let g6 = if g > 0x3f {
            0x3f
        } else {
            g
        };
        self.raw_leds[r_idx] = r6;
        self.raw_leds[g_idx] = g6;
        let rs = apply_led_brightness(r, self.brightness);
        let gs = apply_led_brightness(g, self.brightness);
        self.leds[r_idx] = rs;
        self.leds[g_idx] = gs;
    }

    /// Sets the LED of a surface index to red `r` and green `g`; the blue
    /// component does not exist on this device. Indices with no key are
    /// ignored.
    pub fn set_rgb_led(&mut self, index: u8, r: u8, g: u8, b: u8)
        requires
            old(self).wf(),
        ensures
            final(self).wf(),
            index_key(index) < NKEYS ==> final(self).raw_leds@ == set_key_raw(
                old(self).raw_leds@,
                index_key(index),
                r,
                g,
            ),
            index_key(index) >= NKEYS ==> final(self).raw_leds == old(self).raw_leds,
            final(self).brightness == old(self).brightness,
            final(self).events == old(self).events,
            final(self).switches == old(self).switches,
    {
        let key = index_to_key(index);
        if key >= NKEYS {
            return;
        }
        self.set_key_rgb(key, r, g);
    }

    /// Sets every key to the red and green of a 24-bit colour, taking the top
    /// six bits of each.
    pub fn fill(&mut self, rgb: u32)
        requires
            old(self).wf(),
        ensures
            final(self).wf(),
            final(self).raw_leds@ == fill_upto(
                old(self).raw_leds@,
                ((rgb >> 18u32) & 0x3f) as u8,
                ((rgb >> 10u32) & 0x3f) as u8,
                100,
            ),
            final(self).brightness == old(self).brightness,
            final(self).events == old(self).events,
    {
        let r = ((rgb >> 18) & 0x3f) as u8;
        let g = ((rgb >> 10) & 0x3f) as u8;
        let mut index: u8 = 0;
        while index < 100
            invariant
                index <= 100,
                self.wf(),
                self.raw_leds@ == fill_upto(old(self).raw_leds@, r, g, index as nat),
                self.brightness == old(self).brightness,
                self.events == old(self).events,
            decreases 100 - index,
        {
            self.set_rgb_led(index, r, g, 0);
            index = index + 1;
        }
    }

    /// Takes the oldest queued event.
    pub fn poll_event(&mut self) -> (r: Option<SurfaceEvent>)
        requires
            old(self).wf(),
        ensures
            final(self).wf(),
            old(self).events.view().len() == 0 ==> r is None && final(self).events.view() == old(self).events.view(),
            old(self).events.view().len() > 0 ==> r == Some(old(self).events.view()[0])
                && final(self).events.view() == old(self).events.view().drop_first(),
            old(self).events.view().len() == 0 ==> *final(self) == *old(self),
            *final(self) == (Surface { events: final(self).events, ..*old(self) }),
    {
        self.events.pop()
    }

    /// The bytes to shift out for the current column and bit-plane.
    fn prepare_shift_payload(&mut self)
        requires
            old(self).col < NCOLS,
            old(self).bit < 6,
        ensures
            final(self).tx@ == payload(old(self).leds@, old(self).col as int, old(self).bit as int),
            *final(self) == (Surface { tx: final(self).tx, ..*old(self) }),
    {
        let base = self.col as usize * NLEDBITS;
        let mask: u8 = 1u8 << BIT_ORDER[self.bit as usize];
        let ghost want = payload(self.leds@, self.col as int, self.bit as int);
        let mut byte: usize = 0;
        while byte < LED_BYTES_PER_COL
            invariant
                byte <= LED_BYTES_PER_COL,
                base == self.col * NLEDBITS,
                self.col < NCOLS,
                self.bit < 6,
                mask == plane_mask(self.bit as int),
                want == payload(self.leds@, self.col as int, self.bit as int),
                forall|k: int| 0 <= k < byte ==> #[trigger] self.tx@[k] == want[k],
                *self == (Surface { tx: self.tx, ..*old(self) }),
            decreases LED_BYTES_PER_COL - byte,
        {
            let mut bits: u8 = 0;
            let mut lane: u8 = 0;
            while lane < 8
                invariant
                    lane <= 8,
                    byte < LED_BYTES_PER_COL,
                    base == self.col * NLEDBITS,
                    self.col < NCOLS,
                    bits == lane_bits(self.leds@, base + byte * 8, mask, lane as nat),
                decreases 8 - lane,
            {
                let add: u8 = if self.leds[base + byte * 8 + lane as usize] & mask != 0 {
                    1u8 << lane
                } else {
                    0
                };
                bits = bits | add;
                lane = lane + 1;
            }
            self.tx[byte] = !bits;
            byte = byte + 1;
        }
        assert(self.tx@ =~= want);
    }

    /// Moves to the next column of the order, and after the three columns
    /// of a group to the next bit-plane, and after the six planes to the
    /// next group.
    fn advance_scan(&mut self)
        requires
            old(self).col_group < NCOLS,
            old(self).col_order < NCOLS,
            old(self).bit < 6,
        ensures
            (final(self).col_order, final(self).bit, final(self).col_group) == advance(
                old(self).col_order,
                old(self).bit,
                old(self).col_group,
            ),
            final(self).col == COL_ORDER@[final(self).col_group * 3 + final(self).col_order],
            *final(self) == (Surface {
                col: final(self).col,
                col_order: final(self).col_order,
                bit: final(self).bit,
                col_group: final(self).col_group,
                ..*old(self)
            }),
    {
        self.col_order = self.col_order + 1;
        if self.col_order >= NCOLS as u8 {
            self.col_order = 0;
            self.bit = self.bit + 1;
            if self.bit >= 6 {
                self.bit = 0;
                self.col_group = self.col_group + 1;
                if self.col_group >= NCOLS as u8 {
                    self.col_group = 0;
                }
            }
        }
        let order_index = self.col_group as usize * NCOLS + self.col_order as usize;
        self.col = COL_ORDER[order_index];
    }

    /// One scan interrupt: says what the hardware does now and how many
    /// timer ticks until the next. The five phases are: blank (with the next
    /// bytes prepared), shift out, select the column (lit for the plane's
    /// time), enable the outputs, and read the column's switches on planes
    /// 1, 3 and 5 before moving to the next column.
    pub fn isr_step(&mut self) -> (r: (u16, ScanAction))
        requires
            old(self).wf(),
        ensures
            final(self).wf(),
            final(self).raw_leds == old(self).raw_leds,
            final(self).events == old(self).events,
            final(self).switches == old(self).switches,
            old(self).phase == 0 ==> r == (SHIFT_TICKS, ScanAction::Blank) && final(self).phase == 1
                && final(self).tx@ == payload(old(self).leds@, old(self).col as int, old(self).bit as int),
            old(self).phase == 1 ==> r == (SHIFT_TICKS, ScanAction::ShiftOut) && final(self).phase
                == 2,
            old(self).phase == 2 ==> r == (BRIGHT_TICKS@[old(self).bit as int], ScanAction::SelectColumn(old(self).col))
                && final(self).phase == 3,
            old(self).phase == 3 ==> r == (SHIFT_TICKS, ScanAction::EnableOutput) && final(self).phase
                == 4,
            old(self).phase >= 4 ==> r == (SHIFT_TICKS, if old(self).bit == 1 || old(self).bit == 3
                || old(self).bit == 5 {
                ScanAction::ReadSwitches(old(self).col)
            } else {
                ScanAction::Idle
            }) && final(self).phase == 0 && (final(self).col_order, final(self).bit, final(self).col_group)
                == advance(old(self).col_order, old(self).bit, old(self).col_group),
            old(self).phase < 4 ==> final(self).col == old(self).col && final(self).bit == old(self).bit,
    {
        if self.phase == 0 {
            self.prepare_shift_payload();
            self.phase = 1;
            (SHIFT_TICKS, ScanAction::Blank)
        } else if self.phase == 1 {
            self.phase = 2;
            (SHIFT_TICKS, ScanAction::ShiftOut)
        } else if self.phase == 2 {
            let ticks = BRIGHT_TICKS[self.bit as usize];
            self.phase = 3;
            (ticks, ScanAction::SelectColumn(self.col))
        } else if self.phase == 3 {
            self.phase = 4;
            (SHIFT_TICKS, ScanAction::EnableOutput)
        } else {
            let action = if self.bit == 1 || self.bit == 3 || self.bit == 5 {
                ScanAction::ReadSwitches(self.col)
            } else {
                ScanAction::Idle
            };
            self.advance_scan();
            self.phase = 0;
            (SHIFT_TICKS, action)
        }
    }

    /// Stores the switch bytes read for column `col`.
    pub fn store_switch_scan(&mut self, col: u8, bytes: [u8; 4])
        requires
            col < NCOLS,
        ensures
            final(self).switch_scan@ == old(self).switch_scan@.take(col * 4) + bytes@ + old(self).switch_scan@.skip(col * 4 + 4),
            *final(self) == (Surface { switch_scan: final(self).switch_scan, ..*old(self) }),
    {
        let base = col as usize * NSWBYTES;
        let mut i: usize = 0;
        while i < NSWBYTES
            invariant
                i <= NSWBYTES,
                base == col * 4,
                col < NCOLS,
                self.switch_scan@ == old(self).switch_scan@.take(col * 4) + bytes@.take(i as int)
                    + old(self).switch_scan@.skip(col * 4 + i),
                *self == (Surface { switch_scan: self.switch_scan, ..*old(self) }),
            decreases NSWBYTES - i,
        {
            self.switch_scan[base + i] = bytes[i];
            i = i + 1;
            assert(self.switch_scan@ =~= old(self).switch_scan@.take(col * 4) + bytes@.take(i as int)
                + old(self).switch_scan@.skip(col * 4 + i));
        }
        assert(bytes@.take(4) =~= bytes@);
    }

    /// Queues an event unless the queue is full.
    fn push_event(&mut self, event: SurfaceEvent)
        requires
            old(self).events.wf(),
        ensures
            final(self).events.wf(),
            final(self).events.view() == (if old(self).events.view().len() < EVENT_QUEUE_LEN - 1 {
                old(self).events.view().push(event)
            } else {
                old(self).events.view()
            }),
            *final(self) == (Surface { events: final(self).events, ..*old(self) }),
    {
        self.events.push(event);
    }

    /// Debounces every switch from the last scan, queueing an event for
    /// each that went down or up.
    fn debounce_switches(&mut self)
        requires
            old(self).wf(),
        ensures
            final(self).wf(),
            ({
                let (a, b, c, e) = debounce_upto(
                    old(self).switches@,
                    old(self).press_count@,
                    old(self).release_count@,
                    old(self).switch_scan@,
                    NSWBITS as nat,
                );
                &&& final(self).switches@ == a
                &&& final(self).press_count@ == b
                &&& final(self).release_count@ == c
                &&& final(self).events.view() == enqueue_all(old(self).events.view(), e)
            }),
            final(self).raw_leds == old(self).raw_leds,
            final(self).brightness == old(self).brightness,
    {
        let ghost mut produced: Seq<SurfaceEvent> = Seq::empty();
        let ghost q0 = self.events.view();
        let mut bit: usize = 0;
        while bit < NSWBITS
            invariant
                bit <= NSWBITS,
                self.wf(),
                self.raw_leds == old(self).raw_leds,
                self.brightness == old(self).brightness,
                self.switch_scan == old(self).switch_scan,
                (self.switches@, self.press_count@, self.release_count@, produced) == debounce_upto(
                    old(self).switches@,
                    old(self).press_count@,
                    old(self).release_count@,
                    old(self).switch_scan@,
                    bit as nat,
                ),
                self.events.view() == enqueue_all(q0, produced),
                q0 == old(self).events.view(),
                self.switches@.len() == NSW,
                self.press_count@.len() == NSW,
                self.release_count@.len() == NSW,
            decreases NSWBITS - bit,
        {
            let key = SWITCH_MAP[bit] as usize;
            if key < NSW {
                let byte = self.switch_scan[bit / 8];
                let pressed = byte & (0x80u8 >> ((bit % 8) as u8)) != 0;
                let sw = self.switches[key];
                let pc = self.press_count[key];
                let rc = self.release_count[key];
                let pc1: u8 = if pc == 255 {
                    255
                } else {
                    pc + 1
                };
                let rc1: u8 = if rc == 255 {
                    255
                } else {
                    rc + 1
                };
                let (s2, p2, r2, changed): (u8, u8, u8, bool) = if pressed {
                    if sw == 0 {
                        if pc1 >= 3 {
                            (1, 0, 0, true)
                        } else {
                            (0, pc1, 0, false)
                        }
                    } else {
                        (sw, pc, 0, false)
                    }
                } else {
                    if sw != 0 {
                        if rc1 >= 40 {
                            (0, 0, 0, true)
                        } else {
                            (sw, 0, rc1, false)
                        }
                    } else {
                        (sw, 0, rc, false)
                    }
                };
                self.switches[key] = s2;
                self.press_count[key] = p2;
                self.release_count[key] = r2;
                if changed {
                    let index = key_to_index(key);
                    let event = if pressed {
                        SurfaceEvent::Press { index, value: 127 }
                    } else {
                        SurfaceEvent::Release { index }
                    };
                    let ghost old_p = produced;
                    self.push_event(event);
                    proof {
                        produced = produced.push(event);
                        assert(produced.drop_last() =~= old_p);
                    }
                }
            }
            bit = bit + 1;
        }
    }

    /// The 1 kHz tick: debounces the switches.
    pub fn tick_1khz(&mut self)
        requires
            old(self).wf(),
        ensures
            final(self).wf(),
            ({
                let (a, b, c, e) = debounce_upto(
                    old(self).switches@,
                    old(self).press_count@,
                    old(self).release_count@,
                    old(self).switch_scan@,
                    NSWBITS as nat,
                );
                &&& final(self).switches@ == a
                &&& final(self).press_count@ == b
                &&& final(self).release_count@ == c
                &&& final(self).events.view() == enqueue_all(old(self).events.view(), e)
            }),
            ticked(*old(self), *final(self)),
            final(self).raw_leds == old(self).raw_leds,
            final(self).brightness == old(self).brightness,
    {
        self.debounce_switches();
    }
}

} // verus!
