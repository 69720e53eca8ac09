//! The Launchpad Pro's surface: the four-phase LED scan driven by its
//! timer, the switch bits read back during the shift, the ADC banks of the
//! pressure pads, and the debounced USB power detection.

use vstd::prelude::*;
use super::inputs::{grid_events, GridEvent, Inputs};
use super::leds::{blank_payload, Leds, BRIGHT_BIT_COUNT, GROUP_COUNT};

verus! {

/// Bytes shifted per scan.
pub const SHIFT_BYTES_PER_SCAN: usize = 10;

/// The bit-plane shown at each step of the scan.
pub const BRIGHT_BIT_ORDER: [u8; 6] = [0, 5, 1, 4, 2, 3];

/// First switch entry read by each group.
pub const RAW_INDICES: [u8; 4] = [0, 9, 17, 25];

/// Timer delays of the blank, arm and shift phases.
pub const TIMER_VALUE: [u16; 3] = [10, 10, 50];

/// Timer ticks until the transfer's completion is looked at again, while
/// the lit phase waits for it.
pub const TRANSFER_POLL_TICKS: u16 = 1;

/// Timer delay of each bit-plane's lit phase.
pub const BRIGHT_TIMES_VBUS_POWER: [u16; 6] = [5, 935, 35, 455, 95, 215];

/// Agreeing samples needed to accept a new power level.
pub const VBUS_CONFIRM_SAMPLES: u8 = 3;

/// The ADC channels scanned, in order.
pub const ADC_SEQUENCE: [u8; 16] = [11, 10, 13, 12, 1, 0, 3, 2, 5, 4, 7, 6, 15, 14, 8, 9];

/// What the hardware does at a scan interrupt.
#[derive(Copy, Clone, Debug, PartialEq, Eq, Structural)]
pub enum ScanPhase {
    /// Blank the outputs and deselect every group; the payload is ready.
    Blank,
    /// Arm the shift transfer.
    ArmTransfer,
    /// Start the shift transfer.
    StartTransfer,
    /// Release blank and select a group.
    Bright(u8),
    /// The shift transfer has not completed: stay blanked and look again.
    AwaitTransfer,
}

/// Bit `n` of `x` as a switch state.
pub open spec fn bit_of(x: u8, n: u8) -> bool {
    (x >> n) & 1 != 0
}

/// A switch state as stored.
pub open spec fn raw_of(b: bool) -> u8 {
    if b {
        1
    } else {
        0
    }
}

/// Four switch states from the top four bits of `x`, from entry `base`.
pub open spec fn set_four(raw: Seq<u8>, base: int, x: u8) -> Seq<u8> {
    raw.update(base, raw_of(bit_of(x, 7))).update(base + 1, raw_of(bit_of(x, 6))).update(
        base + 2,
        raw_of(bit_of(x, 5)),
    ).update(base + 3, raw_of(bit_of(x, 4)))
}

/// The switch states and the setup accumulator after reading a group's two
/// shifted-in bytes. Bit 3 of the first byte is the setup button, gathered
/// over the four groups and stored as entry 4 after the last; in group 0
/// the second byte's switches start one entry later to leave room for it.
pub open spec fn group_switches(raw: Seq<u8>, accum: bool, group: int, first: u8, second: u8) -> (
    Seq<u8>,
    bool,
) {
    let base = RAW_INDICES@[group] as int;
    let r1 = set_four(raw, base, first);
    let acc1 = accum || bit_of(first, 3);
    let second_base = if group == 0 {
        base + 5
    } else {
        base + 4
    };
    let (r2, acc2) = if group == 3 {
        (r1.update(4, raw_of(acc1)), false)
    } else {
        (r1, acc1)
    };
    (set_four(r2, second_base, second), acc2)
}

/// Group and step after a scan step: the four groups in turn, then the next
/// of six steps.
pub open spec fn next_scan(group: u8, bit: u8) -> (u8, u8) {
    let g = (group + 1) % 4;
    if g == 0 {
        (0, if bit + 1 >= 6 {
            0
        } else {
            (bit + 1) as u8
        })
    } else {
        (g as u8, bit)
    }
}

/// The channels `channels[..n]` packed five bits each, first lowest.
pub open spec fn packed(channels: Seq<u8>, n: nat) -> u32
    decreases n,
{
    if n == 0 {
        0
    } else {
        packed(channels, (n - 1) as nat) | ((channels[n - 1] as u32) << (((n - 1) * 5) as u32))
    }
}

/// Packs ADC channel numbers five bits each into a sequence register.
pub fn pack_sequence(channels: &[u8]) -> (r: u32)
    requires
        channels.len() <= 6,
    ensures
        r == packed(channels@, channels@.len()),
{
    let mut value: u32 = 0;
    let mut index: usize = 0;
    while index < channels.len()
        invariant
            index <= channels.len() <= 6,
            value == packed(channels@, index as nat),
        decreases channels.len() - index,
    {
        value = value | ((channels[index] as u32) << ((index * 5) as u32));
        index = index + 1;
    }
    value
}

/// A GPIO configuration register with pin `pin`'s four mode bits set to
/// `mode`.
pub fn set_pin_mode(register: u32, pin: u8, mode: u32) -> (r: u32)
    requires
        mode <= 0xf,
    ensures
        r == (register & !(0xfu32 << (((pin % 8) * 4) as u32))) | (mode << (((pin % 8) * 4) as u32)),
{
    let shift: u32 = ((pin % 8) as u32) * 4;
    (register & !(0xfu32 << shift)) | (mode << shift)
}

/// One power-detection sample `raw` on the last raw level, the count of
/// samples that agreed with it and the accepted level: the new values, and
/// the power mode to report when the accepted level changes.
pub open spec fn power_step(last: bool, count: u8, confirmed: bool, raw: bool) -> (bool, u8, bool, Option<u8>) {
    let c = if raw == last {
        if count < VBUS_CONFIRM_SAMPLES {
            (count + 1) as u8
        } else {
            count
        }
    } else {
        1u8
    };
    if c >= VBUS_CONFIRM_SAMPLES && confirmed != raw {
        (raw, c, raw, Some(if raw { 2u8 } else { 1u8 }))
    } else {
        (raw, c, confirmed, None)
    }
}

/// A new power level is accepted only at its third agreeing sample: after a
/// change to a level other than the accepted one, the first two samples
/// report nothing and the third reports the new power mode.
pub proof fn lemma_power_flip_after_three_samples(last: bool, count: u8, confirmed: bool, raw: bool)
    requires
        raw != last,
        raw != confirmed,
    ensures
        ({
            let s1 = power_step(last, count, confirmed, raw);
            let s2 = power_step(s1.0, s1.1, s1.2, raw);
            let s3 = power_step(s2.0, s2.1, s2.2, raw);
            &&& s1.3 is None
            &&& s2.3 is None
            &&& s3.3 == Some(if raw { 2u8 } else { 1u8 })
            &&& s3.2 == raw
        }),
{
}

/// The power-detection state after the samples `raw`, in order, and the
/// power mode reported at the last of them.
pub open spec fn power_run(last: bool, count: u8, confirmed: bool, raw: Seq<bool>) -> (
    bool,
    u8,
    bool,
    Option<u8>,
)
    decreases raw.len(),
{
    if raw.len() == 0 {
        (last, count, confirmed, None)
    } else {
        let p = power_run(last, count, confirmed, raw.drop_last());
        power_step(p.0, p.1, p.2, raw.last())
    }
}

/// From the power-up state on level `h`, after samples `raw` either every
/// sample read `h` and `h` is still accepted, or the count is the number of
/// trailing samples that agree with the last one, up to three.
proof fn lemma_power_count_agrees(h: bool, raw: Seq<bool>)
    requires
        raw.len() >= 1,
    ensures
        ({
            let p = power_run(h, VBUS_CONFIRM_SAMPLES, h, raw);
            &&& p.0 == raw.last()
            &&& 1 <= p.1 <= VBUS_CONFIRM_SAMPLES
            &&& ((p.1 <= raw.len() && forall|j: int|
                0 <= j < p.1 ==> #[trigger] raw[raw.len() - 1 - j] == raw.last()) || (p.2 == h
                && forall|i: int| 0 <= i < raw.len() ==> #[trigger] raw[i] == h))
        }),
    decreases raw.len(),
{
    let init = raw.drop_last();
    if init.len() == 0 {
        assert(power_run(h, VBUS_CONFIRM_SAMPLES, h, init) == (h, VBUS_CONFIRM_SAMPLES, h, None::<
            u8,
        >));
        assert(raw[0] == raw.last());
    } else {
        lemma_power_count_agrees(h, init);
        let p = power_run(h, VBUS_CONFIRM_SAMPLES, h, init);
        let q = power_run(h, VBUS_CONFIRM_SAMPLES, h, raw);
        if p.1 <= init.len() && forall|j: int|
            0 <= j < p.1 ==> #[trigger] init[init.len() - 1 - j] == init.last() {
            assert forall|j: int| 0 <= j < q.1 implies #[trigger] raw[raw.len() - 1 - j]
                == raw.last() by {
                if j > 0 {
                    assert(raw[raw.len() - 1 - j] == init[init.len() - 1 - (j - 1)]);
                }
            }
        } else {
            if raw.last() == h {
                assert forall|i: int| 0 <= i < raw.len() implies #[trigger] raw[i] == h by {
                    if i < init.len() {
                        assert(raw[i] == init[i]);
                    }
                }
            }
        }
    }
}

/// From power-up, the power mode changes only at the third of three
/// agreeing samples: a report comes only after at least three samples, the
/// last three of which all read the reported level.
pub proof fn lemma_power_flips_only_after_three_agreeing(h: bool, raw: Seq<bool>)
    ensures
        power_run(h, VBUS_CONFIRM_SAMPLES, h, raw).3 is Some ==> {
            &&& raw.len() >= 3
            &&& raw[raw.len() - 1] == raw[raw.len() - 2]
            &&& raw[raw.len() - 2] == raw[raw.len() - 3]
            &&& power_run(h, VBUS_CONFIRM_SAMPLES, h, raw).3 == Some(
                if raw.last() {
                    2u8
                } else {
                    1u8
                },
            )
        },
{
    if raw.len() >= 2 {
        let init = raw.drop_last();
        lemma_power_count_agrees(h, init);
        let p = power_run(h, VBUS_CONFIRM_SAMPLES, h, init);
        if power_run(h, VBUS_CONFIRM_SAMPLES, h, raw).3 is Some {
            assert(p.1 >= 2 && p.0 == raw.last());
            if p.1 <= init.len() && forall|j: int|
                0 <= j < p.1 ==> #[trigger] init[init.len() - 1 - j] == init.last() {
                assert(init[init.len() - 1 - 1] == init.last());
                assert(raw[raw.len() - 2] == init[init.len() - 1]);
                assert(raw[raw.len() - 3] == init[init.len() - 2]);
            } else {
                assert(init[init.len() - 1] == h);
            }
        }
    } else if raw.len() == 1 {
        assert(power_run(h, VBUS_CONFIRM_SAMPLES, h, raw.drop_last()) == (
            h,
            VBUS_CONFIRM_SAMPLES,
            h,
            None::<u8>,
        ));
    }
}

/// The surface state.
pub struct Grid {
    pub inputs: Inputs,
    pub leds: Leds,
    pub selected_group: u8,
    pub selected_bit: u8,
    pub shift_tx: [u8; 10],
    pub shift_rx: [u8; 10],
    pub adc_bank: u8,
    pub adc_buffer: [u16; 16],
    pub setup_accum: bool,
    pub vbus_last_raw: bool,
    pub vbus_stable_count: u8,
    pub vbus_confirmed_high: bool,
    pub surface_mode: u8,
}

impl Grid {
    /// The scan position and ADC bank lie within their ranges.
    pub open spec fn wf(self) -> bool {
        &&& self.selected_group < GROUP_COUNT
        &&& self.selected_bit < BRIGHT_BIT_COUNT
        &&& self.adc_bank < 4
        &&& self.surface_mode < 4
    }

    /// A surface with nothing lit or pressed, scanning from its start, that
    /// took the power level `initial_vbus_high` as confirmed. The power
    /// mode to report is 2 when powered from the supply, 1 from the bus.
    pub fn new(initial_vbus_high: bool) -> (r: (Grid, u8))
        ensures
            r.0.wf(),
            r.0.selected_group == 0 && r.0.selected_bit == 0 && r.0.surface_mode == 0,
            r.0.vbus_last_raw == initial_vbus_high,
            r.0.vbus_confirmed_high == initial_vbus_high,
            r.0.vbus_stable_count == VBUS_CONFIRM_SAMPLES,
            grid_events(r.0.inputs.queue) == Seq::<GridEvent>::empty(),
            super::inputs::fresh_inputs(r.0.inputs),
            r.0.leds.payload@ == blank_payload(),
            r.0.leds.raw_rgb@ == Seq::new(300, |i: int| 0u8),
            r.0.leds.brightness == 7,
            r.0.shift_tx@ == Seq::new(10, |i: int| 0xffu8),
            r.0.shift_rx@ == Seq::new(10, |i: int| 0xffu8),
            r.0.adc_bank == 0 && !r.0.setup_accum,
            r.0.adc_buffer@ == Seq::new(16, |i: int| 0u16),
            r.1 == (if initial_vbus_high {
                2u8
            } else {
                1u8
            }),
    {
        let grid = Grid {
            inputs: Inputs::new(),
            leds: Leds::new(),
            selected_group: 0,
            selected_bit: 0,
            shift_tx: [0xff; 10],
            shift_rx: [0xff; 10],
            adc_bank: 0,
            adc_buffer: [0; 16],
            setup_accum: false,
            vbus_last_raw: initial_vbus_high,
            vbus_stable_count: VBUS_CONFIRM_SAMPLES,
            vbus_confirmed_high: initial_vbus_high,
            surface_mode: 0,
        };
        assert(grid.shift_tx@ =~= Seq::new(10, |i: int| 0xffu8));
        assert(grid.shift_rx@ =~= Seq::new(10, |i: int| 0xffu8));
        assert(grid.adc_buffer@ =~= Seq::new(16, |i: int| 0u16));
        let mode: u8 = if initial_vbus_high {
            2
        } else {
            1
        };
        (grid, mode)
    }

    /// Takes the oldest input event.
    pub fn poll_event(&mut self) -> (r: Option<GridEvent>)
        ensures
            grid_events(old(self).inputs.queue).len() == 0 ==> r is None,
            grid_events(old(self).inputs.queue).len() > 0 ==> r == Some(
                grid_events(old(self).inputs.queue)[0],
            ) && grid_events(final(self).inputs.queue) == grid_events(
                old(self).inputs.queue,
            ).drop_first(),
    {
        self.inputs.poll_event()
    }

    /// The payload of the group and bit-plane about to be scanned, ready to
    /// shift out once the outputs are blanked.
    pub fn blank_phase(&mut self)
        requires
            old(self).wf(),
        ensures
            final(self).wf(),
            final(self).shift_tx@ == old(self).leds.payload@.subrange(
                ((old(self).selected_group * 6 + BRIGHT_BIT_ORDER@[old(self).selected_bit as int]) * 10) as int,
                ((old(self).selected_group * 6 + BRIGHT_BIT_ORDER@[old(self).selected_bit as int]) * 10 + 10) as int,
            ),
            *final(self) == (Grid { shift_tx: final(self).shift_tx, ..*old(self) }),
    {
        let group = self.selected_group as usize;
        let bit = BRIGHT_BIT_ORDER[self.selected_bit as usize] as usize;
        let mut tx = self.shift_tx;
        self.leds.build_group_payload(group, bit, &mut tx);
        self.shift_tx = tx;
    }

    /// Reads the switch bits shifted in for `group`.
    fn capture_switch_group(&mut self, group: usize)
        requires
            group < GROUP_COUNT,
        ensures
            (final(self).inputs.switches_raw@, final(self).setup_accum) == group_switches(
                old(self).inputs.switches_raw@,
                old(self).setup_accum,
                group as int,
                old(self).shift_rx@[0],
                old(self).shift_rx@[1],
            ),
            final(self).inputs.queue == old(self).inputs.queue,
            final(self).inputs.pads == old(self).inputs.pads,
            final(self).inputs.adc_max == old(self).inputs.adc_max,
            final(self).inputs.switches_processed == old(self).inputs.switches_processed,
            *final(self) == (Grid {
                inputs: final(self).inputs,
                setup_accum: final(self).setup_accum,
                ..*old(self)
            }),
    {
        let raw_base = RAW_INDICES[group] as usize;
        let first = self.shift_rx[0];
        let second = self.shift_rx[1];
        self.inputs.set_switch_raw(raw_base, (first >> 7u8) & 1 != 0);
        self.inputs.set_switch_raw(raw_base + 1, (first >> 6u8) & 1 != 0);
        self.inputs.set_switch_raw(raw_base + 2, (first >> 5u8) & 1 != 0);
        self.inputs.set_switch_raw(raw_base + 3, (first >> 4u8) & 1 != 0);
        if (first >> 3u8) & 1 != 0 {
            self.setup_accum = true;
        }
        let second_base = if group == 0 {
            raw_base + 5
        } else {
            raw_base + 4
        };
        if group == 3 {
            let acc = self.setup_accum;
            self.inputs.set_switch_raw(4, acc);
            self.setup_accum = false;
        }
        self.inputs.set_switch_raw(second_base, (second >> 7u8) & 1 != 0);
        self.inputs.set_switch_raw(second_base + 1, (second >> 6u8) & 1 != 0);
        self.inputs.set_switch_raw(second_base + 2, (second >> 5u8) & 1 != 0);
        self.inputs.set_switch_raw(second_base + 3, (second >> 4u8) & 1 != 0);
    }

    /// Moves the scan to the next group, and after the fourth to the next
    /// step.
    fn advance_scan(&mut self)
        requires
            old(self).wf(),
        ensures
            final(self).wf(),
            (final(self).selected_group, final(self).selected_bit) == next_scan(
                old(self).selected_group,
                old(self).selected_bit,
            ),
            *final(self) == (Grid {
                selected_group: final(self).selected_group,
                selected_bit: final(self).selected_bit,
                ..*old(self)
            }),
    {
        self.selected_group = (self.selected_group + 1) % (GROUP_COUNT as u8);
        if self.selected_group == 0 {
            self.selected_bit = self.selected_bit + 1;
            if self.selected_bit >= 6 {
                self.selected_bit = 0;
            }
        }
    }

    /// The lit phase: on the first step the group's switches are read; the
    /// scan moves on. Returns the step that is lit.
    pub fn bright_phase(&mut self) -> (r: u8)
        requires
            old(self).wf(),
        ensures
            final(self).wf(),
            r == old(self).selected_bit,
            (final(self).selected_group, final(self).selected_bit) == next_scan(
                old(self).selected_group,
                old(self).selected_bit,
            ),
            old(self).selected_bit == 0 ==> (final(self).inputs.switches_raw@, final(self).setup_accum) == group_switches(
                old(self).inputs.switches_raw@,
                old(self).setup_accum,
                old(self).selected_group as int,
                old(self).shift_rx@[0],
                old(self).shift_rx@[1],
            ),
            old(self).selected_bit != 0 ==> final(self).inputs == old(self).inputs
                && final(self).setup_accum == old(self).setup_accum,
            final(self).inputs.queue == old(self).inputs.queue,
            final(self).leds == old(self).leds,
    {
        let bright_step = self.selected_bit;
        if self.selected_bit == 0 {
            let group = self.selected_group as usize;
            self.capture_switch_group(group);
        }
        self.advance_scan();
        bright_step
    }

    /// One interrupt of the LED scan: blank (with the payload prepared), arm
    /// the transfer, start it, then, once the transfer has completed
    /// (`transfer_done`), light the group; the phases repeat in that order.
    /// While the transfer is still running the scan waits, blanked, and
    /// nothing else changes. Returns what the hardware does and the delay
    /// to the next interrupt.
    pub fn scan_step(&mut self, transfer_done: bool) -> (r: (ScanPhase, u16))
        requires
            old(self).wf(),
        ensures
            final(self).wf(),
            old(self).surface_mode == 3 && !transfer_done ==> r == (
                ScanPhase::AwaitTransfer,
                TRANSFER_POLL_TICKS,
            ) && *final(self) == *old(self),
            !(old(self).surface_mode == 3 && !transfer_done) ==> final(self).surface_mode == (
            old(self).surface_mode + 1) % 4,
            old(self).surface_mode == 0 ==> r == (ScanPhase::Blank, TIMER_VALUE@[0]),
            old(self).surface_mode == 1 ==> r == (ScanPhase::ArmTransfer, TIMER_VALUE@[1])
                && final(self).selected_group == old(self).selected_group,
            old(self).surface_mode == 2 ==> r == (ScanPhase::StartTransfer, TIMER_VALUE@[2])
                && final(self).selected_group == old(self).selected_group,
            old(self).surface_mode == 3 && transfer_done ==> r == (
                ScanPhase::Bright(old(self).selected_group),
                BRIGHT_TIMES_VBUS_POWER@[old(self).selected_bit as int],
            ) && (final(self).selected_group, final(self).selected_bit) == next_scan(
                old(self).selected_group,
                old(self).selected_bit,
            ),
            final(self).leds == old(self).leds,
    {
        let mode = self.surface_mode;
        if mode == 3 && !transfer_done {
            return (ScanPhase::AwaitTransfer, TRANSFER_POLL_TICKS);
        }
        let r = if mode == 0 {
            self.blank_phase();
            (ScanPhase::Blank, TIMER_VALUE[0])
        } else if mode == 1 {
            (ScanPhase::ArmTransfer, TIMER_VALUE[1])
        } else if mode == 2 {
            (ScanPhase::StartTransfer, TIMER_VALUE[2])
        } else {
            let group = self.selected_group;
            let step = self.bright_phase() as usize;
            (ScanPhase::Bright(group), BRIGHT_TIMES_VBUS_POWER[step])
        };
        self.surface_mode = (mode + 1) % 4;
        r
    }

    /// Stores the samples of the current ADC bank and moves to the next
    /// bank; after the last, each pad keeps its peak.
    pub fn collect_adc_scan(&mut self)
        requires
            old(self).wf(),
            forall|i: int| 0 <= i < 16 ==> #[trigger] old(self).adc_buffer@[i] <= 0xfffd,
            forall|i: int| 0 <= i < 64 ==> #[trigger] old(self).inputs.adc_direct@[i] <= 0xfffd,
        ensures
            final(self).wf(),
            final(self).adc_bank == (old(self).adc_bank + 1) % 4,
            forall|i: int| 0 <= i < 64 ==> #[trigger] final(self).inputs.adc_direct@[i] <= 0xfffd,
            forall|i: int|
                0 <= i < 64 ==> #[trigger] final(self).inputs.adc_direct@[i] == if 16
                    * old(self).adc_bank <= i < 16 * old(self).adc_bank + 16 {
                    old(self).adc_buffer@[i - 16 * old(self).adc_bank]
                } else {
                    old(self).inputs.adc_direct@[i]
                },
            old(self).adc_bank != 3 ==> final(self).inputs.adc_max == old(self).inputs.adc_max,
            old(self).adc_bank == 3 ==> forall|s: int|
                0 <= s < 64 ==> #[trigger] final(self).inputs.adc_max@[s] == ({
                    let v = ((final(self).inputs.adc_direct@[super::inputs::PADADC@[s] as int] + 2)
                        / 4) as u16;
                    if old(self).inputs.adc_max@[s] < v {
                        v
                    } else {
                        old(self).inputs.adc_max@[s]
                    }
                }),
            final(self).inputs.queue == old(self).inputs.queue,
            final(self).inputs.pads == old(self).inputs.pads,
            final(self).leds == old(self).leds,
    {
        let bank = self.adc_bank as usize;
        let buffer = self.adc_buffer;
        self.inputs.capture_adc_bank(bank, &buffer);
        let incremented: u8 = self.adc_bank + 1;
        let next: u8 = incremented & 3;
        assert(next == incremented % 4) by (bit_vector)
            requires
                next == incremented & 3,
        ;
        self.adc_bank = next;
        if self.adc_bank == 0 {
            self.inputs.accumulate_adc_max();
        }
    }

    /// One power-detection sample: a new level is accepted once three
    /// consecutive samples agree on it. Returns the power mode to report
    /// when the accepted level changes: 2 when powered from the supply, 1
    /// from the bus.
    pub fn poll_power_mode(&mut self, raw: bool) -> (r: Option<u8>)
        ensures
            (final(self).vbus_last_raw, final(self).vbus_stable_count, final(self).vbus_confirmed_high, r)
                == power_step(
                old(self).vbus_last_raw,
                old(self).vbus_stable_count,
                old(self).vbus_confirmed_high,
                raw,
            ),
            final(self).vbus_last_raw == raw,
            final(self).vbus_stable_count == (if raw == old(self).vbus_last_raw {
                if old(self).vbus_stable_count < VBUS_CONFIRM_SAMPLES {
                    (old(self).vbus_stable_count + 1) as u8
                } else {
                    old(self).vbus_stable_count
                }
            } else {
                1u8
            }),
            final(self).vbus_stable_count >= VBUS_CONFIRM_SAMPLES && old(self).vbus_confirmed_high
                != raw ==> final(self).vbus_confirmed_high == raw && r == Some(
                if raw {
                    2u8
                } else {
                    1u8
                },
            ),
            !(final(self).vbus_stable_count >= VBUS_CONFIRM_SAMPLES && old(self).vbus_confirmed_high
                != raw) ==> final(self).vbus_confirmed_high == old(self).vbus_confirmed_high
                && r is None,
            final(self).inputs == old(self).inputs,
            final(self).leds == old(self).leds,
            final(self).selected_group == old(self).selected_group,
            final(self).selected_bit == old(self).selected_bit,
            final(self).adc_bank == old(self).adc_bank,
            final(self).surface_mode == old(self).surface_mode,
    {
        if raw == self.vbus_last_raw {
            if self.vbus_stable_count < VBUS_CONFIRM_SAMPLES {
                self.vbus_stable_count = self.vbus_stable_count + 1;
            }
        } else {
            self.vbus_last_raw = raw;
            self.vbus_stable_count = 1;
        }
        if self.vbus_stable_count >= VBUS_CONFIRM_SAMPLES && self.vbus_confirmed_high != raw {
            self.vbus_confirmed_high = raw;
            return Some(
                if raw {
                    2
                } else {
                    1
                },
            );
        }
        None
    }

    /// The 1 kHz work after the ADC scan finished: the samples are stored,
    /// the switches debounced, and the power level sampled (`vbus_high`).
    pub fn tick_1khz_collect(&mut self, vbus_high: bool) -> (r: Option<u8>)
        requires
            old(self).wf(),
            forall|i: int| 0 <= i < 16 ==> #[trigger] old(self).adc_buffer@[i] <= 0xfffd,
            forall|i: int| 0 <= i < 64 ==> #[trigger] old(self).inputs.adc_direct@[i] <= 0xfffd,
        ensures
            final(self).wf(),
            final(self).adc_bank == (old(self).adc_bank + 1) % 4,
            forall|i: int| 0 <= i < 64 ==> #[trigger] final(self).inputs.adc_direct@[i] <= 0xfffd,
            final(self).vbus_last_raw == vbus_high,
            r is Some ==> final(self).vbus_confirmed_high == vbus_high,
            final(self).leds == old(self).leds,
    {
        self.collect_adc_scan();
        self.inputs.tick_1khz();
        self.poll_power_mode(vbus_high)
    }

    /// The 200 Hz tick: processes the pads.
    pub fn tick_200hz(&mut self)
        ensures
            (final(self).inputs.pads@, grid_events(final(self).inputs.queue)) == super::inputs::pads_fold(
                old(self).inputs.pads@,
                grid_events(old(self).inputs.queue),
                old(self).inputs.adc_max@,
                64,
            ),
            *final(self) == (Grid { inputs: final(self).inputs, ..*old(self) }),
    {
        self.inputs.tick_200hz();
    }
}

} // verus!
