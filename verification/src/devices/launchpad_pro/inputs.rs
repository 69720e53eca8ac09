//! The Launchpad Pro's inputs: 64 velocity and pressure sensing pads and
//! 33 switch entries (32 side buttons and the setup button), debounced and
//! turned into press, release and aftertouch events.

use vstd::prelude::*;
use crate::sys::spsc::SpscQueue;

verus! {

/// Pads with a pressure sensor.
pub const PAD_COUNT: usize = 64;
/// Side buttons.
pub const SIDE_BUTTON_COUNT: usize = 32;
/// Switch entries: the side buttons and the setup button.
pub const SWITCH_ENTRY_COUNT: usize = 33;
/// LED index of the setup button.
pub const SETUP_INDEX: u8 = 0;
/// Marks a switch entry without a button.
pub const NO_BUTTON: u8 = 0xff;
/// Velocity of a switch press.
pub const PRESS_VALUE: u8 = 127;

/// Ticks a released switch must stay released.
pub const SWITCH_RELEASE_DELAY: u8 = 0x28;
/// Samples per ADC bank.
pub const ADC_BANK_SIZE: usize = 16;
/// Reading at or below which a pad is released.
pub const PAD_PRESS_START: u16 = 0x100;
/// Reading above which a pad presses.
pub const PAD_PRESS_PEAK_START: u16 = 0x150;
/// Reading of the hardest press.
pub const PAD_PRESS_END: u16 = 0x3ff;
/// Reading above which aftertouch starts.
pub const PAD_AFTERTOUCH_START: u16 = 0x200;
/// Span of readings over which aftertouch rises to 127.
pub const PAD_AFTERTOUCH_RANGE: u16 = 0x101;
/// Ticks after a press without aftertouch.
pub const PAD_HOLDOFF_TICKS: u8 = 0x10;
/// Ticks between the end of a press and its release.
pub const PAD_RELEASE_HOLDOFF_TICKS: u8 = 4;

/// ADC sample of each pad sensor.
pub const PADADC: [u8; 64] = [
    49, 51, 53, 55, 57, 59, 61, 63, 33, 35, 37, 39, 41, 43, 45, 47, 17, 19, 21, 23, 25, 27, 29, 31,
    1, 3, 5, 7, 9, 11, 13, 15, 48, 50, 52, 54, 56, 58, 60, 62, 32, 34, 36, 38, 40, 42, 44, 46, 16,
    18, 20, 22, 24, 26, 28, 30, 0, 2, 4, 6, 8, 10, 12, 14,
];

/// LED index of each pad sensor.
pub const PAD_SENSOR_TO_INDEX: [u8; 64] = [
    81, 82, 83, 84, 85, 86, 87, 88, 71, 72, 73, 74, 75, 76, 77, 78, 61, 62, 63, 64, 65, 66, 67, 68,
    51, 52, 53, 54, 55, 56, 57, 58, 41, 42, 43, 44, 45, 46, 47, 48, 31, 32, 33, 34, 35, 36, 37, 38,
    21, 22, 23, 24, 25, 26, 27, 28, 11, 12, 13, 14, 15, 16, 17, 18,
];

/// LED index of each switch entry, four groups of eight and the setup button.
pub const SWITCH_TO_INDEX: [u8; 33] = [
    94, 98, 50, 10, 0, 4, 8, 59, 19, 91, 95, 80, 40, 1, 5, 89, 49, 92, 96, 70, 30, 2, 6, 79, 39,
    93, 97, 60, 20, 3, 7, 69, 29,
];

/// An input event for an LED index.
#[derive(Clone, Copy, Debug, PartialEq, Eq, Structural)]
pub enum GridEvent {
    Press { index: u8, value: u8 },
    Release { index: u8 },
    Aftertouch { index: u8, value: u8 },
}

/// What a queue of 63 input events holds, oldest first.
pub uninterp spec fn grid_events(q: SpscQueue<GridEvent, 64>) -> Seq<GridEvent>;

impl SpscQueue<GridEvent, 64> {
    /// `Queue::new`: an empty queue.
    #[verifier::external_body]
    pub(crate) fn new() -> (r: Self)
        ensures
            grid_events(r) == Seq::<GridEvent>::empty(),
    {
        SpscQueue { inner: heapless::spsc::Queue::new() }
    }

    /// `Queue::enqueue`: appends `item` unless the 63 places are taken, and
    /// hands `item` back when they are.
    #[verifier::external_body]
    pub(crate) fn enqueue(&mut self, item: GridEvent) -> (r: Result<(), GridEvent>)
        ensures
            grid_events(*old(self)).len() < 63 ==> r is Ok && grid_events(*final(self))
                == grid_events(*old(self)).push(item),
            grid_events(*old(self)).len() >= 63 ==> (r matches Err(x) && x == item),
            grid_events(*old(self)).len() >= 63 ==> grid_events(*final(self)) == grid_events(
                *old(self),
            ),
    {
        self.inner.enqueue(item)
    }

    /// `Queue::dequeue`: removes and returns the oldest item.
    #[verifier::external_body]
    pub(crate) fn dequeue(&mut self) -> (r: Option<GridEvent>)
        ensures
            grid_events(*old(self)).len() == 0 ==> r is None && grid_events(*final(self))
                == grid_events(*old(self)),
            grid_events(*old(self)).len() > 0 ==> r == Some(grid_events(*old(self))[0])
                && grid_events(*final(self)) == grid_events(*old(self)).drop_first(),
    {
        self.inner.dequeue()
    }
}

/// `q` with `e` appended when it has room.
pub open spec fn queued(q: Seq<GridEvent>, e: GridEvent) -> Seq<GridEvent> {
    if q.len() < 63 {
        q.push(e)
    } else {
        q
    }
}

/// Velocity 1 to 127 of a press peaking at `sample`; 0 for no press.
pub open spec fn velocity_of(sample: u16) -> u8 {
    if sample <= PAD_PRESS_PEAK_START {
        0
    } else {
        let span = PAD_PRESS_END - PAD_PRESS_PEAK_START;
        let value = if sample - PAD_PRESS_PEAK_START < span {
            sample - PAD_PRESS_PEAK_START
        } else {
            span
        };
        let v = value * 127 / span;
        (if v < 1 { 1 } else { v }) as u8
    }
}

/// Aftertouch 0 to 127 of a sample.
pub open spec fn aftertouch_of(sample: u16) -> u8 {
    if sample <= PAD_AFTERTOUCH_START {
        0
    } else {
        let value = if sample - PAD_AFTERTOUCH_START < PAD_AFTERTOUCH_RANGE {
            sample - PAD_AFTERTOUCH_START
        } else {
            PAD_AFTERTOUCH_RANGE as int
        };
        (value * 127 / PAD_AFTERTOUCH_RANGE as int) as u8
    }
}

/// Velocity 1 to 127 of a press peaking at `sample`; 0 for no press.
pub fn velocity_from_sample(sample: u16) -> (r: u8)
    ensures
        r == velocity_of(sample),
        r <= 127,
{
    if sample <= PAD_PRESS_PEAK_START {
        return 0;
    }
    let span: u16 = PAD_PRESS_END - PAD_PRESS_PEAK_START;
    let over = sample - PAD_PRESS_PEAK_START;
    let value: u16 = if over < span {
        over
    } else {
        span
    };
    assert((value as int) * 127 / (span as int) <= 127) by (nonlinear_arith)
        requires
            value <= span,
            span > 0,
    ;
    let velocity = ((value as u32 * 127) / span as u32) as u8;
    if velocity < 1 {
        1
    } else {
        velocity
    }
}

/// Aftertouch 0 to 127 of a sample.
pub fn aftertouch_from_sample(sample: u16) -> (r: u8)
    ensures
        r == aftertouch_of(sample),
        r <= 127,
{
    if sample <= PAD_AFTERTOUCH_START {
        return 0;
    }
    let over = sample - PAD_AFTERTOUCH_START;
    let value: u16 = if over < PAD_AFTERTOUCH_RANGE {
        over
    } else {
        PAD_AFTERTOUCH_RANGE
    };
    assert((value as int) * 127 / (PAD_AFTERTOUCH_RANGE as int) <= 127) by (nonlinear_arith)
        requires
            value <= PAD_AFTERTOUCH_RANGE,
    ;
    ((value as u32 * 127) / PAD_AFTERTOUCH_RANGE as u32) as u8
}

/// The debounce state of a held switch and whether it turns on now: two
/// ticks from released to on (0, then 2, 1, then on at 0x80).
pub open spec fn switch_on_step(state: u8) -> (u8, bool) {
    if state == 0 {
        (2, false)
    } else if state < 0x80 {
        if state - 1 == 0 {
            (0x80, true)
        } else {
            ((state - 1) as u8, false)
        }
    } else {
        (0x80, false)
    }
}

/// The debounce state of a released switch and whether it turns off now: an
/// on switch waits `delay` ticks; a switch not yet on goes straight back.
pub open spec fn switch_off_step(state: u8, delay: u8) -> (u8, bool) {
    if state == 0 {
        (0, false)
    } else if state < 0x80 {
        (0, false)
    } else if state == 0x80 {
        (((delay + 0x80) % 256) as u8, false)
    } else if state - 1 == 0x80 {
        (0, true)
    } else {
        ((state - 1) as u8, false)
    }
}

/// Debounces a held switch; `true` when it turns on.
pub fn switch_is_on(state: &mut u8) -> (r: bool)
    ensures
        (*final(state), r) == switch_on_step(*old(state)),
{
    let current = *state;
    if current == 0 {
        *state = 2;
        return false;
    }
    if current < 0x80 {
        let next = current - 1;
        if next == 0 {
            *state = 0x80;
            return true;
        }
        *state = next;
        return false;
    }
    if current != 0x80 {
        *state = 0x80;
    }
    false
}

/// Debounces a released switch; `true` when it turns off.
pub fn switch_is_off(state: &mut u8, release_delay: u8) -> (r: bool)
    ensures
        (*final(state), r) == switch_off_step(*old(state), release_delay),
{
    let current = *state;
    if current == 0 {
        return false;
    }
    if current < 0x80 {
        *state = 0;
        return false;
    }
    if current == 0x80 {
        *state = release_delay.wrapping_add(0x80);
        return false;
    }
    let next = current.wrapping_sub(1);
    if next == 0x80 {
        *state = 0;
        return true;
    }
    *state = next;
    false
}

/// The press state of one pad: pressed as reported, the stage (0 up, 2 held,
/// 3 ending), the ticks left in the stage and the last aftertouch reported.
#[derive(Clone, Copy, Debug)]
pub struct ProPad {
    pub pressed: bool,
    pub state: u8,
    pub time: u8,
    pub last_aftertouch: u8,
}

/// The press or release event of a pad whose velocity is `value`, when its
/// pressed state changes.
pub open spec fn velocity_event(p: ProPad, index: u8, value: u8) -> (ProPad, Seq<GridEvent>) {
    let pressed = value != 0;
    if p.pressed == pressed {
        (p, Seq::empty())
    } else {
        (
            ProPad { pressed, ..p },
            seq![
                if pressed {
                    GridEvent::Press { index, value }
                } else {
                    GridEvent::Release { index }
                },
            ],
        )
    }
}

/// What one 200 Hz tick with peak `sample` does to a pad, and its events.
///
/// An up pad presses with the sample's velocity; a held pad reports
/// aftertouch changes once its holdoff has run out, and ends when the sample
/// falls to the release level (clearing aftertouch); an ending pad releases
/// after its holdoff.
pub open spec fn pad_step(p: ProPad, index: u8, sample: u16) -> (ProPad, Seq<GridEvent>) {
    if p.state == 0 {
        let v = velocity_of(sample);
        if v != 0 {
            velocity_event(ProPad { state: 2, time: PAD_HOLDOFF_TICKS, ..p }, index, v)
        } else {
            (p, Seq::empty())
        }
    } else if p.state == 2 {
        let time = if p.time != 0 { (p.time - 1) as u8 } else { 0u8 };
        if sample <= PAD_PRESS_START {
            (
                ProPad { state: 3, time: PAD_RELEASE_HOLDOFF_TICKS, last_aftertouch: 0, ..p },
                if p.last_aftertouch != 0 {
                    seq![GridEvent::Aftertouch { index, value: 0 }]
                } else {
                    Seq::empty()
                },
            )
        } else if time == 0 && p.last_aftertouch != aftertouch_of(sample) {
            (
                ProPad { time, last_aftertouch: aftertouch_of(sample), ..p },
                seq![GridEvent::Aftertouch { index, value: aftertouch_of(sample) }],
            )
        } else {
            (ProPad { time, ..p }, Seq::empty())
        }
    } else if p.state == 3 {
        if p.time != 0 {
            (ProPad { time: (p.time - 1) as u8, ..p }, Seq::empty())
        } else {
            velocity_event(ProPad { state: 0, last_aftertouch: 0, ..p }, index, 0)
        }
    } else {
        (ProPad { state: 0, ..p }, Seq::empty())
    }
}

/// `q` after each of `es` was offered to the queue.
pub open spec fn queued_all(q: Seq<GridEvent>, es: Seq<GridEvent>) -> Seq<GridEvent>
    decreases es.len(),
{
    if es.len() == 0 {
        q
    } else {
        queued(queued_all(q, es.drop_last()), es.last())
    }
}

/// Offering one event is `queued`.
pub proof fn lemma_queued_one(q: Seq<GridEvent>, e: GridEvent)
    ensures
        queued_all(q, seq![e]) == queued(q, e),
        queued_all(q, Seq::empty()) == q,
{
    assert(seq![e].drop_last() =~= Seq::<GridEvent>::empty());
    assert(queued_all(q, Seq::<GridEvent>::empty()) == q);
}

/// The switch states, queue and raw switch states after the switch entries
/// below `n` were sampled.
pub open spec fn switches_fold(states: Seq<u8>, q: Seq<GridEvent>, raw: Seq<u8>, n: int) -> (
    Seq<u8>,
    Seq<GridEvent>,
)
    decreases n,
{
    if n <= 0 {
        (states, q)
    } else {
        let (s, qq) = switches_fold(states, q, raw, n - 1);
        let e = n - 1;
        let index = SWITCH_TO_INDEX@[e];
        if index == NO_BUTTON {
            (s, qq)
        } else if raw[e] != 0 {
            let (st, on) = switch_on_step(s[e]);
            (
                s.update(e, st),
                if on {
                    queued(qq, GridEvent::Press { index, value: PRESS_VALUE })
                } else {
                    qq
                },
            )
        } else {
            let (st, off) = switch_off_step(s[e], SWITCH_RELEASE_DELAY);
            (s.update(e, st), if off { queued(qq, GridEvent::Release { index }) } else { qq })
        }
    }
}

/// The pads and queue after the pads below `n` were processed with their
/// peak samples.
pub open spec fn pads_fold(pads: Seq<ProPad>, q: Seq<GridEvent>, max: Seq<u16>, n: int) -> (
    Seq<ProPad>,
    Seq<GridEvent>,
)
    decreases n,
{
    if n <= 0 {
        (pads, q)
    } else {
        let (ps, qq) = pads_fold(pads, q, max, n - 1);
        let (p, es) = pad_step(ps[n - 1], PAD_SENSOR_TO_INDEX@[n - 1], max[n - 1]);
        (ps.update(n - 1, p), queued_all(qq, es))
    }
}

/// The input state of the Launchpad Pro.
pub struct Inputs {
    pub queue: SpscQueue<GridEvent, 64>,
    pub adc_direct: [u16; 64],
    pub adc_max: [u16; 64],
    pub pads: [ProPad; 64],
    pub switches_raw: [u8; 33],
    pub switches_processed: [u8; 33],
}

/// Nothing captured, every pad up, every switch released, no events.
pub open spec fn fresh_inputs(r: Inputs) -> bool {
    &&& grid_events(r.queue) == Seq::<GridEvent>::empty()
    &&& forall|i: int| 0 <= i < 64 ==> #[trigger] r.adc_max@[i] == 0 && r.adc_direct@[i] == 0
    &&& forall|i: int|
        0 <= i < 64 ==> #[trigger] r.pads@[i] == (ProPad {
            pressed: false,
            state: 0,
            time: 0,
            last_aftertouch: 0,
        })
    &&& forall|i: int|
        0 <= i < 33 ==> #[trigger] r.switches_raw@[i] == 0 && r.switches_processed@[i] == 0
}

impl Inputs {
    /// Nothing captured, every pad up, every switch released.
    pub fn new() -> (r: Inputs)
        ensures
            fresh_inputs(r),
            grid_events(r.queue) == Seq::<GridEvent>::empty(),
            forall|i: int| 0 <= i < 64 ==> #[trigger] r.adc_max@[i] == 0 && r.adc_direct@[i] == 0,
            forall|i: int|
                0 <= i < 64 ==> #[trigger] r.pads@[i] == (ProPad {
                    pressed: false,
                    state: 0,
                    time: 0,
                    last_aftertouch: 0,
                }),
            forall|i: int|
                0 <= i < 33 ==> #[trigger] r.switches_raw@[i] == 0 && r.switches_processed@[i] == 0,
    {
        Inputs {
            queue: SpscQueue::<GridEvent, 64>::new(),
            adc_direct: [0; 64],
            adc_max: [0; 64],
            pads: [ProPad { pressed: false, state: 0, time: 0, last_aftertouch: 0 }; 64],
            switches_raw: [0; 33],
            switches_processed: [0; 33],
        }
    }

    /// Takes the oldest input event.
    pub fn poll_event(&mut self) -> (r: Option<GridEvent>)
        ensures
            grid_events(old(self).queue).len() == 0 ==> r is None,
            grid_events(old(self).queue).len() > 0 ==> r == Some(grid_events(old(self).queue)[0])
                && grid_events(final(self).queue) == grid_events(old(self).queue).drop_first(),
            final(self).pads == old(self).pads,
    {
        self.queue.dequeue()
    }

    fn enqueue(&mut self, event: GridEvent)
        ensures
            grid_events(final(self).queue) == queued(grid_events(old(self).queue), event),
            final(self).adc_direct == old(self).adc_direct,
            final(self).adc_max == old(self).adc_max,
            final(self).pads == old(self).pads,
            final(self).switches_raw == old(self).switches_raw,
            final(self).switches_processed == old(self).switches_processed,
    {
        let _ = self.queue.enqueue(event);
    }

    /// Reports a pad's velocity: a press (or, for 0, a release) when its
    /// pressed state changes. Sensors past the 64 pads are ignored.
    pub fn capture_pad_velocity(&mut self, sensor: usize, value: u8)
        ensures
            sensor >= 64 ==> *final(self) == *old(self),
            sensor < 64 ==> ({
                let (p, es) = velocity_event(
                    old(self).pads@[sensor as int],
                    PAD_SENSOR_TO_INDEX@[sensor as int],
                    value,
                );
                &&& final(self).pads@ == old(self).pads@.update(sensor as int, p)
                &&& grid_events(final(self).queue) == queued_all(grid_events(old(self).queue), es)
            }),
            final(self).adc_direct == old(self).adc_direct,
            final(self).adc_max == old(self).adc_max,
            final(self).switches_raw == old(self).switches_raw,
            final(self).switches_processed == old(self).switches_processed,
    {
        if sensor >= PAD_COUNT {
            return;
        }
        let index = PAD_SENSOR_TO_INDEX[sensor];
        let pressed = value != 0;
        let ghost q = grid_events(self.queue);
        if self.pads[sensor].pressed == pressed {
            assert(self.pads@ =~= old(self).pads@.update(sensor as int, self.pads@[sensor as int]));
            assert(queued_all(q, Seq::empty()) == q);
            return;
        }
        let mut pad = self.pads[sensor];
        pad.pressed = pressed;
        self.pads[sensor] = pad;
        let event = if pressed {
            GridEvent::Press { index, value }
        } else {
            GridEvent::Release { index }
        };
        self.enqueue(event);
        proof {
            lemma_queued_one(q, event);
        }
    }

    /// Reports a pad's aftertouch. Sensors past the 64 pads are ignored.
    pub fn capture_pad_aftertouch(&mut self, sensor: usize, value: u8)
        ensures
            sensor >= 64 ==> *final(self) == *old(self),
            sensor < 64 ==> grid_events(final(self).queue) == queued(
                grid_events(old(self).queue),
                GridEvent::Aftertouch { index: PAD_SENSOR_TO_INDEX@[sensor as int], value },
            ),
            final(self).adc_direct == old(self).adc_direct,
            final(self).adc_max == old(self).adc_max,
            final(self).pads == old(self).pads,
            final(self).switches_raw == old(self).switches_raw,
            final(self).switches_processed == old(self).switches_processed,
    {
        if sensor >= PAD_COUNT {
            return;
        }
        let index = PAD_SENSOR_TO_INDEX[sensor];
        self.enqueue(GridEvent::Aftertouch { index, value });
    }

    /// Debounces switch entry `entry` with its current state.
    pub fn capture_switch_entry(&mut self, entry: usize, pressed: bool)
        ensures
            (entry >= 33 || SWITCH_TO_INDEX@[entry as int] == NO_BUTTON) ==> *final(self) == *old(
                self,
            ),
            entry < 33 && SWITCH_TO_INDEX@[entry as int] != NO_BUTTON ==> ({
                let index = SWITCH_TO_INDEX@[entry as int];
                let s = old(self).switches_processed@[entry as int];
                let (st, ev) = if pressed {
                    let (st, on) = switch_on_step(s);
                    (st, if on { Some(GridEvent::Press { index, value: PRESS_VALUE }) } else { None })
                } else {
                    let (st, off) = switch_off_step(s, SWITCH_RELEASE_DELAY);
                    (st, if off { Some(GridEvent::Release { index }) } else { None })
                };
                &&& final(self).switches_processed@ == old(self).switches_processed@.update(
                    entry as int,
                    st,
                )
                &&& grid_events(final(self).queue) == match ev {
                    Some(e) => queued(grid_events(old(self).queue), e),
                    None => grid_events(old(self).queue),
                }
            }),
            final(self).adc_direct == old(self).adc_direct,
            final(self).adc_max == old(self).adc_max,
            final(self).pads == old(self).pads,
            final(self).switches_raw == old(self).switches_raw,
    {
        if entry >= SWITCH_ENTRY_COUNT {
            return;
        }
        let index = SWITCH_TO_INDEX[entry];
        if index == NO_BUTTON {
            return;
        }
        let mut state = self.switches_processed[entry];
        let event = if pressed {
            if switch_is_on(&mut state) {
                Some(GridEvent::Press { index, value: PRESS_VALUE })
            } else {
                None
            }
        } else {
            if switch_is_off(&mut state, SWITCH_RELEASE_DELAY) {
                Some(GridEvent::Release { index })
            } else {
                None
            }
        };
        self.switches_processed[entry] = state;
        if let Some(event) = event {
            self.enqueue(event);
        }
    }

    /// Records the raw state of switch entry `entry`.
    pub fn set_switch_raw(&mut self, entry: usize, value: bool)
        ensures
            entry < 33 ==> final(self).switches_raw@ == old(self).switches_raw@.update(
                entry as int,
                if value {
                    1u8
                } else {
                    0u8
                },
            ),
            entry >= 33 ==> final(self).switches_raw == old(self).switches_raw,
            final(self).queue == old(self).queue,
            final(self).pads == old(self).pads,
            final(self).adc_max == old(self).adc_max,
            final(self).switches_processed == old(self).switches_processed,
    {
        if entry < SWITCH_ENTRY_COUNT {
            self.switches_raw[entry] = if value {
                1
            } else {
                0
            };
        }
    }

    /// Stores the 16 samples of ADC bank `bank` (0 to 3).
    pub fn capture_adc_bank(&mut self, bank: usize, samples: &[u16; 16])
        requires
            bank < 4,
        ensures
            forall|i: int|
                0 <= i < 64 ==> #[trigger] final(self).adc_direct@[i] == if 16 * bank <= i < 16 * bank
                    + 16 {
                    samples@[i - 16 * bank]
                } else {
                    old(self).adc_direct@[i]
                },
            final(self).queue == old(self).queue,
            final(self).pads == old(self).pads,
            final(self).adc_max == old(self).adc_max,
    {
        let base = bank * ADC_BANK_SIZE;
        let mut i: usize = 0;
        while i < ADC_BANK_SIZE
            invariant
                i <= 16,
                base == 16 * bank,
                bank < 4,
                forall|k: int|
                    0 <= k < 64 ==> #[trigger] self.adc_direct@[k] == if 16 * bank <= k < 16 * bank
                        + i {
                        samples@[k - 16 * bank]
                    } else {
                        old(self).adc_direct@[k]
                    },
                self.queue == old(self).queue,
                self.pads == old(self).pads,
                self.adc_max == old(self).adc_max,
            decreases 16 - i,
        {
            self.adc_direct[base + i] = samples[i];
            i += 1;
        }
    }

    /// Keeps, for each pad, the highest of its samples (rounded to quarters)
    /// since the last pad tick.
    pub fn accumulate_adc_max(&mut self)
        requires
            forall|i: int| 0 <= i < 64 ==> #[trigger] old(self).adc_direct@[i] <= 0xfffd,
        ensures
            forall|s: int|
                0 <= s < 64 ==> #[trigger] final(self).adc_max@[s] == ({
                    let v = ((old(self).adc_direct@[PADADC@[s] as int] + 2) / 4) as u16;
                    if old(self).adc_max@[s] < v {
                        v
                    } else {
                        old(self).adc_max@[s]
                    }
                }),
            final(self).adc_direct == old(self).adc_direct,
            final(self).queue == old(self).queue,
            final(self).pads == old(self).pads,
    {
        let mut sensor: usize = 0;
        while sensor < PAD_COUNT
            invariant
                sensor <= 64,
                self.adc_direct == old(self).adc_direct,
                self.queue == old(self).queue,
                self.pads == old(self).pads,
                forall|i: int| 0 <= i < 64 ==> #[trigger] self.adc_direct@[i] <= 0xfffd,
                forall|s: int|
                    0 <= s < 64 ==> #[trigger] self.adc_max@[s] == if s < sensor {
                        let v = ((old(self).adc_direct@[PADADC@[s] as int] + 2) / 4) as u16;
                        if old(self).adc_max@[s] < v {
                            v
                        } else {
                            old(self).adc_max@[s]
                        }
                    } else {
                        old(self).adc_max@[s]
                    },
            decreases 64 - sensor,
        {
            let adc = PADADC[sensor] as usize;
            assert(adc < 64) by {
                assert(forall|k: int| 0 <= k < 64 ==> PADADC@[k] < 64);
            }
            let sum: u16 = self.adc_direct[adc] + 2;
            assert(sum >> 2u16 == sum / 4) by (bit_vector);
            let value: u16 = sum >> 2;
            if self.adc_max[sensor] < value {
                self.adc_max[sensor] = value;
            }
            sensor += 1;
        }
    }

    /// Processes one pad on the 200 Hz tick with its peak sample.
    pub fn process_pad(&mut self, sensor: usize)
        requires
            sensor < 64,
        ensures
            ({
                let (p, es) = pad_step(
                    old(self).pads@[sensor as int],
                    PAD_SENSOR_TO_INDEX@[sensor as int],
                    old(self).adc_max@[sensor as int],
                );
                &&& final(self).pads@ == old(self).pads@.update(sensor as int, p)
                &&& grid_events(final(self).queue) == queued_all(grid_events(old(self).queue), es)
            }),
            final(self).adc_direct == old(self).adc_direct,
            final(self).adc_max == old(self).adc_max,
            final(self).switches_raw == old(self).switches_raw,
            final(self).switches_processed == old(self).switches_processed,
    {
        let sample = self.adc_max[sensor];
        let mut pad = self.pads[sensor];
        let ghost q = grid_events(self.queue);
        let ghost index = PAD_SENSOR_TO_INDEX@[sensor as int];
        if pad.state == 0 {
            let velocity = velocity_from_sample(sample);
            if velocity != 0 {
                pad.state = 2;
                pad.time = PAD_HOLDOFF_TICKS;
                self.pads[sensor] = pad;
                self.capture_pad_velocity(sensor, velocity);
            } else {
                assert(queued_all(q, Seq::empty()) == q);
                assert(self.pads@ =~= old(self).pads@.update(sensor as int, pad));
            }
        } else if pad.state == 2 {
            if pad.time != 0 {
                pad.time = pad.time - 1;
            }
            if sample <= PAD_PRESS_START {
                let had = pad.last_aftertouch != 0;
                pad.last_aftertouch = 0;
                pad.state = 3;
                pad.time = PAD_RELEASE_HOLDOFF_TICKS;
                self.pads[sensor] = pad;
                if had {
                    self.capture_pad_aftertouch(sensor, 0);
                    proof {
                        lemma_queued_one(q, GridEvent::Aftertouch { index, value: 0 });
                    }
                } else {
                    assert(queued_all(q, Seq::empty()) == q);
                }
                return;
            }
            if pad.time == 0 {
                let aftertouch = aftertouch_from_sample(sample);
                if pad.last_aftertouch != aftertouch {
                    pad.last_aftertouch = aftertouch;
                    self.pads[sensor] = pad;
                    self.capture_pad_aftertouch(sensor, aftertouch);
                    proof {
                        lemma_queued_one(q, GridEvent::Aftertouch { index, value: aftertouch });
                    }
                    return;
                }
            }
            self.pads[sensor] = pad;
            assert(queued_all(q, Seq::empty()) == q);
        } else if pad.state == 3 {
            if pad.time != 0 {
                pad.time = pad.time - 1;
                self.pads[sensor] = pad;
                assert(queued_all(q, Seq::empty()) == q);
            } else {
                pad.state = 0;
                pad.last_aftertouch = 0;
                self.pads[sensor] = pad;
                self.capture_pad_velocity(sensor, 0);
            }
        } else {
            pad.state = 0;
            self.pads[sensor] = pad;
            assert(queued_all(q, Seq::empty()) == q);
        }
    }

    /// The 1 kHz tick: debounces every switch entry with its raw state.
    pub fn tick_1khz(&mut self)
        ensures
            (final(self).switches_processed@, grid_events(final(self).queue)) == switches_fold(
                old(self).switches_processed@,
                grid_events(old(self).queue),
                old(self).switches_raw@,
                33,
            ),
            final(self).pads == old(self).pads,
            final(self).adc_max == old(self).adc_max,
            final(self).adc_direct == old(self).adc_direct,
            final(self).switches_raw == old(self).switches_raw,
    {
        let mut entry: usize = 0;
        while entry < SWITCH_ENTRY_COUNT
            invariant
                entry <= 33,
                (self.switches_processed@, grid_events(self.queue)) == switches_fold(
                    old(self).switches_processed@,
                    grid_events(old(self).queue),
                    old(self).switches_raw@,
                    entry as int,
                ),
                self.pads == old(self).pads,
                self.adc_max == old(self).adc_max,
                self.adc_direct == old(self).adc_direct,
                self.switches_raw == old(self).switches_raw,
            decreases 33 - entry,
        {
            let pressed = self.switches_raw[entry] != 0;
            self.capture_switch_entry(entry, pressed);
            entry += 1;
        }
    }

    /// The 200 Hz tick: processes every pad with its peak sample and starts
    /// the next peaks from zero.
    pub fn tick_200hz(&mut self)
        ensures
            (final(self).pads@, grid_events(final(self).queue)) == pads_fold(
                old(self).pads@,
                grid_events(old(self).queue),
                old(self).adc_max@,
                64,
            ),
            forall|i: int| 0 <= i < 64 ==> #[trigger] final(self).adc_max@[i] == 0,
            final(self).switches_raw == old(self).switches_raw,
            final(self).switches_processed == old(self).switches_processed,
    {
        let mut sensor: usize = 0;
        while sensor < PAD_COUNT
            invariant
                sensor <= 64,
                (self.pads@, grid_events(self.queue)) == pads_fold(
                    old(self).pads@,
                    grid_events(old(self).queue),
                    old(self).adc_max@,
                    sensor as int,
                ),
                forall|i: int|
                    0 <= i < 64 ==> #[trigger] self.adc_max@[i] == if i < sensor {
                        0
                    } else {
                        old(self).adc_max@[i]
                    },
                self.switches_raw == old(self).switches_raw,
                self.switches_processed == old(self).switches_processed,
            decreases 64 - sensor,
        {
            self.process_pad(sensor);
            self.adc_max[sensor] = 0;
            sensor += 1;
        }
    }
}

} // verus!
