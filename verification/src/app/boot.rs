//! The boot animation: frames of LED changes played one tick at a time,
//! after which the performance application takes over.

use vstd::prelude::*;
use super::apptrait::App;
use super::events::{AftertouchEvent, AppId, MidiEvent, SurfaceEvent};
use crate::sys::led::LedCommand;

verus! {

/// A frame: at tick `tick`, the next `count` changes are shown.
#[derive(Copy, Clone, Debug, PartialEq, Eq, Structural)]
pub struct BootFrame {
    pub tick: u16,
    pub count: u8,
}

/// One LED change: palette entry `velocity` on `led`.
#[derive(Copy, Clone, Debug, PartialEq, Eq, Structural)]
pub struct BootChange {
    pub led: u8,
    pub velocity: u8,
}

/// An animation: its frames in tick order, all their changes in order, and
/// the tick at which it ends.
#[derive(Clone, Debug)]
pub struct BootAnimation {
    pub frames: Vec<BootFrame>,
    pub changes: Vec<BootChange>,
    pub end_tick: u16,
}

/// The palette requests of changes.
pub open spec fn change_commands(changes: Seq<BootChange>) -> Seq<LedCommand> {
    changes.map_values(|c: BootChange| LedCommand::Novation { index: c.led, velocity: c.velocity })
}

/// Frame and change positions after playing, from frame `fi` and change
/// `ci` on, the frames due at `tick`; a frame takes as many of its changes
/// as remain.
pub open spec fn play(frames: Seq<BootFrame>, n_changes: int, fi: int, ci: int, tick: u16) -> (int, int)
    decreases frames.len() - fi,
{
    if fi < 0 || fi >= frames.len() || frames[fi].tick != tick {
        (fi, ci)
    } else {
        let next = if ci >= n_changes {
            ci
        } else if ci + frames[fi].count > n_changes {
            n_changes
        } else {
            ci + frames[fi].count
        };
        play(frames, n_changes, fi + 1, next, tick)
    }
}

proof fn lemma_play_bounds(frames: Seq<BootFrame>, n_changes: int, fi: int, ci: int, tick: u16)
    requires
        0 <= fi <= frames.len(),
        0 <= ci <= n_changes,
    ensures
        fi <= play(frames, n_changes, fi, ci, tick).0 <= frames.len(),
        ci <= play(frames, n_changes, fi, ci, tick).1 <= n_changes,
    decreases frames.len() - fi,
{
    if fi < frames.len() && frames[fi].tick == tick {
        let next = if ci >= n_changes {
            ci
        } else if ci + frames[fi].count > n_changes {
            n_changes
        } else {
            ci + frames[fi].count
        };
        lemma_play_bounds(frames, n_changes, fi + 1, next, tick);
    }
}

/// Plays a boot animation.
pub struct BootAnimationApp {
    pub animation: BootAnimation,
    pub tick: u16,
    pub frame_index: usize,
    pub change_index: usize,
    pub requested_switch: Option<AppId>,
}

impl BootAnimationApp {
    /// The positions lie within the animation.
    pub open spec fn wf(self) -> bool {
        self.frame_index <= self.animation.frames@.len() && self.change_index
            <= self.animation.changes@.len()
    }

    /// An application that plays `animation` from its start.
    pub fn new(animation: BootAnimation) -> (r: BootAnimationApp)
        ensures
            r.wf(),
            r.animation == animation,
            r.tick == 0 && r.frame_index == 0 && r.change_index == 0,
            r.requested_switch is None,
    {
        BootAnimationApp {
            animation,
            tick: 0,
            frame_index: 0,
            change_index: 0,
            requested_switch: None,
        }
    }
}

impl App for BootAnimationApp {
    /// Restarts the animation on a cleared surface.
    fn on_enter(&mut self, leds: &mut Vec<LedCommand>)
        ensures
            final(self).tick == 0 && final(self).frame_index == 0 && final(self).change_index == 0,
            final(self).requested_switch is None,
            final(self).animation == old(self).animation,
            final(leds)@ == old(leds)@.push(LedCommand::Clear),
    {
        self.tick = 0;
        self.frame_index = 0;
        self.change_index = 0;
        self.requested_switch = None;
        leds.push(LedCommand::Clear);
    }

    fn on_exit(&mut self, leds: &mut Vec<LedCommand>)
        ensures
            final(leds)@ == old(leds)@,
            *final(self) == *old(self),
    {
    }

    fn on_surface(&mut self, _event: SurfaceEvent, leds: &mut Vec<LedCommand>)
        ensures
            final(leds)@ == old(leds)@,
            *final(self) == *old(self),
    {
    }

    fn on_midi(&mut self, _event: MidiEvent, leds: &mut Vec<LedCommand>)
        ensures
            final(leds)@ == old(leds)@,
            *final(self) == *old(self),
    {
    }

    fn on_aftertouch(&mut self, _event: AftertouchEvent, leds: &mut Vec<LedCommand>)
        ensures
            final(leds)@ == old(leds)@,
            *final(self) == *old(self),
    {
    }

    /// Shows the changes of the frames due at the current tick; at the end
    /// tick asks for the performance application, otherwise moves to the
    /// next tick.
    fn on_tick(&mut self, leds: &mut Vec<LedCommand>)
        ensures
            ({
                let frames = old(self).animation.frames@;
                let changes = old(self).animation.changes@;
                let (fi, ci) = play(
                    frames,
                    changes.len() as int,
                    old(self).frame_index as int,
                    old(self).change_index as int,
                    old(self).tick,
                );
                &&& old(self).wf() ==> final(self).wf()
                &&& old(self).wf() ==> final(self).frame_index == fi && final(self).change_index == ci
                &&& old(self).wf() ==> final(leds)@ == old(leds)@ + change_commands(
                    changes.subrange(old(self).change_index as int, ci),
                )
                &&& final(self).animation == old(self).animation
                &&& old(self).tick >= old(self).animation.end_tick ==> final(self).requested_switch
                    == Some(AppId::Performance) && final(self).tick == old(self).tick
                &&& old(self).tick < old(self).animation.end_tick ==> final(self).requested_switch
                    == old(self).requested_switch && final(self).tick == old(self).tick + 1
            }),
    {
        let ghost frames = self.animation.frames@;
        let ghost changes = self.animation.changes@;
        let ghost ci0 = self.change_index as int;
        if self.frame_index > self.animation.frames.len() || self.change_index
            > self.animation.changes.len() {
            // Positions past the animation: nothing is due.
            if self.tick >= self.animation.end_tick {
                self.requested_switch = Some(AppId::Performance);
                return;
            }
            self.tick = self.tick + 1;
            return;
        }
        let ghost start_leds = leds@;
        proof {
            lemma_play_bounds(frames, changes.len() as int, self.frame_index as int, ci0, self.tick);
            assert(changes.subrange(ci0, ci0) =~= Seq::<BootChange>::empty());
            assert(change_commands(Seq::<BootChange>::empty()) =~= Seq::<LedCommand>::empty());
        }
        while self.frame_index < self.animation.frames.len() && self.animation.frames[self.frame_index].tick
            == self.tick
            invariant
                frames == self.animation.frames@,
                changes == self.animation.changes@,
                self.animation == old(self).animation,
                self.tick == old(self).tick,
                self.requested_switch == old(self).requested_switch,
                self.wf(),
                0 <= ci0 <= self.change_index,
                play(frames, changes.len() as int, old(self).frame_index as int, ci0, self.tick) == play(
                    frames,
                    changes.len() as int,
                    self.frame_index as int,
                    self.change_index as int,
                    self.tick,
                ),
                leds@ == start_leds + change_commands(changes.subrange(ci0, self.change_index as int)),
            decreases self.animation.frames.len() - self.frame_index,
        {
            let count = self.animation.frames[self.frame_index].count;
            let ghost ci_start = self.change_index as int;
            let ghost fi_start = self.frame_index as int;
            assert(frames[fi_start].tick == self.tick && frames[fi_start].count == count);
            let mut k: u8 = 0;
            while k < count
                invariant_except_break
                    frames == self.animation.frames@,
                    changes == self.animation.changes@,
                    self.animation == old(self).animation,
                    self.tick == old(self).tick,
                    self.requested_switch == old(self).requested_switch,
                    self.wf(),
                    self.frame_index < frames.len(),
                    self.frame_index == fi_start,
                    0 <= ci0 <= ci_start <= self.change_index,
                    self.change_index == ci_start + k,
                    k <= count,
                    leds@ == start_leds + change_commands(changes.subrange(ci0, self.change_index as int)),
                ensures
                    frames == self.animation.frames@,
                    changes == self.animation.changes@,
                    self.animation == old(self).animation,
                    self.tick == old(self).tick,
                    self.requested_switch == old(self).requested_switch,
                    self.wf(),
                    self.frame_index < frames.len(),
                    self.frame_index == fi_start,
                    0 <= ci0 <= ci_start <= self.change_index,
                    self.change_index == (if ci_start >= changes.len() {
                        ci_start
                    } else if ci_start + count > changes.len() {
                        changes.len() as int
                    } else {
                        ci_start + count
                    }),
                    leds@ == start_leds + change_commands(changes.subrange(ci0, self.change_index as int)),
                decreases count - k,
            {
                if self.change_index >= self.animation.changes.len() {
                    break;
                }
                let change = self.animation.changes[self.change_index];
                self.change_index += 1;
                leds.push(LedCommand::Novation { index: change.led, velocity: change.velocity });
                proof {
                    assert(change == changes[self.change_index - 1]);
                    assert(changes.subrange(ci0, self.change_index as int) =~= changes.subrange(
                        ci0,
                        self.change_index - 1,
                    ).push(change));
                    assert(change_commands(changes.subrange(ci0, self.change_index as int))
                        =~= change_commands(changes.subrange(ci0, self.change_index - 1)).push(
                        LedCommand::Novation { index: change.led, velocity: change.velocity },
                    ));
                }
                k += 1;
            }
            self.frame_index += 1;
            assert(play(frames, changes.len() as int, fi_start, ci_start, self.tick) == play(
                frames,
                changes.len() as int,
                self.frame_index as int,
                self.change_index as int,
                self.tick,
            ));
        }
        if self.tick >= self.animation.end_tick {
            self.requested_switch = Some(AppId::Performance);
            return;
        }
        self.tick = self.tick + 1;
    }

    /// Takes the application switch the animation asked for.
    fn take_requested_app_switch(&mut self) -> (r: Option<AppId>)
        ensures
            r == old(self).requested_switch,
            final(self).requested_switch is None,
            final(self).animation == old(self).animation,
            final(self).tick == old(self).tick,
            final(self).frame_index == old(self).frame_index,
            final(self).change_index == old(self).change_index,
    {
        let r = self.requested_switch;
        self.requested_switch = None;
        r
    }
}

/// A little-endian 16-bit value.
pub open spec fn le16(lo: u8, hi: u8) -> u16 {
    (lo + 256 * hi) as u16
}

/// The animation stored in `bytes`, if they hold one: the end tick (16 bits)
/// and the numbers of frames (16 bits) and changes (32 bits), little-endian,
/// then four bytes per frame (tick, 16 bits, and count) and two per change
/// (LED and velocity).
pub open spec fn parsed_animation(bytes: Seq<u8>) -> Option<(u16, Seq<BootFrame>, Seq<BootChange>)> {
    if bytes.len() < 8 {
        None
    } else {
        let nf = le16(bytes[2], bytes[3]) as int;
        let nc = bytes[4] + 256 * bytes[5] + 65536 * bytes[6] + 16777216 * bytes[7];
        if 8 + 4 * nf + 2 * nc > bytes.len() {
            None
        } else {
            Some(
                (
                    le16(bytes[0], bytes[1]),
                    Seq::new(
                        nf as nat,
                        |i: int|
                            BootFrame {
                                tick: le16(bytes[8 + 4 * i], bytes[9 + 4 * i]),
                                count: bytes[10 + 4 * i],
                            },
                    ),
                    Seq::new(
                        nc as nat,
                        |j: int|
                            BootChange {
                                led: bytes[8 + 4 * nf + 2 * j],
                                velocity: bytes[9 + 4 * nf + 2 * j],
                            },
                    ),
                ),
            )
        }
    }
}

impl BootAnimation {
    /// The animation stored in `bytes`; `None` when they are too short for
    /// what their header announces.
    pub fn from_bytes(bytes: &[u8]) -> (r: Option<BootAnimation>)
        ensures
            r is None <==> parsed_animation(bytes@) is None,
            r matches Some(a) ==> parsed_animation(bytes@) == Some(
                (a.end_tick, a.frames@, a.changes@),
            ),
    {
        if bytes.len() < 8 {
            return None;
        }
        let end_tick: u16 = bytes[0] as u16 + 256 * bytes[1] as u16;
        let nf: usize = bytes[2] as usize + 256 * bytes[3] as usize;
        let nc: u64 = bytes[4] as u64 + 256 * bytes[5] as u64 + 65536 * bytes[6] as u64 + 16777216
            * bytes[7] as u64;
        let len = bytes.len() as u64;
        if 8 + 4 * (nf as u64) + 2 * nc > len {
            return None;
        }
        let nc = nc as usize;
        let mut frames: Vec<BootFrame> = Vec::new();
        let mut i: usize = 0;
        while i < nf
            invariant
                i <= nf,
                8 + 4 * nf + 2 * nc <= bytes.len(),
                frames@ == Seq::new(
                    i as nat,
                    |k: int|
                        BootFrame {
                            tick: le16(bytes@[8 + 4 * k], bytes@[9 + 4 * k]),
                            count: bytes@[10 + 4 * k],
                        },
                ),
            decreases nf - i,
        {
            let tick: u16 = bytes[8 + 4 * i] as u16 + 256 * bytes[9 + 4 * i] as u16;
            frames.push(BootFrame { tick, count: bytes[10 + 4 * i] });
            i += 1;
            assert(frames@ =~= Seq::new(
                i as nat,
                |k: int|
                    BootFrame {
                        tick: le16(bytes@[8 + 4 * k], bytes@[9 + 4 * k]),
                        count: bytes@[10 + 4 * k],
                    },
            ));
        }
        let base = 8 + 4 * nf;
        let mut changes: Vec<BootChange> = Vec::new();
        let mut j: usize = 0;
        while j < nc
            invariant
                j <= nc,
                base == 8 + 4 * nf,
                base + 2 * nc <= bytes.len(),
                changes@ == Seq::new(
                    j as nat,
                    |k: int| BootChange { led: bytes@[base + 2 * k], velocity: bytes@[base + 2 * k + 1] },
                ),
            decreases nc - j,
        {
            changes.push(BootChange { led: bytes[base + 2 * j], velocity: bytes[base + 2 * j + 1] });
            j += 1;
            assert(changes@ =~= Seq::new(
                j as nat,
                |k: int| BootChange { led: bytes@[base + 2 * k], velocity: bytes@[base + 2 * k + 1] },
            ));
        }
        let r = BootAnimation { frames, changes, end_tick };
        proof {
            let p = parsed_animation(bytes@);
            assert(p is Some);
            let (t, fs, cs) = p->0;
            assert(fs =~= frames@);
            assert(cs =~= changes@);
        }
        Some(r)
    }
}

} // verus!
