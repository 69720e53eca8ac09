//! The LED scan timer of the Launchpad Mini MK3: each interrupt alternates
//! between preparing a slot and driving it, and a completed frame is
//! reported once.

use vstd::prelude::*;

verus! {

/// Shortest interval between two scan interrupts, in microseconds.
pub const MIN_IRQ_INTERVAL_US: u64 = 24;

/// Timer reload value of the first interrupt, in microseconds.
pub const INITIAL_ARR_US: u16 = 32;

/// What the next scan interrupt does.
#[derive(Copy, Clone, Debug, PartialEq, Eq, Structural)]
pub enum ScanStep {
    /// Load the next slot; the following interrupt drives it.
    Prepare,
    /// Drive the loaded slot and move to the next.
    Drive,
}

/// The scan state kept between interrupts.
pub struct LedScan {
    pub drive_phase: bool,
    pub frame_complete: bool,
}

/// The timer reload value for a delay of `us` microseconds: at least the
/// shortest interval, at most what the timer holds.
pub open spec fn arr_of(us: u64) -> u16 {
    if us < MIN_IRQ_INTERVAL_US {
        MIN_IRQ_INTERVAL_US as u16
    } else if us > u16::MAX {
        u16::MAX
    } else {
        us as u16
    }
}

/// The timer reload value for a delay of `us` microseconds.
pub fn timer_arr_from_us(us: u64) -> (r: u16)
    ensures
        r == arr_of(us),
{
    if us < MIN_IRQ_INTERVAL_US {
        MIN_IRQ_INTERVAL_US as u16
    } else if us > u16::MAX as u64 {
        u16::MAX
    } else {
        us as u16
    }
}

impl LedScan {
    /// A scan that starts by preparing, with no frame completed.
    pub fn new() -> (r: LedScan)
        ensures
            !r.drive_phase,
            !r.frame_complete,
    {
        LedScan { drive_phase: false, frame_complete: false }
    }

    /// Starts the scan over.
    pub fn start(&mut self)
        ensures
            *final(self) == after_call(*old(self), ScanCall::Start),
            !final(self).drive_phase,
            !final(self).frame_complete,
    {
        self.drive_phase = false;
        self.frame_complete = false;
    }

    /// The step of this interrupt: prepare and drive alternate.
    pub fn next_step(&mut self) -> (r: ScanStep)
        ensures
            *final(self) == after_call(*old(self), ScanCall::NextStep),
            r == (if old(self).drive_phase {
                ScanStep::Drive
            } else {
                ScanStep::Prepare
            }),
            final(self).drive_phase == !old(self).drive_phase,
            final(self).frame_complete == old(self).frame_complete,
    {
        if !self.drive_phase {
            self.drive_phase = true;
            ScanStep::Prepare
        } else {
            self.drive_phase = false;
            ScanStep::Drive
        }
    }

    /// Records, after a drive step, whether the frame is complete.
    pub fn finish_drive(&mut self, frame_complete: bool)
        ensures
            *final(self) == after_call(*old(self), ScanCall::FinishDrive(frame_complete)),
            final(self).drive_phase == old(self).drive_phase,
            final(self).frame_complete == (old(self).frame_complete || frame_complete),
    {
        if frame_complete {
            self.frame_complete = true;
        }
    }

    /// Whether a frame was completed since last asked; asking clears it.
    pub fn take_frame_complete(&mut self) -> (r: bool)
        ensures
            *final(self) == after_call(*old(self), ScanCall::TakeFrameComplete),
            r == old(self).frame_complete,
            !final(self).frame_complete,
            final(self).drive_phase == old(self).drive_phase,
    {
        let r = self.frame_complete;
        self.frame_complete = false;
        r
    }
}

/// A call on the scan state.
pub enum ScanCall {
    Start,
    NextStep,
    FinishDrive(bool),
    TakeFrameComplete,
}

/// The scan state after `c`, as the methods' contracts give it.
pub open spec fn after_call(s: LedScan, c: ScanCall) -> LedScan {
    match c {
        ScanCall::Start => LedScan { drive_phase: false, frame_complete: false },
        ScanCall::NextStep => LedScan { drive_phase: !s.drive_phase, ..s },
        ScanCall::FinishDrive(done) => LedScan { frame_complete: s.frame_complete || done, ..s },
        ScanCall::TakeFrameComplete => LedScan { frame_complete: false, ..s },
    }
}

/// The scan state after the calls `cs`, in order.
pub open spec fn after_calls(s: LedScan, cs: Seq<ScanCall>) -> LedScan
    decreases cs.len(),
{
    if cs.len() == 0 {
        s
    } else {
        after_call(after_calls(s, cs.drop_last()), cs.last())
    }
}

/// Between two questions (and with no restart), whether a frame was
/// completed is answered `true` exactly when a drive step reported one, or
/// one was pending already.
pub proof fn lemma_frame_complete_since_last_asked(s: LedScan, cs: Seq<ScanCall>)
    requires
        forall|i: int| 0 <= i < cs.len() ==> !(#[trigger] cs[i] is TakeFrameComplete) && !(cs[i] is Start),
    ensures
        after_calls(s, cs).frame_complete == (s.frame_complete || exists|i: int|
            0 <= i < cs.len() && #[trigger] cs[i] == ScanCall::FinishDrive(true)),
    decreases cs.len(),
{
    if cs.len() > 0 {
        let init = cs.drop_last();
        assert forall|i: int| 0 <= i < init.len() implies !(#[trigger] init[i] is TakeFrameComplete)
            && !(init[i] is Start) by {
            assert(init[i] == cs[i]);
        }
        lemma_frame_complete_since_last_asked(s, init);
        if exists|i: int| 0 <= i < init.len() && #[trigger] init[i] == ScanCall::FinishDrive(true) {
            let i = choose|i: int| 0 <= i < init.len() && #[trigger] init[i] == ScanCall::FinishDrive(true);
            assert(cs[i] == ScanCall::FinishDrive(true));
        }
        if exists|i: int| 0 <= i < cs.len() && #[trigger] cs[i] == ScanCall::FinishDrive(true) {
            let i = choose|i: int| 0 <= i < cs.len() && #[trigger] cs[i] == ScanCall::FinishDrive(true);
            if i < init.len() {
                assert(init[i] == ScanCall::FinishDrive(true));
            }
        }
        assert(!(cs[cs.len() - 1] is TakeFrameComplete) && !(cs[cs.len() - 1] is Start));
    }
}

/// A completed frame is reported once: after a question, and with no drive
/// step reporting a new frame, the next question is answered `false`.
pub proof fn lemma_frame_complete_taken_once(s: LedScan, cs: Seq<ScanCall>)
    requires
        forall|i: int| 0 <= i < cs.len() ==> #[trigger] cs[i] != ScanCall::FinishDrive(true),
    ensures
        !after_calls(after_call(s, ScanCall::TakeFrameComplete), cs).frame_complete,
    decreases cs.len(),
{
    if cs.len() > 0 {
        let init = cs.drop_last();
        assert forall|i: int| 0 <= i < init.len() implies #[trigger] init[i] != ScanCall::FinishDrive(
            true,
        ) by {
            assert(init[i] == cs[i]);
        }
        lemma_frame_complete_taken_once(s, init);
        assert(cs[cs.len() - 1] != ScanCall::FinishDrive(true));
    }
}

} // verus!
