//! The frame-rate governor's decision logic.  The surrounding program
//! reads the machine clock and performs the actual sleeping and printing;
//! this module only decides, from tick values in milliseconds, whether a
//! frame runs now or the loop waits, and tracks the frames-per-second
//! tally.

use vstd::prelude::*;

verus! {

/// Target time between frames in milliseconds (60 frames per second).
pub const FRAME_INTERVAL: u32 = 16;

/// What the frame loop does next.
#[derive(Clone, Copy, PartialEq, Eq, Structural, Debug)]
pub enum FrameAction {
    /// Too early: block the loop for this many milliseconds.
    Delay(u32),
    /// Run a frame with this many milliseconds elapsed since the last one.
    Continue(u32),
}

/// Frame pacing state over a millisecond tick counter.
#[derive(Clone, Copy, PartialEq, Eq, Structural, Debug)]
pub struct FrameTimer {
    /// Tick value of the last frame that ran.
    pub before: u32,
    /// Tick value when the frames-per-second tally last reset.
    pub last_second: u32,
    /// Frames run since the tally last reset.
    pub fps: u16,
    /// Whether the surrounding program reports the tally.
    pub debug: bool,
}

impl FrameTimer {
    /// A timer that treats `now` as the moment of the last frame.
    pub fn new(now: u32, debug: bool) -> (t: FrameTimer)
        ensures
            t == (FrameTimer { before: now, last_second: now, fps: 0u16, debug }),
    {
        FrameTimer { before: now, last_second: now, fps: 0, debug }
    }

    /// Decides, at tick `now`, whether a frame runs.  Less than
    /// `FRAME_INTERVAL` since the last frame: the loop delays for the
    /// remainder and nothing changes.  Otherwise a frame runs with the
    /// true elapsed time, the tally advances, and once more than a second
    /// has passed the tally resets.
    pub fn on_frame(&mut self, now: u32) -> (action: FrameAction)
        requires
            old(self).before <= now,
            old(self).last_second <= now,
        ensures
            now - old(self).before < FRAME_INTERVAL ==> action == FrameAction::Delay(
                (FRAME_INTERVAL - (now - old(self).before)) as u32,
            ) && *final(self) == *old(self),
            now - old(self).before >= FRAME_INTERVAL ==> {
                &&& action == FrameAction::Continue((now - old(self).before) as u32)
                &&& final(self).before == now
                &&& final(self).debug == old(self).debug
                &&& (now - old(self).last_second > 1000 ==> final(self).last_second == now
                    && final(self).fps == 0)
                &&& (now - old(self).last_second <= 1000 ==> final(self).last_second == old(
                    self,
                ).last_second && final(self).fps as int == if old(self).fps < u16::MAX {
                    old(self).fps as int + 1
                } else {
                    old(self).fps as int
                })
            },
    {
        let time_change = now - self.before;
        if time_change < FRAME_INTERVAL {
            return FrameAction::Delay(FRAME_INTERVAL - time_change);
        }
        self.before = now;
        if self.fps < u16::MAX {
            self.fps = self.fps + 1;
        }
        if now - self.last_second > 1000 {
            self.last_second = now;
            self.fps = 0;
        }
        FrameAction::Continue(time_change)
    }
}

} // verus!
