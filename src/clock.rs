//! The frame clock: when the last paced frame was drawn, and the minimum
//! spacing between paced frames. Instants are nanoseconds on a monotonic
//! clock, counted from any fixed origin.
use vstd::prelude::*;

verus! {

/// The default minimum spacing between paced frames: one sixtieth of a
/// second, in nanoseconds (rounded up).
pub const DEFAULT_TARGET_FRAME_NANOS: u64 = 16_666_667;

#[derive(PartialEq, Eq, Structural, Clone, Copy, Debug)]
pub struct FrameClock {
    /// The instant at which the last paced frame was drawn (or the clock
    /// was made, before the first one).
    pub last_frame: u64,
    /// The minimum spacing between two paced frames.
    pub target: u64,
}

impl FrameClock {
    /// Whether a paced frame is due at `now`: at least `target` has passed
    /// since the last one (inclusive). A reading earlier than the last frame
    /// counts as no time passed.
    pub open spec fn due_at(self, now: u64) -> bool {
        now >= self.last_frame && now - self.last_frame >= self.target
    }

    /// A clock started at `start` with the default spacing of 1/60 s.
    pub fn new(start: u64) -> (r: FrameClock)
        ensures
            r.last_frame == start,
            r.target == DEFAULT_TARGET_FRAME_NANOS,
    {
        FrameClock { last_frame: start, target: DEFAULT_TARGET_FRAME_NANOS }
    }

    /// A clock started at `start` with the given spacing.
    pub fn with_target(start: u64, target: u64) -> (r: FrameClock)
        ensures
            r.last_frame == start,
            r.target == target,
    {
        FrameClock { last_frame: start, target }
    }

    /// The time passed since the last paced frame; zero for a reading
    /// earlier than it.
    pub fn elapsed(&self, now: u64) -> (r: u64)
        ensures
            now >= self.last_frame ==> r == now - self.last_frame,
            now < self.last_frame ==> r == 0,
    {
        if now >= self.last_frame {
            now - self.last_frame
        } else {
            0
        }
    }

    pub fn is_due(&self, now: u64) -> (r: bool)
        ensures
            r == self.due_at(now),
    {
        now >= self.last_frame && self.elapsed(now) >= self.target
    }
}

} // verus!
