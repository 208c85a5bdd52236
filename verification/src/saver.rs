//! When the saver window prepares its visual: only once the window size has
//! held steady for a few frames, so that a fullscreen transition does not
//! seed the effect at an intermediate size. Comparing sizes is floating
//! point and left to the caller, which reports whether the current size is
//! close to the one being watched.

use vstd::prelude::*;

verus! {

/// Frames a size must hold before the visual is prepared.
pub const STABLE_FRAME_COUNT: u8 = 6;

/// The size being watched (whether there is one) and for how many frames
/// it has held.
#[derive(Debug, Clone, Copy, PartialEq, Eq, Structural)]
pub struct SizeSettle {
    pub watching: bool,
    pub frames: u8,
}

pub open spec fn settle_step(state: SizeSettle, close_to_watched: bool) -> SizeSettle {
    if state.watching && close_to_watched {
        SizeSettle {
            watching: true,
            frames: if state.frames == u8::MAX {
                u8::MAX
            } else {
                (state.frames + 1) as u8
            },
        }
    } else {
        SizeSettle { watching: true, frames: 1 }
    }
}

impl SizeSettle {
    pub fn new() -> (settle: SizeSettle)
        ensures
            settle == (SizeSettle { watching: false, frames: 0 }),
    {
        SizeSettle { watching: false, frames: 0 }
    }

    /// Takes one frame: a size close to the watched one extends its count
    /// (saturating); any other size starts being watched from one frame.
    /// Says whether the size has now held long enough.
    pub fn observe(&mut self, close_to_watched: bool) -> (settled: bool)
        ensures
            *final(self) == settle_step(*old(self), close_to_watched),
            settled == (final(self).frames >= STABLE_FRAME_COUNT),
    {
        if self.watching && close_to_watched {
            self.frames = self.frames.saturating_add(1);
        } else {
            self.watching = true;
            self.frames = 1;
        }
        self.frames >= STABLE_FRAME_COUNT
    }
}

/// A size that keeps matching settles after exactly the stable frame count:
/// starting to watch counts one frame, and each matching frame one more.
pub proof fn lemma_settles_after_stable_frames(state: SizeSettle)
    requires
        state.watching,
        1 <= state.frames < STABLE_FRAME_COUNT,
    ensures
        settle_step(state, true).frames == state.frames + 1,
        settle_step(state, false).frames == 1,
{
}

} // verus!
