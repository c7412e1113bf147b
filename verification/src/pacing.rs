//! The frame clock: one frame lasts a sixtieth of a second, and both the
//! presentation loop and a worker whose delivery failed go by it.

use vstd::prelude::*;

verus! {

/// Frames shown per second, at most.
pub const FRAMES_PER_SECOND: u32 = 60;

/// Length of one frame in nanoseconds, rounded down.
pub const FRAME_INTERVAL_NANOS: u32 = 1_000_000_000 / 60;

/// The frame interval is a sixtieth of a second, cut to whole nanoseconds.
pub proof fn lemma_frame_interval()
    ensures
        FRAME_INTERVAL_NANOS == 16_666_666,
        FRAMES_PER_SECOND * FRAME_INTERVAL_NANOS <= 1_000_000_000,
        1_000_000_000 < FRAMES_PER_SECOND * (FRAME_INTERVAL_NANOS + 1),
{
}

/// Whether a span of `elapsed_nanos` nanoseconds covers a whole frame.
pub fn frame_elapsed(elapsed_nanos: u128) -> (elapsed: bool)
    ensures
        elapsed == (elapsed_nanos >= FRAME_INTERVAL_NANOS),
{
    elapsed_nanos >= FRAME_INTERVAL_NANOS as u128
}

/// How long a worker rests after it has tried to hand over a pixel: not at
/// all where the pixel was taken, one frame where it was refused. The
/// refused pixel is not offered again.
pub fn pause_after_send(delivered: bool) -> (pause: Option<u32>)
    ensures
        delivered ==> pause is None,
        !delivered ==> pause == Some(FRAME_INTERVAL_NANOS),
{
    if delivered {
        None
    } else {
        Some(FRAME_INTERVAL_NANOS)
    }
}

} // verus!
