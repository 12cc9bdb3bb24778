//! Frame pacing: when the emulator hands a finished frame to the screen.
use vstd::prelude::*;

verus! {

/// Adds the cycles of one step to the cycles counted towards the next frame. When they reach
/// `per_frame` a frame is due: the result says so and keeps what went past the frame.
pub fn frame_tick(acc: u32, cycles: u32, per_frame: u32) -> (r: (u32, bool))
    requires
        acc + cycles <= u32::MAX,
    ensures
        r.1 == (acc + cycles >= per_frame),
        r.0 == if r.1 {
            acc + cycles - per_frame
        } else {
            acc + cycles
        },
{
    let mut acc = acc + cycles;
    if acc >= per_frame {
        acc -= per_frame;
        (acc, true)
    } else {
        (acc, false)
    }
}

} // verus!
