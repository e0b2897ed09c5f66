//! The playback scheduler: it advances with the wall clock and switches the
//! active waveform on fixed one-second windows, then hands the output
//! callback over to the frame planner.

use vstd::prelude::*;
use crate::frames::frames_planned;
use crate::frames::plan_frames;
use crate::oscillator::Oscillator;
use crate::oscillator::TickPlan;
use crate::oscillator::Waveform;

verus! {

/// The waveform owed after `elapsed_millis` milliseconds of playback: sine
/// for the first second, then triangle, square and saw for one second each,
/// and sine again from the fourth second on.
pub open spec fn scheduled_waveform(elapsed_millis: int) -> Waveform {
    if elapsed_millis < 1000 {
        Waveform::Sine
    } else if elapsed_millis < 2000 {
        Waveform::Triangle
    } else if elapsed_millis < 3000 {
        Waveform::Square
    } else if elapsed_millis < 4000 {
        Waveform::Saw
    } else {
        Waveform::Sine
    }
}

/// Select the waveform for the elapsed playback time.
pub fn select_waveform(elapsed_millis: u64) -> (w: Waveform)
    ensures
        w == scheduled_waveform(elapsed_millis as int),
{
    if elapsed_millis < 1000 {
        Waveform::Sine
    } else if elapsed_millis < 2000 {
        Waveform::Triangle
    } else if elapsed_millis < 3000 {
        Waveform::Square
    } else if elapsed_millis < 4000 {
        Waveform::Saw
    } else {
        Waveform::Sine
    }
}

/// One output callback: switch the oscillator to the waveform the elapsed
/// time schedules, then plan exactly one tick per frame of the buffer. The
/// phase is not reset by the switch, so the change is not smoothed.
pub fn scheduled_frames(
    oscillator: &mut Oscillator,
    elapsed_millis: u64,
    frame_count: usize,
) -> (plans: Vec<TickPlan>)
    requires
        old(oscillator).wf(),
    ensures
        final(oscillator).waveform == scheduled_waveform(elapsed_millis as int),
        frames_planned(
            (Oscillator {
                waveform: scheduled_waveform(elapsed_millis as int),
                ..*old(oscillator)
            }),
            *final(oscillator),
            plans@,
            frame_count as int,
        ),
{
    let w = select_waveform(elapsed_millis);
    oscillator.set_waveform(w);
    plan_frames(oscillator, frame_count)
}

} // verus!
