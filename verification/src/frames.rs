//! The frame writer's verified half. An output buffer is partitioned into
//! frames of `num_channels` contiguous slots; each frame is owed exactly one
//! oscillator tick, and every slot of a frame holds the same sample.
//! `plan_frames` produces the tick plans, one per frame; once the surrounding
//! program has evaluated and converted them, `fan_out` duplicates each
//! converted sample across its frame's channel slots.

use vstd::prelude::*;
use crate::oscillator::Oscillator;
use crate::oscillator::TickPlan;
use crate::oscillator::lemma_phase_wrap_step;
use crate::oscillator::waveform_terms_ok;

verus! {

/// What planning `n` frames from state `pre` owes: `n` plans, the `j`-th
/// carrying the phase `j` steps past `pre`'s and the terms of `pre`'s
/// waveform, and the final state `post` advanced `n` steps, wrapped modulo
/// the sample rate, with everything else kept.
pub open spec fn frames_planned(
    pre: Oscillator,
    post: Oscillator,
    plans: Seq<TickPlan>,
    n: int,
) -> bool {
    &&& plans.len() == n
    &&& post.wf()
    &&& post.sample_rate == pre.sample_rate
    &&& post.waveform == pre.waveform
    &&& post.frequency_hz == pre.frequency_hz
    &&& post.vol_gain == pre.vol_gain
    &&& post.current_sample_index == (pre.current_sample_index + n) % (pre.sample_rate as int)
    &&& forall|j: int|
        0 <= j < n ==> (#[trigger] plans[j]).phase == (pre.current_sample_index + j) % (
        pre.sample_rate as int) && plans[j].sample_rate == pre.sample_rate
            && plans[j].vol_gain == pre.vol_gain && waveform_terms_ok(
            pre.waveform,
            plans[j].terms@,
            pre.frequency_hz as int,
            pre.sample_rate as int,
        )
}

/// Periodicity at the buffer level: planning exactly one sample rate's worth
/// of frames brings the phase counter back to its starting value.
pub proof fn lemma_full_cycle_returns_phase(pre: Oscillator, post: Oscillator, plans: Seq<TickPlan>)
    requires
        pre.wf(),
        frames_planned(pre, post, plans, pre.sample_rate as int),
    ensures
        post.current_sample_index == pre.current_sample_index,
{
    vstd::arithmetic::div_mod::lemma_mod_add_multiples_vanish(
        pre.current_sample_index as int,
        pre.sample_rate as int,
    );
    vstd::arithmetic::div_mod::lemma_small_mod(
        pre.current_sample_index as nat,
        pre.sample_rate as nat,
    );
}

/// Plan `frame_count` consecutive ticks: exactly one tick per output frame,
/// whatever the channel count, so the channel count never affects pitch or
/// timing. Plan `j` carries the phase `j` steps past the starting phase, and
/// the oscillator ends `frame_count` steps ahead, wrapped modulo the rate.
#[verifier::loop_isolation(false)]
pub fn plan_frames(oscillator: &mut Oscillator, frame_count: usize) -> (plans: Vec<TickPlan>)
    requires
        old(oscillator).wf(),
    ensures
        frames_planned(*old(oscillator), *final(oscillator), plans@, frame_count as int),
{
    let ghost start = old(oscillator).current_sample_index as int;
    let ghost rate = old(oscillator).sample_rate as int;
    proof {
        vstd::arithmetic::div_mod::lemma_small_mod(start as nat, rate as nat);
    }
    let mut plans: Vec<TickPlan> = Vec::new();
    let mut j: usize = 0;
    while j < frame_count
        invariant
            j == plans@.len(),
            j <= frame_count,
            oscillator.wf(),
            oscillator.sample_rate == old(oscillator).sample_rate,
            oscillator.waveform == old(oscillator).waveform,
            oscillator.frequency_hz == old(oscillator).frequency_hz,
            oscillator.vol_gain == old(oscillator).vol_gain,
            oscillator.current_sample_index == (start + j) % rate,
            forall|k: int|
                0 <= k < j ==> (#[trigger] plans@[k]).phase == (start + k) % rate
                    && plans@[k].sample_rate == old(oscillator).sample_rate
                    && plans@[k].vol_gain == old(oscillator).vol_gain && waveform_terms_ok(
                    old(oscillator).waveform,
                    plans@[k].terms@,
                    old(oscillator).frequency_hz as int,
                    old(oscillator).sample_rate as int,
                ),
        decreases frame_count - j,
    {
        let plan = oscillator.tick();
        plans.push(plan);
        proof {
            lemma_phase_wrap_step(start + j, rate);
        }
        j = j + 1;
    }
    plans
}

/// Expand one converted sample per frame into `num_channels` interleaved
/// slots: every slot of frame `j` in the result holds a copy of
/// `samples[j]`, so all channels of a frame are identical.
#[verifier::loop_isolation(false)]
pub fn fan_out<T: Copy>(samples: &Vec<T>, num_channels: usize) -> (out: Vec<T>)
    requires
        1 <= num_channels,
        samples@.len() * num_channels <= usize::MAX,
    ensures
        out@.len() == samples@.len() * num_channels,
        forall|k: int|
            0 <= k < out@.len() ==> out@[k] == samples@[k / (num_channels as int)],
{
    let mut out: Vec<T> = Vec::new();
    let mut j: usize = 0;
    while j < samples.len()
        invariant
            j <= samples@.len(),
            out@.len() == j * num_channels,
            forall|k: int|
                0 <= k < out@.len() ==> out@[k] == samples@[k / (num_channels as int)],
        decreases samples@.len() - j,
    {
        proof {
            vstd::arithmetic::mul::lemma_mul_inequality(
                j + 1,
                samples@.len() as int,
                num_channels as int,
            );
            assert((j + 1) * (num_channels as int) == j * (num_channels as int)
                + num_channels as int) by (nonlinear_arith);
        }
        let v = samples[j];
        let mut c: usize = 0;
        while c < num_channels
            invariant
                c <= num_channels,
                out@.len() == j * num_channels + c,
                forall|k: int|
                    0 <= k < out@.len() ==> out@[k] == samples@[k / (num_channels as int)],
            decreases num_channels - c,
        {
            out.push(v);
            proof {
                vstd::arithmetic::div_mod::lemma_fundamental_div_mod_converse(
                    j * (num_channels as int) + c,
                    num_channels as int,
                    j as int,
                    c as int,
                );
            }
            c = c + 1;
        }
        j = j + 1;
    }
    out
}

} // verus!
