//! The oscillator: an integer phase counter plus the rule that picks, for the
//! selected waveform, the harmonics that stay at or below the Nyquist limit.
//!
//! A call to `tick` does not produce a finished audio sample: the sine of an
//! angle has no place in integer code. Instead it returns a `TickPlan`, the
//! exact data from which one sample is evaluated: the phase the tick used,
//! the sample rate, the gain, and one `HarmonicTerm` per harmonic. The plan
//! for a sample is `(vol_gain / GAIN_ONE) * sum over terms of
//! (1 / amplitude_denom) * sin(2 * pi * phase * frequency / sample_rate)`.

use vstd::prelude::*;
use vstd::arithmetic::power::pow;

verus! {

/// The shape of the periodic signal that the oscillator synthesizes.
#[derive(Clone, Copy, PartialEq, Eq, Structural, Debug)]
pub enum Waveform {
    Sine,
    Square,
    Saw,
    Triangle,
}

/// Unit gain: an oscillator with `vol_gain == GAIN_ONE` plays at full volume.
/// Gains are fixed-point values in units of `1 / GAIN_ONE`.
pub const GAIN_ONE: i64 = 65536;

/// One additive term of a synthesized sample: a partial at `frequency` hertz
/// whose amplitude is `1 / amplitude_denom` of the oscillator's gain.
pub struct HarmonicTerm {
    pub frequency: u64,
    pub amplitude_denom: u64,
}

/// Everything one sample is evaluated from: the phase counter value the tick
/// used, the rate that normalizes it, the fixed-point gain, and the harmonic
/// terms to sum.
pub struct TickPlan {
    pub phase: u32,
    pub sample_rate: u32,
    pub vol_gain: i64,
    pub terms: Vec<HarmonicTerm>,
}

/// The sample-producing state: created once per output stream, its waveform
/// and frequency switched externally between ticks.
pub struct Oscillator {
    pub sample_rate: u32,
    pub waveform: Waveform,
    pub current_sample_index: u32,
    pub frequency_hz: u32,
    pub vol_gain: i64,
}

/// The harmonic with position `j` in a series that steps by `step`:
/// 1, 1 + step, 1 + 2 * step, ...
pub open spec fn harmonic_index(j: int, step: int) -> int {
    1 + j * step
}

/// How many harmonics of a series with the given step stay at or below the
/// Nyquist limit `rate / 2`: the number of indices `i = 1 + j * step` with
/// `2 * freq * i <= rate`.
pub open spec fn harmonic_count(freq: int, rate: int, step: int) -> int
    recommends
        0 < freq,
        0 < step,
{
    if 2 * freq > rate {
        0
    } else {
        (rate - 2 * freq) / (2 * freq * step) + 1
    }
}

/// The terms of a band-limited series: one per harmonic below Nyquist, at
/// `freq * i` hertz with amplitude `1 / i^expo`.
pub open spec fn harmonic_terms_ok(
    terms: Seq<HarmonicTerm>,
    freq: int,
    rate: int,
    step: int,
    expo: nat,
) -> bool {
    &&& terms.len() == harmonic_count(freq, rate, step)
    &&& forall|j: int|
        0 <= j < terms.len() ==> (#[trigger] terms[j]).frequency == freq * harmonic_index(j, step)
            && terms[j].amplitude_denom == pow(harmonic_index(j, step), expo)
}

/// What `tick` emits for each waveform: a plain sine is the single term at
/// the base frequency; the band-limited shapes follow their harmonic tables
/// (square: odd harmonics at 1/i, saw: all harmonics at 1/i, triangle: odd
/// harmonics at 1/i^2).
pub open spec fn waveform_terms_ok(w: Waveform, terms: Seq<HarmonicTerm>, freq: int, rate: int) -> bool {
    match w {
        Waveform::Sine => terms.len() == 1 && terms[0].frequency == freq
            && terms[0].amplitude_denom == 1,
        Waveform::Square => harmonic_terms_ok(terms, freq, rate, 2, 1),
        Waveform::Saw => harmonic_terms_ok(terms, freq, rate, 1, 1),
        Waveform::Triangle => harmonic_terms_ok(terms, freq, rate, 2, 2),
    }
}

/// The phase counter a well-formed oscillator holds after `n` ticks from
/// phase `start`: each tick adds one, wrapping modulo `rate`.
pub open spec fn phase_after(start: int, rate: int, n: nat) -> int
    decreases n,
{
    if n == 0 {
        start
    } else {
        (phase_after(start, rate, (n - 1) as nat) + 1) % rate
    }
}

/// `n` ticks from `start` land the phase counter on `(start + n) % rate`.
pub proof fn lemma_phase_after_adds(start: int, rate: int, n: nat)
    requires
        0 < rate,
        0 <= start < rate,
    ensures
        phase_after(start, rate, n) == (start + n) % rate,
    decreases n,
{
    if n == 0 {
        vstd::arithmetic::div_mod::lemma_small_mod(start as nat, rate as nat);
    } else {
        lemma_phase_after_adds(start, rate, (n - 1) as nat);
        vstd::arithmetic::div_mod::lemma_add_mod_noop(start + n - 1, 1, rate);
        if rate == 1 {
            vstd::arithmetic::div_mod::lemma_mod_self_0(1);
            vstd::arithmetic::div_mod::lemma_add_mod_noop(start + n - 1, 1, 1);
        } else {
            vstd::arithmetic::div_mod::lemma_small_mod(1, rate as nat);
        }
    }
}

/// Advancing a wrapped phase by one step lands where wrapping the unwrapped
/// count would: `((x % rate) + 1) % rate == (x + 1) % rate`.
pub proof fn lemma_phase_wrap_step(x: int, rate: int)
    requires
        0 < rate,
    ensures
        ((x % rate) + 1) % rate == (x + 1) % rate,
{
    vstd::arithmetic::div_mod::lemma_add_mod_noop(x, 1, rate);
    if rate == 1 {
        vstd::arithmetic::div_mod::lemma_mod_multiples_basic((x % 1) + 1, 1);
        vstd::arithmetic::div_mod::lemma_mod_multiples_basic(x + 1, 1);
    } else {
        vstd::arithmetic::div_mod::lemma_small_mod(1, rate as nat);
    }
}

/// Periodicity of the phase counter: after exactly `rate` ticks it returns
/// to its starting value, whatever the waveform did with it in between.
pub proof fn lemma_phase_periodic(start: int, rate: int)
    requires
        0 < rate,
        0 <= start < rate,
    ensures
        phase_after(start, rate, rate as nat) == start,
{
    lemma_phase_after_adds(start, rate, rate as nat);
    vstd::arithmetic::div_mod::lemma_mod_add_multiples_vanish(start, rate);
    vstd::arithmetic::div_mod::lemma_small_mod(start as nat, rate as nat);
}

/// Above the Nyquist limit the band-limited shapes fall silent: once
/// `2 * freq > rate`, so that even the fundamental would alias, a harmonic
/// series with any step holds no terms at all, and square, saw and triangle
/// plans evaluate to exactly zero.
pub proof fn lemma_nyquist_silence(freq: int, rate: int, step: int)
    requires
        0 < freq,
        0 < step,
        2 * freq > rate,
    ensures
        harmonic_count(freq, rate, step) == 0,
        forall|terms: Seq<HarmonicTerm>, expo: nat|
            harmonic_terms_ok(terms, freq, rate, step, expo) ==> terms.len() == 0,
{
}

impl Oscillator {
    /// The state an oscillator keeps between ticks: positive rate and
    /// frequency, and a phase counter inside `[0, sample_rate)`.
    pub open spec fn wf(&self) -> bool {
        &&& 0 < self.sample_rate
        &&& 0 < self.frequency_hz
        &&& self.current_sample_index < self.sample_rate
    }

    /// `self` after one phase advance, all other state kept.
    pub open spec fn advanced(&self) -> Oscillator {
        Oscillator {
            current_sample_index: (((self.current_sample_index + 1) as int
                % self.sample_rate as int) as u32),
            ..*self
        }
    }

    /// The header every tick's plan carries: the phase this state held, and
    /// its rate and gain.
    pub open spec fn plan_header_ok(&self, plan: TickPlan) -> bool {
        &&& plan.phase == self.current_sample_index
        &&& plan.sample_rate == self.sample_rate
        &&& plan.vol_gain == self.vol_gain
    }

    /// The plan `tick` owes when called on state `self`: the header above,
    /// and the terms of `self`'s waveform.
    pub open spec fn plan_ok(&self, plan: TickPlan) -> bool {
        &&& self.plan_header_ok(plan)
        &&& waveform_terms_ok(self.waveform, plan.terms@, self.frequency_hz as int, self.sample_rate as int)
    }

    /// Advance the phase counter by one sample period, wrapping modulo the
    /// sample rate.
    pub fn advance_sample(&mut self)
        requires
            old(self).wf(),
        ensures
            *final(self) == old(self).advanced(),
            final(self).wf(),
    {
        let next = self.current_sample_index + 1;
        if next == self.sample_rate {
            self.current_sample_index = 0;
        } else {
            self.current_sample_index = next;
        }
        proof {
            if next == self.sample_rate {
                assert(next as int % self.sample_rate as int == 0) by {
                    vstd::arithmetic::div_mod::lemma_mod_self_0(self.sample_rate as int);
                }
            } else {
                assert(next as int % self.sample_rate as int == next as int) by {
                    vstd::arithmetic::div_mod::lemma_small_mod(next as nat, self.sample_rate as nat);
                }
            }
        }
    }

    /// Select the waveform the next tick will synthesize; nothing else
    /// changes, in particular the phase is not reset.
    pub fn set_waveform(&mut self, waveform: Waveform)
        ensures
            *final(self) == (Oscillator { waveform, ..*old(self) }),
    {
        self.waveform = waveform;
    }

    /// Whether the harmonic at `multiple` times the base frequency lies
    /// strictly above the Nyquist limit `sample_rate / 2`.
    pub fn is_multiple_of_freq_above_nyquist(&self, multiple: u64) -> (r: bool)
        ensures
            r == (2 * self.frequency_hz * multiple > self.sample_rate),
    {
        proof {
            vstd::arithmetic::mul::lemma_mul_upper_bound(
                self.frequency_hz as int,
                u32::MAX as int,
                multiple as int,
                u64::MAX as int,
            );
            assert(2 * (self.frequency_hz as int) * (multiple as int) == (self.frequency_hz as int)
                * (multiple as int) + (self.frequency_hz as int) * (multiple as int))
                by (nonlinear_arith);
        }
        let prod = (self.frequency_hz as u128) * (multiple as u128);
        prod + prod > self.sample_rate as u128
    }

    /// One tick of the plain sine: a single term at the base frequency, and
    /// the phase advanced by one.
    pub fn sine_wave(&mut self) -> (plan: TickPlan)
        requires
            old(self).wf(),
        ensures
            *final(self) == old(self).advanced(),
            final(self).wf(),
            old(self).plan_header_ok(plan),
            waveform_terms_ok(
                Waveform::Sine,
                plan.terms@,
                old(self).frequency_hz as int,
                old(self).sample_rate as int,
            ),
    {
        let phase = self.current_sample_index;
        let mut terms: Vec<HarmonicTerm> = Vec::new();
        terms.push(HarmonicTerm { frequency: self.frequency_hz as u64, amplitude_denom: 1 });
        let plan = TickPlan {
            phase,
            sample_rate: self.sample_rate,
            vol_gain: self.vol_gain,
            terms,
        };
        self.advance_sample();
        plan
    }

    /// One tick of a band-limited series: one term for each harmonic
    /// `i = 1, 1 + step, 1 + 2 * step, ...` that stays at or below the
    /// Nyquist limit (`2 * frequency_hz * i <= sample_rate`), at
    /// `frequency_hz * i` hertz with amplitude `1 / i^gain_exponent`; then
    /// the phase advances by one. If even the base frequency lies above the
    /// limit, the plan holds no terms at all and the sample is silence.
    #[verifier::loop_isolation(false)]
    pub fn generative_waveform(
        &mut self,
        harmonic_index_increment: u32,
        gain_exponent: u32,
    ) -> (plan: TickPlan)
        requires
            old(self).wf(),
            1 <= harmonic_index_increment,
            gain_exponent == 1 || gain_exponent == 2,
        ensures
            *final(self) == old(self).advanced(),
            final(self).wf(),
            old(self).plan_header_ok(plan),
            harmonic_terms_ok(
                plan.terms@,
                old(self).frequency_hz as int,
                old(self).sample_rate as int,
                harmonic_index_increment as int,
                gain_exponent as nat,
            ),
    {
        let phase = self.current_sample_index;
        let step = harmonic_index_increment as u64;
        let ghost f = self.frequency_hz as int;
        let ghost rate = self.sample_rate as int;
        let mut terms: Vec<HarmonicTerm> = Vec::new();
        let mut i: u64 = 1;
        while !self.is_multiple_of_freq_above_nyquist(i)
            invariant
                i == 1 + terms@.len() * (step as int),
                terms@.len() > 0 ==> 2 * f * (1 + (terms@.len() - 1) * (step as int)) <= rate,
                forall|j: int|
                    0 <= j < terms@.len() ==> (#[trigger] terms@[j]).frequency == f
                        * harmonic_index(j, step as int) && terms@[j].amplitude_denom == pow(
                        harmonic_index(j, step as int),
                        gain_exponent as nat,
                    ),
            decreases rate + step - i,
        {
            proof {
                assert(2 * (i as int) <= 2 * f * (i as int) && 2 * (f * (i as int)) == 2 * f * (
                i as int)) by (nonlinear_arith)
                    requires
                        1 <= f,
                        1 <= i as int,
                ;
                vstd::arithmetic::mul::lemma_mul_upper_bound(
                    i as int,
                    0x8000_0000,
                    i as int,
                    0x8000_0000,
                );
            }
            let denom: u64 = if gain_exponent == 1 {
                proof {
                    vstd::arithmetic::power::lemma_pow1(i as int);
                }
                i
            } else {
                proof {
                    vstd::arithmetic::power::lemma_square_is_pow2(i as int);
                }
                i * i
            };
            terms.push(HarmonicTerm { frequency: (self.frequency_hz as u64) * i, amplitude_denom: denom });
            proof {
                assert(terms@.len() * (step as int) == (terms@.len() - 1) * (step as int) + (
                step as int)) by (nonlinear_arith);
            }
            i = i + step;
        }
        proof {
            let st = step as int;
            let len = terms@.len() as int;
            assert(2 * f * (1 + len * st) > rate);
            if len == 0 {
                assert(1 + len * st == 1) by (nonlinear_arith)
                    requires
                        len == 0,
                ;
                assert(2 * f * 1 == 2 * f) by (nonlinear_arith);
            } else {
                let d = 2 * f * st;
                let x = rate - 2 * f;
                assert(2 * f * (1 + len * st) == 2 * f + d * len) by (nonlinear_arith)
                    requires
                        d == 2 * f * st,
                ;
                assert(2 * f * (1 + (len - 1) * st) == 2 * f + d * (len - 1)) by (nonlinear_arith)
                    requires
                        d == 2 * f * st,
                ;
                assert(0 < d) by (nonlinear_arith)
                    requires
                        0 < f,
                        0 < st,
                        d == 2 * f * st,
                ;
                assert(d * len == d * (len - 1) + d) by (nonlinear_arith);
                assert((len - 1) * d == d * (len - 1) && len * d == d * len) by (nonlinear_arith);
                vstd::arithmetic::div_mod::lemma_fundamental_div_mod_converse(
                    x,
                    d,
                    len - 1,
                    x - (len - 1) * d,
                );
            }
        }
        let plan = TickPlan {
            phase,
            sample_rate: self.sample_rate,
            vol_gain: self.vol_gain,
            terms,
        };
        self.advance_sample();
        plan
    }

    /// One tick of the square shape: odd harmonics at amplitude `1 / i`.
    pub fn square_wave(&mut self) -> (plan: TickPlan)
        requires
            old(self).wf(),
        ensures
            *final(self) == old(self).advanced(),
            final(self).wf(),
            old(self).plan_header_ok(plan),
            waveform_terms_ok(
                Waveform::Square,
                plan.terms@,
                old(self).frequency_hz as int,
                old(self).sample_rate as int,
            ),
    {
        self.generative_waveform(2, 1)
    }

    /// One tick of the saw shape: every harmonic at amplitude `1 / i`.
    pub fn saw_wave(&mut self) -> (plan: TickPlan)
        requires
            old(self).wf(),
        ensures
            *final(self) == old(self).advanced(),
            final(self).wf(),
            old(self).plan_header_ok(plan),
            waveform_terms_ok(
                Waveform::Saw,
                plan.terms@,
                old(self).frequency_hz as int,
                old(self).sample_rate as int,
            ),
    {
        self.generative_waveform(1, 1)
    }

    /// One tick of the triangle shape: odd harmonics at amplitude `1 / i^2`.
    pub fn triangle_wave(&mut self) -> (plan: TickPlan)
        requires
            old(self).wf(),
        ensures
            *final(self) == old(self).advanced(),
            final(self).wf(),
            old(self).plan_header_ok(plan),
            waveform_terms_ok(
                Waveform::Triangle,
                plan.terms@,
                old(self).frequency_hz as int,
                old(self).sample_rate as int,
            ),
    {
        self.generative_waveform(2, 2)
    }

    /// Emit the plan for the next sample of the selected waveform and advance
    /// the phase counter by exactly one sample period, wrapping modulo the
    /// sample rate.
    pub fn tick(&mut self) -> (plan: TickPlan)
        requires
            old(self).wf(),
        ensures
            *final(self) == old(self).advanced(),
            final(self).wf(),
            old(self).plan_ok(plan),
    {
        match self.waveform {
            Waveform::Sine => self.sine_wave(),
            Waveform::Square => self.square_wave(),
            Waveform::Saw => self.saw_wave(),
            Waveform::Triangle => self.triangle_wave(),
        }
    }
}

} // verus!
