use synth::oscillator::GAIN_ONE;
use synth::oscillator::Oscillator;
use synth::oscillator::TickPlan;
use synth::oscillator::Waveform;

/// Evaluate one tick plan to an audio sample: gain times the sum of the
/// harmonic sines, as the plan's documentation lays it out.
fn evaluate_plan(plan: &TickPlan) -> f32 {
    let two_pi = 2.0 * std::f32::consts::PI;
    let gain = plan.vol_gain as f32 / GAIN_ONE as f32;
    let mut output = 0.0f32;
    for term in plan.terms.iter() {
        let amplitude = gain / term.amplitude_denom as f32;
        output += amplitude
            * (plan.phase as f32 * term.frequency as f32 * two_pi / plan.sample_rate as f32).sin();
    }
    output
}

fn oscillator_48k(waveform: Waveform) -> Oscillator {
    Oscillator {
        sample_rate: 48000,
        waveform,
        current_sample_index: 0,
        frequency_hz: 440,
        vol_gain: GAIN_ONE,
    }
}

#[test]
fn sine_at_phase_zero_is_exactly_zero() {
    let mut osc = oscillator_48k(Waveform::Sine);
    let plan = osc.tick();
    assert_eq!(plan.phase, 0);
    assert_eq!(evaluate_plan(&plan), 0.0);
}

#[test]
fn sine_sequence_matches_closed_form() {
    let mut osc = oscillator_48k(Waveform::Sine);
    let two_pi = 2.0 * std::f32::consts::PI;
    for n in 0u32..256 {
        let plan = osc.tick();
        assert_eq!(plan.phase, n);
        let expected = (n as f32 * 440.0 * two_pi / 48000.0).sin();
        assert_eq!(evaluate_plan(&plan), expected);
    }
}

#[test]
fn phase_returns_to_start_after_sample_rate_ticks() {
    let mut osc = Oscillator {
        sample_rate: 100,
        waveform: Waveform::Sine,
        current_sample_index: 7,
        frequency_hz: 10,
        vol_gain: GAIN_ONE,
    };
    for _ in 0..100 {
        osc.tick();
    }
    assert_eq!(osc.current_sample_index, 7);
}

#[test]
fn phase_periodicity_holds_for_every_waveform() {
    for waveform in [Waveform::Sine, Waveform::Square, Waveform::Saw, Waveform::Triangle] {
        let mut osc = Oscillator {
            sample_rate: 64,
            waveform,
            current_sample_index: 0,
            frequency_hz: 5,
            vol_gain: GAIN_ONE,
        };
        for _ in 0..64 {
            osc.tick();
        }
        assert_eq!(osc.current_sample_index, 0);
    }
}

#[test]
fn square_takes_odd_harmonics_below_nyquist() {
    let mut osc = oscillator_48k(Waveform::Square);
    let plan = osc.tick();
    // Odd multiples i of 440 with 440 * i <= 24000: i = 1, 3, ..., 53.
    assert_eq!(plan.terms.len(), 27);
    for (j, term) in plan.terms.iter().enumerate() {
        let i = 1 + 2 * j as u64;
        assert_eq!(term.frequency, 440 * i);
        assert_eq!(term.amplitude_denom, i);
    }
}

#[test]
fn saw_takes_every_harmonic_below_nyquist() {
    let mut osc = oscillator_48k(Waveform::Saw);
    let plan = osc.tick();
    // Every multiple i of 440 with 440 * i <= 24000: i = 1, ..., 54.
    assert_eq!(plan.terms.len(), 54);
    for (j, term) in plan.terms.iter().enumerate() {
        let i = 1 + j as u64;
        assert_eq!(term.frequency, 440 * i);
        assert_eq!(term.amplitude_denom, i);
    }
}

#[test]
fn triangle_squares_the_amplitude_denominator() {
    let mut osc = oscillator_48k(Waveform::Triangle);
    let plan = osc.tick();
    assert_eq!(plan.terms.len(), 27);
    for (j, term) in plan.terms.iter().enumerate() {
        let i = 1 + 2 * j as u64;
        assert_eq!(term.frequency, 440 * i);
        assert_eq!(term.amplitude_denom, i * i);
    }
}

#[test]
fn band_limited_output_is_silence_above_nyquist() {
    for waveform in [Waveform::Square, Waveform::Saw, Waveform::Triangle] {
        let mut osc = Oscillator {
            sample_rate: 48000,
            waveform,
            current_sample_index: 123,
            frequency_hz: 24001,
            vol_gain: GAIN_ONE,
        };
        let plan = osc.tick();
        assert_eq!(plan.terms.len(), 0);
        assert_eq!(evaluate_plan(&plan), 0.0);
    }
}

#[test]
fn fundamental_at_nyquist_is_still_emitted() {
    // The cutoff is strict: a harmonic leaves only once it exceeds rate / 2.
    let mut osc = Oscillator {
        sample_rate: 48000,
        waveform: Waveform::Square,
        current_sample_index: 0,
        frequency_hz: 24000,
        vol_gain: GAIN_ONE,
    };
    let plan = osc.tick();
    assert_eq!(plan.terms.len(), 1);
    assert_eq!(plan.terms[0].frequency, 24000);
}

#[test]
fn switching_waveform_keeps_the_phase() {
    let mut osc = oscillator_48k(Waveform::Sine);
    osc.tick();
    osc.tick();
    assert_eq!(osc.current_sample_index, 2);
    osc.set_waveform(Waveform::Triangle);
    assert_eq!(osc.current_sample_index, 2);
    let plan = osc.tick();
    assert_eq!(plan.phase, 2);
}

#[test]
fn gain_scales_the_sine_linearly() {
    let mut loud = oscillator_48k(Waveform::Sine);
    let mut half = oscillator_48k(Waveform::Sine);
    half.vol_gain = GAIN_ONE / 2;
    for _ in 0..32 {
        let a = evaluate_plan(&loud.tick());
        let b = evaluate_plan(&half.tick());
        assert_eq!(b, 0.5 * a);
    }
}
