use synth::frames::fan_out;
use synth::frames::plan_frames;
use synth::oscillator::GAIN_ONE;
use synth::oscillator::Oscillator;
use synth::oscillator::Waveform;

#[test]
fn one_tick_per_frame_whatever_the_channel_count() {
    for num_channels in 1usize..5 {
        let mut osc = Oscillator {
            sample_rate: 48000,
            waveform: Waveform::Sine,
            current_sample_index: 0,
            frequency_hz: 440,
            vol_gain: GAIN_ONE,
        };
        let buffer_len = 12;
        let frame_count = buffer_len / num_channels;
        let plans = plan_frames(&mut osc, frame_count);
        assert_eq!(plans.len(), frame_count);
        // The pitch clock advanced once per frame, not once per slot.
        assert_eq!(osc.current_sample_index as usize, frame_count);
    }
}

#[test]
fn plans_carry_consecutive_phases() {
    let mut osc = Oscillator {
        sample_rate: 100,
        waveform: Waveform::Saw,
        current_sample_index: 98,
        frequency_hz: 10,
        vol_gain: GAIN_ONE,
    };
    let plans = plan_frames(&mut osc, 4);
    let phases: Vec<u32> = plans.iter().map(|p| p.phase).collect();
    assert_eq!(phases, vec![98, 99, 0, 1]);
    assert_eq!(osc.current_sample_index, 2);
}

#[test]
fn fan_out_duplicates_each_sample_across_its_frame() {
    let samples: Vec<f32> = vec![0.1, -0.2, 0.3, -0.4];
    let out = fan_out(&samples, 2);
    assert_eq!(out, vec![0.1, 0.1, -0.2, -0.2, 0.3, 0.3, -0.4, -0.4]);
}

#[test]
fn fan_out_single_channel_is_identity() {
    let samples: Vec<i16> = vec![5, -6, 7];
    assert_eq!(fan_out(&samples, 1), samples);
}

#[test]
fn frame_slots_hold_identical_values() {
    let samples: Vec<u8> = vec![10, 20, 30];
    let out = fan_out(&samples, 3);
    assert_eq!(out.len(), 9);
    for (j, s) in samples.iter().enumerate() {
        for c in 0..3 {
            assert_eq!(out[j * 3 + c], *s);
        }
    }
}
