use pitch_tts::audio::{pitch_shift, true_pitch_gate, Factor};
use pitch_tts::tempo::{concat_chunks, output_sample_rate, stretch_chunks, time_stretch_gate};
use rubato::{FftFixedIn, Resampler};

// Scenario A of the audio transform: the nine-sample preview buffer, in the
// 16-bit PCM form the crate works on (0.1 of full scale is 3277, and so on).
fn scenario_buffer() -> Vec<i16> {
    vec![3277, 6554, 9830, 13107, 16384, 13107, 9830, 6554, 3277]
}

#[test]
fn pitch_shift_scenario_lengths() {
    let samples = scenario_buffer();
    let up = pitch_shift(&samples, &Factor { milli: 2000 });
    assert!(up.len() < 9);
    assert_eq!(up.len(), 4);
    let down = pitch_shift(&samples, &Factor { milli: 500 });
    assert!(down.len() > 9);
    assert_eq!(down.len(), 18);
    let same = pitch_shift(&samples, &Factor { milli: 1000 });
    assert_eq!(same, samples);
}

#[test]
fn pitch_shift_identity_band_is_bit_identical() {
    let samples = scenario_buffer();
    // Anywhere strictly inside |factor - 1| < 0.01 the buffer passes through.
    for milli in [991u32, 1000, 1009] {
        let out = pitch_shift(&samples, &Factor { milli });
        assert_eq!(out, samples);
    }
    // At exactly 0.99 and 1.01 the fast path no longer applies.
    let at_low_edge = pitch_shift(&samples, &Factor { milli: 990 });
    assert!(at_low_edge.len() != 9 || at_low_edge != samples);
    assert_eq!(at_low_edge.len(), 9000 / 990);
}

#[test]
fn pitch_shift_interpolates_between_samples() {
    // Halving the factor puts every other output sample midway between two
    // source samples; handing the input back unchanged would fail this.
    let samples = vec![0i16, 1000, 2000, 3000];
    let down = pitch_shift(&samples, &Factor { milli: 500 });
    assert_eq!(down.len(), 8);
    assert_eq!(down[0], 0);
    assert_eq!(down[1], 500);
    assert_eq!(down[2], 1000);
    assert_eq!(down[3], 1500);
}

#[test]
fn true_pitch_identity_band_is_bit_identical() {
    let samples = scenario_buffer();
    match true_pitch_gate(&samples, &Factor { milli: 1005 }) {
        Some(out) => assert_eq!(out, samples),
        None => panic!("the identity band must pass the buffer through"),
    }
    assert!(true_pitch_gate(&samples, &Factor { milli: 1500 }).is_none());
    assert!(true_pitch_gate(&samples, &Factor { milli: 990 }).is_none());
}

#[test]
fn time_stretch_identity_band_is_bit_identical() {
    let samples = scenario_buffer();
    match time_stretch_gate(&samples, &Factor { milli: 1000 }) {
        Some(out) => assert_eq!(out, samples),
        None => panic!("the identity band must pass the buffer through"),
    }
    assert!(time_stretch_gate(&samples, &Factor { milli: 2000 }).is_none());
}

#[test]
fn stretch_chunks_pad_and_reassemble() {
    let mut samples: Vec<i16> = Vec::new();
    for i in 0..2500i32 {
        samples.push((i % 100) as i16);
    }
    let chunks = stretch_chunks(&samples);
    assert_eq!(chunks.len(), 3);
    for c in &chunks {
        assert_eq!(c.len(), 1024);
    }
    let back = concat_chunks(&chunks);
    assert_eq!(&back[..2500], &samples[..]);
    assert!(back[2500..].iter().all(|&s| s == 0));
}

fn run_time_stretch(samples: &[i16], rate: usize, tempo_milli: u32) -> Vec<i16> {
    let tempo = Factor { milli: tempo_milli };
    let buffer: Vec<i16> = samples.to_vec();
    if let Some(out) = time_stretch_gate(&buffer, &tempo) {
        return out;
    }
    let out_rate = output_sample_rate(rate as u32, &tempo) as usize;
    let mut resampler =
        FftFixedIn::<f32>::new(rate, out_rate, 1024, 1, 1).expect("Failed to create resampler");
    let chunks = stretch_chunks(&buffer);
    let mut outputs: Vec<Vec<i16>> = Vec::new();
    for chunk in &chunks {
        let floats: Vec<f32> = chunk.iter().map(|&s| s as f32 / 32767.0).collect();
        let result = resampler.process(&[floats], None).expect("Resample failed");
        let ints: Vec<i16> = result[0]
            .iter()
            .map(|&s| (s * 32767.0).round().clamp(-32768.0, 32767.0) as i16)
            .collect();
        outputs.push(ints);
    }
    concat_chunks(&outputs)
}

#[test]
fn time_stretch_double_tempo_halves_length() {
    let n = 5000usize;
    let samples: Vec<i16> = (0..n).map(|i| ((i % 64) as i16) * 256).collect();
    let out = run_time_stretch(&samples, 22050, 2000);
    // Within one 1024-sample frame of half the input length.
    let diff = if 2 * out.len() > n { 2 * out.len() - n } else { n - 2 * out.len() };
    assert!(diff <= 1024, "output {} not within a frame of {}", out.len(), n / 2);
}

#[test]
fn time_stretch_half_tempo_doubles_length() {
    let n = 5000usize;
    let samples: Vec<i16> = (0..n).map(|i| ((i % 64) as i16) * 256).collect();
    let out = run_time_stretch(&samples, 22050, 500);
    // The last zero-padded chunk can add up to two output frames here.
    assert!(out.len() >= 2 * n, "output {} shorter than {}", out.len(), 2 * n);
    assert!(out.len() <= 2 * n + 2048, "output {} too long for {}", out.len(), 2 * n);
}
