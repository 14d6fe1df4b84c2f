use rustic_audio_tool::resample::{resample, Resampler, Tap};

fn lerp(a: f32, b: f32, weight: usize, scale: usize) -> f32 {
    let frac = weight as f32 / scale as f32;
    a * (1.0 - frac) + b * frac
}

#[test]
fn output_length_follows_the_rates() {
    assert_eq!(Resampler::new(44100, 44100, 48000).output_len(), 48000);
    assert_eq!(Resampler::new(48000, 48000, 44100).output_len(), 44100);
    assert_eq!(Resampler::new(1000, 48000, 48000).output_len(), 1000);
    assert_eq!(Resampler::new(3, 44100, 48000).output_len(), 3);
    assert_eq!(Resampler::new(10, 3, 1).output_len(), 3);
    assert_eq!(Resampler::new(0, 44100, 48000).output_len(), 0);
    assert_eq!(Resampler::new(100, 0, 48000).output_len(), 0);
    assert_eq!(Resampler::new(100, 48000, 0).output_len(), 0);
    assert_eq!(Resampler::new(usize::MAX, 1, u32::MAX).output_len(), usize::MAX);
    assert_eq!(Resampler::new(77, 8000, 48000).input_len(), 77);
}

#[test]
fn taps_run_from_the_first_sample_to_the_last() {
    let resampler = Resampler::new(5, 1, 2);
    assert_eq!(resampler.output_len(), 10);
    assert_eq!(resampler.tap(0), Tap { index: 0, weight: 0, scale: 9 });
    assert_eq!(resampler.tap(1), Tap { index: 0, weight: 4, scale: 9 });
    assert_eq!(resampler.tap(2), Tap { index: 0, weight: 8, scale: 9 });
    assert_eq!(resampler.tap(3), Tap { index: 1, weight: 3, scale: 9 });
    assert_eq!(resampler.tap(8), Tap { index: 3, weight: 5, scale: 9 });
    assert_eq!(resampler.tap(9), Tap { index: 4, weight: 0, scale: 9 });
}

#[test]
fn single_output_sample_is_the_first_input_sample() {
    let resampler = Resampler::new(3, 3, 1);
    assert_eq!(resampler.output_len(), 1);
    assert_eq!(resampler.tap(0), Tap { index: 0, weight: 0, scale: 1 });
}

#[test]
fn taps_never_go_back() {
    let resampler = Resampler::new(441, 44100, 48000);
    let mut last = 0;
    for i in 0..resampler.output_len() {
        let tap = resampler.tap(i);
        assert!(tap.index >= last);
        assert!(tap.index < 441);
        assert!(tap.weight < tap.scale);
        last = tap.index;
    }
    assert_eq!(last, 440);
}

#[test]
fn equal_rates_change_nothing() {
    let input: Vec<f32> = (0..1000).map(|n| (n as f32 * 0.37).sin()).collect();
    let out = resample(&input, 48000, 48000, lerp);
    assert_eq!(out.len(), input.len());
    for i in 0..input.len() {
        assert_eq!(out[i].to_bits(), input[i].to_bits());
    }
}

#[test]
fn upsampling_a_ramp_gives_a_ramp() {
    let input: Vec<f32> = vec![0.0, 1.0, 2.0, 3.0, 4.0];
    let out = resample(&input, 1, 2, lerp);
    assert_eq!(out.len(), 10);
    assert_eq!(out[0], 0.0);
    assert_eq!(out[9], 4.0);
    for i in 0..10 {
        assert!((out[i] - i as f32 * 4.0 / 9.0).abs() < 1e-6);
    }
}

#[test]
fn downsampling_keeps_the_end_points() {
    let input: Vec<f32> = (0..48000).map(|n| n as f32).collect();
    let out = resample(&input, 48000, 8000, lerp);
    assert_eq!(out.len(), 8000);
    assert_eq!(out[0], 0.0);
    assert_eq!(out[7999], 47999.0);
}

#[test]
fn integer_samples_can_be_blended_exactly() {
    let input: Vec<i64> = vec![0, 90, 180];
    let out = resample(&input, 2, 6, |a: i64, b: i64, weight: usize, scale: usize| {
        (a * (scale - weight) as i64 + b * weight as i64) / scale as i64
    });
    assert_eq!(out, vec![0, 22, 45, 67, 90, 112, 135, 157, 180]);
}

#[test]
fn nothing_comes_out_of_nothing() {
    assert!(resample(&Vec::<f32>::new(), 44100, 48000, lerp).is_empty());
    assert!(resample(&vec![1.0f32; 10], 0, 48000, lerp).is_empty());
    assert!(resample(&vec![1.0f32; 10], 48000, 0, lerp).is_empty());
    assert_eq!(resample(&vec![0.25f32], 1, 4, lerp), vec![0.25f32; 4]);
}
