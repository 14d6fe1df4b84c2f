use std::collections::VecDeque;
use std::sync::Arc;

use rustfft::num_complex::Complex;
use rustfft::{Fft, FftPlanner};

use rustic_audio_tool::dsp::{AudioProcessor, GateSettings, LimiterSettings};
use rustic_audio_tool::envelope::follow;
use rustic_audio_tool::error::AudioError;
use rustic_audio_tool::stft::{normalise, overlap_add, transform_buffer, FFT_SIZE};

fn db_to_linear(milli_db: i64) -> f32 {
    10.0f32.powf(milli_db as f32 / 1000.0 / 20.0)
}

fn hann() -> Vec<f32> {
    (0..FFT_SIZE)
        .map(|n| 0.5 - 0.5 * (2.0 * std::f32::consts::PI * n as f32 / FFT_SIZE as f32).cos())
        .collect()
}

fn weights() -> Vec<f32> {
    hann().iter().map(|w| w * w).collect()
}

fn plans() -> (Arc<dyn Fft<f32>>, Arc<dyn Fft<f32>>) {
    let mut planner = FftPlanner::new();
    (planner.plan_fft_forward(FFT_SIZE), planner.plan_fft_inverse(FFT_SIZE))
}

fn spectral_frame(
    frame: &Vec<f32>,
    window: &Vec<f32>,
    forward: &Arc<dyn Fft<f32>>,
    inverse: &Arc<dyn Fft<f32>>,
    keep: &dyn Fn(usize, Complex<f32>) -> bool,
) -> Vec<f32> {
    let mut bins: Vec<Complex<f32>> =
        frame.iter().zip(window.iter()).map(|(s, w)| Complex::new(s * w, 0.0)).collect();
    forward.process(&mut bins);
    for i in 0..bins.len() {
        if !keep(i, bins[i]) {
            bins[i] = Complex::new(0.0, 0.0);
        }
    }
    inverse.process(&mut bins);
    bins.iter().zip(window.iter()).map(|(b, w)| b.re * w / FFT_SIZE as f32).collect()
}

fn finish(sum: f32, norm: f32) -> f32 {
    if norm > 1e-10 {
        sum / norm
    } else {
        sum
    }
}

fn noise(len: usize) -> Vec<f32> {
    let mut state: u32 = 0x2545_f491;
    (0..len)
        .map(|_| {
            state ^= state << 13;
            state ^= state >> 17;
            state ^= state << 5;
            (state as f32 / u32::MAX as f32) - 0.5
        })
        .collect()
}

fn sine(len: usize, freq: f32, rate: f32, amplitude: f32) -> Vec<f32> {
    (0..len)
        .map(|n| amplitude * (2.0 * std::f32::consts::PI * freq * n as f32 / rate).sin())
        .collect()
}

fn rms_db(samples: &[f32]) -> f32 {
    let mean = samples.iter().map(|x| x * x).sum::<f32>() / samples.len() as f32;
    20.0 * mean.sqrt().log10()
}

fn peak(window: &VecDeque<f32>) -> f32 {
    window.iter().map(|s| s.abs()).fold(0.0, f32::max)
}

fn run_filters(processor: &AudioProcessor, samples: &mut Vec<f32>) {
    let window = hann();
    let (forward, inverse) = plans();
    processor.apply_filters(
        samples,
        0.0f32,
        &weights(),
        |frame: &Vec<f32>, mask: &Vec<bool>| {
            spectral_frame(frame, &window, &forward, &inverse, &|i, bin| {
                mask[i] && bin.norm() >= 1e-10
            })
        },
        |a: f32, b: f32| a + b,
        finish,
    );
}

fn run_noise_gate(processor: &AudioProcessor, samples: &mut Vec<f32>) {
    let window = hann();
    let (forward, inverse) = plans();
    processor.apply_noise_gate(
        samples,
        0.0f32,
        &weights(),
        |frame: &Vec<f32>, threshold_db: &i64| {
            let threshold = db_to_linear(*threshold_db);
            spectral_frame(frame, &window, &forward, &inverse, &|_, bin| bin.norm() >= threshold)
        },
        |a: f32, b: f32| a + b,
        finish,
    );
}

fn run_limiter(processor: &AudioProcessor, samples: &mut Vec<f32>) {
    processor.apply_lookahead_limiter(
        samples,
        0.0f32,
        1.0f32,
        |window: &VecDeque<f32>, gain: f32, settings: &LimiterSettings| {
            let threshold = db_to_linear(settings.threshold_db);
            let release_samples =
                settings.release_ms as f32 / 1000.0 / 1000.0 * settings.sample_rate as f32;
            let release = (-2.2f32 / release_samples).exp();
            let peak = peak(window);
            let target = if peak > threshold { threshold / peak } else { 1.0 };
            if target < gain {
                target
            } else {
                gain * release + target * (1.0 - release)
            }
        },
        |sample: f32, gain: f32| sample * gain,
    );
}

fn run_gate(processor: &AudioProcessor, samples: &mut Vec<f32>) {
    processor.apply_amplitude_gate(
        samples,
        0.0f32,
        0.0f32,
        |window: &VecDeque<f32>, gain: f32, settings: &GateSettings| {
            let threshold = db_to_linear(settings.threshold_db);
            let rate = settings.sample_rate as f32;
            let attack = (-2.2f32 / (settings.attack_ms as f32 / 1.0e6 * rate)).exp();
            let release = (-2.2f32 / (settings.release_ms as f32 / 1.0e6 * rate)).exp();
            let target = if peak(window) >= threshold { 1.0 } else { 0.0 };
            if target > gain {
                gain * attack + target * (1.0 - attack)
            } else {
                gain * release + target * (1.0 - release)
            }
        },
        |sample: f32, gain: f32| sample * gain,
    );
}

fn run_rms(processor: &AudioProcessor, samples: &mut Vec<f32>) -> Result<(), AudioError> {
    let current = (samples.iter().map(|x| x * x).sum::<f32>() / samples.len() as f32).sqrt();
    let silent = !(current > 0.0);
    processor.apply_rms_normalization(samples, silent, |sample: f32, target_db: i64| {
        let mut s = sample * (db_to_linear(target_db) / current);
        if s > 0.95 {
            s = 0.95 + 0.05 * (1.0 - (1.0 - (s - 0.95) / 0.05).powi(2));
        } else if s < -0.95 {
            s = -0.95 - 0.05 * (1.0 - (1.0 - (-s - 0.95) / 0.05).powi(2));
        }
        s.max(-1.0).min(1.0)
    })
}

fn run_gain(processor: &AudioProcessor, samples: &mut Vec<f32>) {
    processor.apply_gain_boost(samples, |sample: f32, gain_db: i64| sample * db_to_linear(gain_db));
}

fn run_fade(processor: &AudioProcessor, samples: &mut Vec<f32>) {
    processor.apply_fade_in(samples, |sample: f32, place: usize, reach: usize| {
        let t = place as f32 / reach as f32;
        sample * (t * t * (3.0 - 2.0 * t))
    });
}

#[test]
fn full_band_filter_is_the_identity() {
    let mut processor = AudioProcessor::new(48000);
    processor.highpass_freq = 0;
    processor.lowpass_freq = 24_000_000;
    let input = noise(12000);
    let mut samples = input.clone();
    run_filters(&processor, &mut samples);
    assert_eq!(samples.len(), input.len());
    for i in 2048..input.len() {
        assert!((samples[i] - input[i]).abs() < 1e-3, "sample {}", i);
    }
    // Inside the first hop a single frame covers the sample. Where its
    // window is not close to zero the sample still comes back.
    for i in 512..2048 {
        assert!((samples[i] - input[i]).abs() < 1e-2, "sample {}", i);
    }
}

#[test]
fn first_sample_lies_under_a_zero_window() {
    let mut processor = AudioProcessor::new(48000);
    processor.highpass_freq = 0;
    processor.lowpass_freq = 24_000_000;
    let mut samples: Vec<f32> = vec![1.0; 10];
    run_filters(&processor, &mut samples);
    assert_eq!(samples.len(), 10);
    assert_eq!(samples[0], 0.0);
}

#[test]
fn band_filter_removes_a_tone_outside_the_band() {
    let mut processor = AudioProcessor::new(48000);
    processor.highpass_freq = 1_000_000;
    processor.lowpass_freq = 20_000_000;
    let low = sine(16384, 200.0, 48000.0, 0.5);
    let mut samples = low.clone();
    run_filters(&processor, &mut samples);
    let inside = &samples[4096..12288];
    assert!(rms_db(inside) < rms_db(&low[4096..12288]) - 40.0);
    let high = sine(16384, 3000.0, 48000.0, 0.5);
    let mut kept = high.clone();
    run_filters(&processor, &mut kept);
    for i in 4096..12288 {
        assert!((kept[i] - high[i]).abs() < 1e-2);
    }
}

#[test]
fn spectral_gate_keeps_silence_silent() {
    for threshold in [5_000i64, -60_000, -200_000] {
        let mut processor = AudioProcessor::new(48000);
        processor.threshold_db = threshold;
        let mut samples: Vec<f32> = vec![0.0; 9000];
        run_noise_gate(&processor, &mut samples);
        assert_eq!(samples.len(), 9000);
        assert!(samples.iter().all(|s| *s == 0.0));
    }
}

#[test]
fn spectral_gate_drops_what_is_below_the_threshold() {
    let mut processor = AudioProcessor::new(48000);
    processor.threshold_db = 40_000;
    let quiet = sine(16384, 1000.0, 48000.0, 0.001);
    let mut samples = quiet.clone();
    run_noise_gate(&processor, &mut samples);
    assert!(samples.iter().all(|s| s.abs() < 1e-6));
    processor.threshold_db = -100_000;
    let mut kept = quiet.clone();
    run_noise_gate(&processor, &mut kept);
    for i in 4096..12288 {
        assert!((kept[i] - quiet[i]).abs() < 1e-4);
    }
}

#[test]
fn normaliser_reaches_the_target_level() {
    let processor = AudioProcessor::new(48000);
    for amplitude in [0.001f32, 0.05, 0.3] {
        let mut samples = sine(48000, 440.0, 48000.0, amplitude);
        assert_eq!(run_rms(&processor, &mut samples), Ok(()));
        assert!((rms_db(&samples) - (-20.0)).abs() < 0.5);
        assert!(samples.iter().all(|s| s.abs() <= 1.0));
    }
}

#[test]
fn normaliser_never_leaves_full_scale() {
    let mut processor = AudioProcessor::new(48000);
    processor.rms_target_db = -3_000;
    let mut samples = noise(20000);
    for s in samples.iter_mut().step_by(500) {
        *s *= 8.0;
    }
    assert_eq!(run_rms(&processor, &mut samples), Ok(()));
    assert!(samples.iter().all(|s| s.abs() <= 1.0));
    assert!(samples.iter().any(|s| s.abs() > 0.95));
}

#[test]
fn normaliser_refuses_silence() {
    let processor = AudioProcessor::new(48000);
    let mut samples: Vec<f32> = vec![0.0; 100];
    assert_eq!(run_rms(&processor, &mut samples), Err(AudioError::DivisionDegenerate));
    assert!(samples.iter().all(|s| *s == 0.0));
}

#[test]
fn limiter_holds_the_ceiling() {
    let mut processor = AudioProcessor::new(48000);
    for threshold_db in [-1_000i64, -6_000, -20_000] {
        processor.limiter_threshold_db = threshold_db;
        let ceiling = db_to_linear(threshold_db);
        let mut samples = noise(20000);
        for s in samples.iter_mut() {
            *s *= 4.0;
        }
        for s in samples.iter_mut().skip(5000).take(200) {
            *s *= 10.0;
        }
        let input = samples.clone();
        run_limiter(&processor, &mut samples);
        assert_eq!(samples.len(), input.len());
        assert!(input.iter().any(|s| s.abs() > ceiling));
        for (i, s) in samples.iter().enumerate() {
            assert!(s.abs() <= ceiling * (1.0 + 1e-5), "sample {}", i);
        }
    }
}

#[test]
fn limiter_delays_by_the_lookahead() {
    let processor = AudioProcessor::new(48000);
    let input = sine(2000, 440.0, 48000.0, 0.1);
    let mut samples = input.clone();
    run_limiter(&processor, &mut samples);
    for i in 0..240 {
        assert_eq!(samples[i], 0.0);
    }
    for i in 240..2000 {
        assert_eq!(samples[i], input[i - 240]);
    }
}

#[test]
fn gate_closes_on_quiet_input_and_opens_on_loud() {
    let processor = AudioProcessor::new(48000);
    let mut quiet = sine(20000, 440.0, 48000.0, 0.01);
    run_gate(&processor, &mut quiet);
    assert!(quiet.iter().all(|s| *s == 0.0));
    let input = sine(48000, 440.0, 48000.0, 0.5);
    let mut loud = input.clone();
    run_gate(&processor, &mut loud);
    for i in 24000..48000 {
        assert!((loud[i] - input[i - 240]).abs() < 1e-3);
    }
    assert!(loud[300].abs() < 0.5);
}

#[test]
fn boost_and_cut_cancel() {
    let mut processor = AudioProcessor::new(48000);
    let input = noise(5000);
    let mut samples = input.clone();
    processor.gain_db = 6_000;
    run_gain(&processor, &mut samples);
    let doubled: f32 = db_to_linear(6_000);
    assert!((doubled - 1.9952623).abs() < 1e-5);
    for i in 0..input.len() {
        assert!((samples[i] - input[i] * doubled).abs() < 1e-6);
    }
    processor.gain_db = -6_000;
    run_gain(&processor, &mut samples);
    for i in 0..input.len() {
        assert!((samples[i] - input[i]).abs() < 1e-6);
    }
}

#[test]
fn boost_is_not_clamped() {
    let mut processor = AudioProcessor::new(48000);
    processor.gain_db = 20_000;
    let mut samples: Vec<f32> = vec![0.5, -0.5];
    run_gain(&processor, &mut samples);
    assert!((samples[0] - 5.0).abs() < 1e-5);
    assert!((samples[1] + 5.0).abs() < 1e-5);
}

#[test]
fn fade_ramps_the_start_and_leaves_the_rest() {
    let processor = AudioProcessor::new(48000);
    let mut samples: Vec<f32> = vec![1.0; 20000];
    run_fade(&processor, &mut samples);
    assert_eq!(samples[0], 0.0);
    assert!((samples[4800] - 0.5).abs() < 1e-6);
    assert!((samples[2400] - 0.15625).abs() < 1e-6);
    for i in 1..9600 {
        assert!(samples[i] >= samples[i - 1]);
        assert!(samples[i] < 1.0);
    }
    for i in 9600..20000 {
        assert_eq!(samples[i], 1.0);
    }
}

#[test]
fn fade_longer_than_the_buffer_ramps_all_of_it() {
    let processor = AudioProcessor::new(48000);
    let mut samples: Vec<f32> = vec![1.0; 4];
    run_fade(&processor, &mut samples);
    assert_eq!(samples, vec![0.0, 0.15625, 0.5, 0.84375]);
}

#[test]
fn bypassed_pipeline_is_bit_identical() {
    let mut processor = AudioProcessor::new(44100);
    processor.rms_enabled = false;
    processor.filters_enabled = false;
    processor.spectral_gate_enabled = false;
    processor.amplitude_gate_enabled = false;
    processor.gain_boost_enabled = false;
    processor.limiter_enabled = false;
    processor.fade_in_ms = 0;
    let input = noise(3000);
    let mut samples = input.clone();
    for stage in processor.stages(samples.len(), false) {
        match stage {
            rustic_audio_tool::dsp::Stage::FadeIn { samples: reach } => {
                assert_eq!(reach, 0);
                run_fade(&processor, &mut samples);
            }
            _ => unreachable!(),
        }
    }
    assert_eq!(samples.len(), input.len());
    for i in 0..input.len() {
        assert_eq!(samples[i].to_bits(), input[i].to_bits());
    }
}

#[test]
fn follower_with_constant_gain_is_a_delay() {
    let input: Vec<i32> = (1..=10).collect();
    let out =
        follow(&input, 3, 0, 2, &(), |_: &VecDeque<i32>, g: i32, _: &()| g, |x: i32, g: i32| x * g);
    assert_eq!(out, vec![0, 0, 0, 2, 4, 6, 8, 10, 12, 14]);
    let same =
        follow(&input, 0, 0, 1, &(), |_: &VecDeque<i32>, g: i32, _: &()| g, |x: i32, g: i32| x * g);
    assert_eq!(same, input);
    let late =
        follow(&input, 50, -1, 1, &(), |_: &VecDeque<i32>, g: i32, _: &()| g, |x: i32, g: i32| x * g);
    assert_eq!(late, vec![-1; 10]);
}

#[test]
fn follower_shows_the_window_oldest_first() {
    let input: Vec<i32> = vec![5, 6, 7, 8];
    let seen = std::cell::RefCell::new(Vec::new());
    let out = follow(
        &input,
        2,
        0,
        0,
        &100,
        |window: &VecDeque<i32>, gain: i32, step: &i32| {
            seen.borrow_mut().push(window.iter().copied().collect::<Vec<i32>>());
            gain + step
        },
        |x: i32, g: i32| x * 1000 + g,
    );
    assert_eq!(
        seen.into_inner(),
        vec![vec![0, 0, 5], vec![0, 5, 6], vec![5, 6, 7], vec![6, 7, 8]]
    );
    assert_eq!(out, vec![100, 200, 5300, 6400]);
}

#[test]
fn overlap_add_sums_the_frames_that_cover_a_sample() {
    let input: Vec<i64> = (0..5000).collect();
    let frames_seen = std::cell::RefCell::new(Vec::new());
    let out = overlap_add(
        &input,
        -1i64,
        &100i64,
        |frame: &Vec<i64>, scale: &i64| {
            frames_seen.borrow_mut().push((frame[0], frame[4095]));
            frame.iter().map(|x| x * scale).collect()
        },
        |a: i64, b: i64| a + b,
    );
    assert_eq!(out.len(), 5000);
    assert_eq!(frames_seen.into_inner(), vec![(0, 4095), (2048, -1), (4096, -1)]);
    for i in 0..2048 {
        assert_eq!(out[i], -1 + 100 * i as i64);
    }
    for i in 2048..5000 {
        assert_eq!(out[i], -1 + 200 * i as i64);
    }
}

#[test]
fn normalise_divides_by_the_window_weight() {
    let sums: Vec<i64> = vec![600; 5000];
    let weights: Vec<i64> = (0..4096).map(|p| if p < 2048 { 1 } else { 2 }).collect();
    let out = normalise(&sums, 0i64, &weights, |a: i64, b: i64| a + b, |s: i64, n: i64| s / n);
    assert_eq!(out.len(), 5000);
    for i in 0..2048 {
        assert_eq!(out[i], 600);
    }
    for i in 2048..5000 {
        assert_eq!(out[i], 200);
    }
}

#[test]
fn engine_with_flat_weights_and_identity_transform_returns_the_input() {
    let input: Vec<i64> = (0..7000).map(|n| (n * 37) % 1001 - 500).collect();
    let weights: Vec<i64> = vec![1; 4096];
    let out = transform_buffer(
        &input,
        0i64,
        &(),
        &weights,
        |frame: &Vec<i64>, _: &()| frame.clone(),
        |a: i64, b: i64| a + b,
        |sum: i64, norm: i64| sum / norm,
    );
    assert_eq!(out, input);
    let empty = transform_buffer(
        &Vec::<i64>::new(),
        0i64,
        &(),
        &weights,
        |frame: &Vec<i64>, _: &()| frame.clone(),
        |a: i64, b: i64| a + b,
        |sum: i64, norm: i64| sum / norm,
    );
    assert!(empty.is_empty());
}

#[test]
fn short_buffer_is_one_frame_padded_with_silence() {
    let input: Vec<i64> = vec![3, 4, 5];
    let frames_seen = std::cell::RefCell::new(Vec::new());
    let out = overlap_add(
        &input,
        -9i64,
        &(),
        |frame: &Vec<i64>, _: &()| {
            frames_seen.borrow_mut().push(frame.clone());
            frame.iter().map(|x| x * 2).collect()
        },
        |a: i64, b: i64| a + b,
    );
    let seen = frames_seen.into_inner();
    assert_eq!(seen.len(), 1);
    assert_eq!(seen[0].len(), 4096);
    assert_eq!(&seen[0][..3], &[3, 4, 5]);
    assert!(seen[0][3..].iter().all(|x| *x == -9));
    assert_eq!(out, vec![-3, -1, 1]);
}

#[test]
fn stages_hand_the_configured_levels_to_the_arithmetic() {
    let mut processor = AudioProcessor::new(44100);
    processor.gain_db = 3_500;
    processor.rms_target_db = -18_000;
    processor.amplitude_threshold_db = -40_000;
    processor.amplitude_attack_ms = 5_000;
    processor.amplitude_release_ms = 50_000;
    processor.limiter_threshold_db = -2_000;
    processor.limiter_release_ms = 70_000;
    let mut samples: Vec<i64> = vec![1, 2];
    processor.apply_gain_boost(&mut samples, |sample: i64, gain_db: i64| sample + gain_db);
    assert_eq!(samples, vec![3_501, 3_502]);
    let done =
        processor.apply_rms_normalization(&mut samples, false, |sample: i64, target: i64| sample + target);
    assert_eq!(done, Ok(()));
    assert_eq!(samples, vec![-14_499, -14_498]);
    assert_eq!(
        processor.gate_settings(),
        GateSettings { sample_rate: 44100, threshold_db: -40_000, attack_ms: 5_000, release_ms: 50_000 }
    );
    assert_eq!(
        processor.limiter_settings(),
        LimiterSettings { sample_rate: 44100, threshold_db: -2_000, release_ms: 70_000 }
    );
    let seen = std::cell::RefCell::new(Vec::new());
    let mut buffer: Vec<i64> = vec![7];
    processor.apply_amplitude_gate(
        &mut buffer,
        0i64,
        0i64,
        |_: &VecDeque<i64>, gain: i64, settings: &GateSettings| {
            seen.borrow_mut().push(*settings);
            gain
        },
        |sample: i64, _: i64| sample,
    );
    assert_eq!(seen.into_inner(), vec![processor.gate_settings()]);
    let seen = std::cell::RefCell::new(Vec::new());
    processor.apply_lookahead_limiter(
        &mut buffer,
        0i64,
        0i64,
        |_: &VecDeque<i64>, gain: i64, settings: &LimiterSettings| {
            seen.borrow_mut().push(*settings);
            gain
        },
        |sample: i64, _: i64| sample,
    );
    assert_eq!(seen.into_inner(), vec![processor.limiter_settings()]);
}
