use rustic_audio_tool::dsp::{duration_samples, fade_samples, AudioProcessor, Stage};
use rustic_audio_tool::error::AudioError;
use rustic_audio_tool::pcm::{downmix, from_u16, sample_kind, SampleFormat, SampleKind, WavSpec};

fn all_off(sample_rate: u32) -> AudioProcessor {
    let mut processor = AudioProcessor::new(sample_rate);
    processor.rms_enabled = false;
    processor.filters_enabled = false;
    processor.spectral_gate_enabled = false;
    processor.amplitude_gate_enabled = false;
    processor.gain_boost_enabled = false;
    processor.limiter_enabled = false;
    processor
}

fn wav(format: SampleFormat, bits: u16) -> WavSpec {
    WavSpec { channels: 2, sample_rate: 44100, bits_per_sample: bits, sample_format: format }
}

#[test]
fn new_processor_has_the_default_settings() {
    let processor = AudioProcessor::new(44100);
    assert_eq!(processor.sample_rate, 44100);
    assert_eq!(processor.threshold_db, 5_000);
    assert_eq!(processor.amplitude_threshold_db, -20_000);
    assert_eq!(processor.amplitude_attack_ms, 10_000);
    assert_eq!(processor.amplitude_release_ms, 100_000);
    assert_eq!(processor.amplitude_lookahead_ms, 5_000);
    assert_eq!(processor.gain_db, 6_000);
    assert_eq!(processor.limiter_threshold_db, -1_000);
    assert_eq!(processor.limiter_release_ms, 50_000);
    assert_eq!(processor.limiter_lookahead_ms, 5_000);
    assert_eq!(processor.lowpass_freq, 20_000_000);
    assert_eq!(processor.highpass_freq, 75_000);
    assert_eq!(processor.rms_target_db, -20_000);
    assert_eq!(processor.fade_in_ms, 200_000);
    assert!(processor.rms_enabled);
    assert!(processor.filters_enabled);
    assert!(processor.spectral_gate_enabled);
    assert!(processor.amplitude_gate_enabled);
    assert!(!processor.gain_boost_enabled);
    assert!(processor.limiter_enabled);
    assert!(processor.is_valid());
}

#[test]
fn default_processor_runs_at_48_khz() {
    assert_eq!(AudioProcessor::default(), AudioProcessor::new(48000));
}

#[test]
fn validity_asks_for_positive_times_and_frequencies() {
    assert!(!AudioProcessor::new(0).is_valid());
    let mut processor = AudioProcessor::new(48000);
    processor.amplitude_threshold_db = -90_000;
    processor.fade_in_ms = 0;
    assert!(processor.is_valid());
    processor.limiter_release_ms = 0;
    assert!(!processor.is_valid());
    processor.limiter_release_ms = 1;
    processor.highpass_freq = -1;
    assert!(!processor.is_valid());
    processor.highpass_freq = 20_000;
    processor.fade_in_ms = -1;
    assert!(!processor.is_valid());
}

#[test]
fn duration_in_samples_rounds_down() {
    assert_eq!(duration_samples(5_000, 44100), 220);
    assert_eq!(duration_samples(5_000, 48000), 240);
    assert_eq!(duration_samples(200_000, 48000), 9600);
    assert_eq!(duration_samples(1, 48000), 0);
    assert_eq!(duration_samples(20, 48000), 0);
    assert_eq!(duration_samples(21, 48000), 1);
    assert_eq!(duration_samples(0, 48000), 0);
    assert_eq!(duration_samples(-5_000, 48000), 0);
    assert_eq!(duration_samples(5_000, 0), 0);
    assert_eq!(duration_samples(i64::MAX, u32::MAX), usize::MAX);
}

#[test]
fn fade_never_reaches_past_the_buffer() {
    assert_eq!(fade_samples(200_000, 48000, 48000), 9600);
    assert_eq!(fade_samples(200_000, 48000, 9600), 9600);
    assert_eq!(fade_samples(200_000, 48000, 100), 100);
    assert_eq!(fade_samples(200_000, 48000, 0), 0);
    assert_eq!(fade_samples(0, 48000, 48000), 0);
}

#[test]
fn default_plan_runs_the_stages_in_order() {
    let processor = AudioProcessor::new(48000);
    let plan = processor.stages(48000, false);
    assert_eq!(
        plan,
        vec![
            Stage::RmsNormalize { target_db: -20_000 },
            Stage::Filter { highpass_freq: 75_000, lowpass_freq: 20_000_000 },
            Stage::SpectralGate { threshold_db: 5_000 },
            Stage::AmplitudeGate {
                threshold_db: -20_000,
                attack_ms: 10_000,
                release_ms: 100_000,
                lookahead: 240,
            },
            Stage::Limiter { threshold_db: -1_000, release_ms: 50_000, lookahead: 240 },
            Stage::FadeIn { samples: 9600 },
        ]
    );
}

#[test]
fn every_stage_switched_on_gives_seven_stages() {
    let mut processor = AudioProcessor::new(44100);
    processor.gain_boost_enabled = true;
    processor.gain_db = 3_500;
    let plan = processor.stages(1000, false);
    assert_eq!(plan.len(), 7);
    assert_eq!(plan[4], Stage::GainBoost { gain_db: 3_500 });
    assert_eq!(
        plan[5],
        Stage::Limiter { threshold_db: -1_000, release_ms: 50_000, lookahead: 220 }
    );
    assert_eq!(plan[6], Stage::FadeIn { samples: 1000 });
}

#[test]
fn silent_buffer_is_not_normalised() {
    let processor = AudioProcessor::new(48000);
    assert_eq!(processor.rms_stage(true), Err(AudioError::DivisionDegenerate));
    assert_eq!(processor.rms_stage(false), Ok(Stage::RmsNormalize { target_db: -20_000 }));
    let plan = processor.stages(48000, true);
    assert_eq!(plan.len(), 5);
    assert_eq!(plan[0], Stage::Filter { highpass_freq: 75_000, lowpass_freq: 20_000_000 });
}

#[test]
fn all_stages_off_leaves_only_the_fade() {
    let mut processor = all_off(48000);
    assert_eq!(processor.stages(480, false), vec![Stage::FadeIn { samples: 480 }]);
    assert_eq!(processor.stages(480_000, true), vec![Stage::FadeIn { samples: 9600 }]);
    processor.fade_in_ms = 0;
    assert_eq!(processor.stages(480_000, false), vec![Stage::FadeIn { samples: 0 }]);
}

#[test]
fn single_stage_plans() {
    let mut processor = all_off(48000);
    processor.limiter_enabled = true;
    let plan = processor.stages(10, false);
    assert_eq!(plan.len(), 2);
    assert_eq!(
        plan[0],
        Stage::Limiter { threshold_db: -1_000, release_ms: 50_000, lookahead: 240 }
    );
    processor.limiter_enabled = false;
    processor.spectral_gate_enabled = true;
    processor.threshold_db = -30_000;
    let plan = processor.stages(10, false);
    assert_eq!(plan, vec![Stage::SpectralGate { threshold_db: -30_000 }, Stage::FadeIn { samples: 10 }]);
}

#[test]
fn sample_kinds_are_float32_and_int16() {
    assert_eq!(sample_kind(&wav(SampleFormat::Float, 32)), Ok(SampleKind::Float32));
    assert_eq!(sample_kind(&wav(SampleFormat::Int, 16)), Ok(SampleKind::Int16));
    assert_eq!(sample_kind(&wav(SampleFormat::Int, 24)), Err(AudioError::UnsupportedFormat));
    assert_eq!(sample_kind(&wav(SampleFormat::Int, 8)), Err(AudioError::UnsupportedFormat));
    assert_eq!(sample_kind(&wav(SampleFormat::Int, 32)), Err(AudioError::UnsupportedFormat));
    assert_eq!(sample_kind(&wav(SampleFormat::Float, 16)), Err(AudioError::UnsupportedFormat));
    assert_eq!(sample_kind(&wav(SampleFormat::Float, 64)), Err(AudioError::UnsupportedFormat));
}

#[test]
fn process_file_takes_over_the_rate_and_keeps_the_format() {
    let mut processor = AudioProcessor::new(48000);
    let spec = wav(SampleFormat::Int, 16);
    let plan = processor.process_file(&spec, 44100, false).unwrap();
    assert_eq!(processor.sample_rate, 44100);
    assert_eq!(plan.kind, SampleKind::Int16);
    assert_eq!(plan.output, spec);
    assert_eq!(plan.stages, processor.stages(44100, false));
    assert_eq!(plan.stages[plan.stages.len() - 1], Stage::FadeIn { samples: 8820 });
    let mut expected = AudioProcessor::new(48000);
    expected.sample_rate = 44100;
    assert_eq!(processor, expected);
}

#[test]
fn process_file_refuses_other_formats() {
    let mut processor = AudioProcessor::new(48000);
    let spec = wav(SampleFormat::Int, 24);
    let refused = processor.process_file(&spec, 100, false);
    assert_eq!(refused.err(), Some(AudioError::UnsupportedFormat));
    assert_eq!(processor.sample_rate, 44100);
    let float = wav(SampleFormat::Float, 32);
    assert_eq!(processor.process_file(&float, 100, false).unwrap().kind, SampleKind::Float32);
}

#[test]
fn error_messages_differ() {
    let all = [
        AudioError::IoError,
        AudioError::UnsupportedFormat,
        AudioError::CodecError,
        AudioError::DivisionDegenerate,
    ];
    assert_eq!(AudioError::IoError.message(), "i/o failure");
    assert_eq!(AudioError::UnsupportedFormat.message(), "unsupported sample format");
    assert_eq!(AudioError::CodecError.message(), "codec failure");
    assert_eq!(AudioError::DivisionDegenerate.message(), "cannot normalise silence");
    for a in 0..all.len() {
        for b in 0..all.len() {
            assert_eq!(a == b, all[a].message() == all[b].message());
        }
    }
}

#[test]
fn downmix_takes_the_first_channel_of_stereo() {
    let stereo: Vec<i16> = vec![1, -1, 2, -2, 3, -3];
    assert_eq!(downmix(&stereo, 2), vec![1, 2, 3]);
    let odd: Vec<i16> = vec![1, -1, 2, -2, 3];
    assert_eq!(downmix(&odd, 2), vec![1, 2, 3]);
    assert_eq!(downmix(&stereo, 1), stereo);
    assert_eq!(downmix(&stereo, 6), stereo);
    assert_eq!(downmix(&stereo, 0), stereo);
    let floats: Vec<f32> = vec![0.5, 0.25, -0.5, 0.75];
    assert_eq!(downmix(&floats, 2), vec![0.5, -0.5]);
    assert_eq!(downmix(&Vec::<f32>::new(), 2), Vec::<f32>::new());
}

#[test]
fn unsigned_device_samples_become_signed() {
    assert_eq!(from_u16(0), -32767);
    assert_eq!(from_u16(32767), 0);
    assert_eq!(from_u16(32768), 1);
    assert_eq!(from_u16(65534), 32767);
    assert_eq!(from_u16(65535), -32768);
    for sample in [0u16, 1, 100, 32767, 32768, 40000, 65534, 65535] {
        assert_eq!(from_u16(sample), (sample as i16).wrapping_sub(i16::MAX));
    }
}
