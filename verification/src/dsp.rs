//! The processor configuration, the plan it makes for one buffer (which
//! stages run, in which order, and over how many samples each one
//! reaches), and the stages themselves.
//!
//! Levels, times and frequencies are whole numbers of thousandths: of a
//! decibel, of a millisecond, of a hertz. The arithmetic on samples is
//! the caller's: every stage is given it as functions.

use vstd::prelude::*;
use std::collections::VecDeque;
use crate::envelope::{all_within, ceiling_law, follow, follows, respects_ceiling};
use crate::error::AudioError;
use crate::pcm::{sample_kind, sample_kind_spec, SampleKind, WavSpec};
use crate::stft::{
    all_silent, bin_passes_spec, filter_mask, full_band_law, keeps_silence, transform_buffer,
    transformed, FFT_SIZE,
};
use crate::units::{held, Milli};

verus! {

/// The sample rate of a default processor, in Hz.
pub const DEFAULT_SAMPLE_RATE: u32 = 48000;

/// Default threshold of the spectral gate: 5 dB.
pub const DEFAULT_THRESHOLD_DB: Milli = 5_000;

/// Default threshold of the amplitude gate: -20 dB.
pub const DEFAULT_AMPLITUDE_THRESHOLD_DB: Milli = -20_000;

/// Default attack of the amplitude gate: 10 ms.
pub const DEFAULT_AMPLITUDE_ATTACK_MS: Milli = 10_000;

/// Default release of the amplitude gate: 100 ms.
pub const DEFAULT_AMPLITUDE_RELEASE_MS: Milli = 100_000;

/// Default lookahead of the amplitude gate and of the limiter: 5 ms.
pub const DEFAULT_LOOKAHEAD_MS: Milli = 5_000;

/// Default gain of the boost: 6 dB.
pub const DEFAULT_GAIN_DB: Milli = 6_000;

/// Default ceiling of the limiter: -1 dB.
pub const DEFAULT_LIMITER_THRESHOLD_DB: Milli = -1_000;

/// Default release of the limiter: 50 ms.
pub const DEFAULT_LIMITER_RELEASE_MS: Milli = 50_000;

/// Default lowpass cut-off: 20 kHz.
pub const DEFAULT_LOWPASS_FREQ: Milli = 20_000_000;

/// Default highpass cut-off: 75 Hz.
pub const DEFAULT_HIGHPASS_FREQ: Milli = 75_000;

/// Default target of the normalisation: -20 dB.
pub const DEFAULT_RMS_TARGET_DB: Milli = -20_000;

/// Default length of the fade-in: 200 ms.
pub const DEFAULT_FADE_IN_MS: Milli = 200_000;

/// The settings of every effect, and one switch per stage.
#[derive(Debug, Clone, Copy, PartialEq, Eq, Structural)]
pub struct AudioProcessor {
    pub sample_rate: u32,
    pub threshold_db: Milli,
    pub amplitude_threshold_db: Milli,
    pub amplitude_attack_ms: Milli,
    pub amplitude_release_ms: Milli,
    pub amplitude_lookahead_ms: Milli,
    pub gain_db: Milli,
    pub limiter_threshold_db: Milli,
    pub limiter_release_ms: Milli,
    pub limiter_lookahead_ms: Milli,
    pub lowpass_freq: Milli,
    pub highpass_freq: Milli,
    pub rms_target_db: Milli,
    pub fade_in_ms: Milli,
    pub rms_enabled: bool,
    pub filters_enabled: bool,
    pub spectral_gate_enabled: bool,
    pub amplitude_gate_enabled: bool,
    pub gain_boost_enabled: bool,
    pub limiter_enabled: bool,
}

/// One stage of the pipeline with the settings it runs on.
#[derive(Debug, Clone, Copy, PartialEq, Eq, Structural)]
pub enum Stage {
    /// Scale to a target RMS level, with a soft knee below full scale.
    RmsNormalize { target_db: Milli },
    /// Zero the bins outside the band between the two cut-offs.
    Filter { highpass_freq: Milli, lowpass_freq: Milli },
    /// Zero the bins whose magnitude is below the threshold.
    SpectralGate { threshold_db: Milli },
    /// Close the gain while the peak in the lookahead window is below the
    /// threshold.
    AmplitudeGate { threshold_db: Milli, attack_ms: Milli, release_ms: Milli, lookahead: usize },
    /// Multiply by a constant gain.
    GainBoost { gain_db: Milli },
    /// Hold the peak in the lookahead window under the threshold.
    Limiter { threshold_db: Milli, release_ms: Milli, lookahead: usize },
    /// Ramp the first `samples` samples up from silence.
    FadeIn { samples: usize },
}

/// What the gain update of the amplitude gate works with.
#[derive(Debug, Clone, Copy, PartialEq, Eq, Structural)]
pub struct GateSettings {
    pub sample_rate: u32,
    pub threshold_db: Milli,
    pub attack_ms: Milli,
    pub release_ms: Milli,
}

/// What the gain update of the limiter works with.
#[derive(Debug, Clone, Copy, PartialEq, Eq, Structural)]
pub struct LimiterSettings {
    pub sample_rate: u32,
    pub threshold_db: Milli,
    pub release_ms: Milli,
}

/// What one call of the pipeline does: how samples are decoded, the stages
/// in the order they run, and the format of the output file.
pub struct ProcessPlan {
    pub kind: SampleKind,
    pub stages: Vec<Stage>,
    pub output: WavSpec,
}

/// The whole samples that last `time_ms` thousandths of a millisecond at
/// `sample_rate` Hz; none for a time that is not positive.
pub open spec fn duration_samples_spec(time_ms: int, sample_rate: int) -> nat {
    if time_ms <= 0 {
        0
    } else {
        (time_ms * sample_rate / 1_000_000) as nat
    }
}

/// The samples at the start of a buffer of `len` samples that a fade of
/// `fade_ms` reaches.
pub open spec fn fade_samples_spec(fade_ms: int, sample_rate: int, len: nat) -> nat {
    if duration_samples_spec(fade_ms, sample_rate) <= len {
        duration_samples_spec(fade_ms, sample_rate)
    } else {
        len
    }
}

impl Stage {
    /// The place of a stage in the fixed order of the pipeline.
    pub open spec fn rank(self) -> nat {
        match self {
            Stage::RmsNormalize { .. } => 0,
            Stage::Filter { .. } => 1,
            Stage::SpectralGate { .. } => 2,
            Stage::AmplitudeGate { .. } => 3,
            Stage::GainBoost { .. } => 4,
            Stage::Limiter { .. } => 5,
            Stage::FadeIn { .. } => 6,
        }
    }
}

impl AudioProcessor {
    /// Whether times and frequencies are positive, the fade not negative.
    pub open spec fn valid(&self) -> bool {
        &&& self.sample_rate > 0
        &&& self.amplitude_attack_ms > 0
        &&& self.amplitude_release_ms > 0
        &&& self.amplitude_lookahead_ms > 0
        &&& self.limiter_release_ms > 0
        &&& self.limiter_lookahead_ms > 0
        &&& self.lowpass_freq > 0
        &&& self.highpass_freq > 0
        &&& self.fade_in_ms >= 0
    }

    /// The settings of a fresh processor at `sample_rate` Hz.
    pub open spec fn new_spec(sample_rate: u32) -> AudioProcessor {
        AudioProcessor {
            sample_rate,
            threshold_db: DEFAULT_THRESHOLD_DB,
            amplitude_threshold_db: DEFAULT_AMPLITUDE_THRESHOLD_DB,
            amplitude_attack_ms: DEFAULT_AMPLITUDE_ATTACK_MS,
            amplitude_release_ms: DEFAULT_AMPLITUDE_RELEASE_MS,
            amplitude_lookahead_ms: DEFAULT_LOOKAHEAD_MS,
            gain_db: DEFAULT_GAIN_DB,
            limiter_threshold_db: DEFAULT_LIMITER_THRESHOLD_DB,
            limiter_release_ms: DEFAULT_LIMITER_RELEASE_MS,
            limiter_lookahead_ms: DEFAULT_LOOKAHEAD_MS,
            lowpass_freq: DEFAULT_LOWPASS_FREQ,
            highpass_freq: DEFAULT_HIGHPASS_FREQ,
            rms_target_db: DEFAULT_RMS_TARGET_DB,
            fade_in_ms: DEFAULT_FADE_IN_MS,
            rms_enabled: true,
            filters_enabled: true,
            spectral_gate_enabled: true,
            amplitude_gate_enabled: true,
            gain_boost_enabled: false,
            limiter_enabled: true,
        }
    }

    /// The normalisation stage.
    pub open spec fn rms_stage_spec(&self) -> Stage {
        Stage::RmsNormalize { target_db: self.rms_target_db }
    }

    /// The band filter stage.
    pub open spec fn filter_stage_spec(&self) -> Stage {
        Stage::Filter { highpass_freq: self.highpass_freq, lowpass_freq: self.lowpass_freq }
    }

    /// The spectral gate stage.
    pub open spec fn spectral_gate_stage_spec(&self) -> Stage {
        Stage::SpectralGate { threshold_db: self.threshold_db }
    }

    /// The amplitude gate stage.
    pub open spec fn amplitude_gate_stage_spec(&self) -> Stage {
        Stage::AmplitudeGate {
            threshold_db: self.amplitude_threshold_db,
            attack_ms: self.amplitude_attack_ms,
            release_ms: self.amplitude_release_ms,
            lookahead: held(
                duration_samples_spec(self.amplitude_lookahead_ms as int, self.sample_rate as int),
            ) as usize,
        }
    }

    /// The gain stage.
    pub open spec fn gain_stage_spec(&self) -> Stage {
        Stage::GainBoost { gain_db: self.gain_db }
    }

    /// The limiter stage.
    pub open spec fn limiter_stage_spec(&self) -> Stage {
        Stage::Limiter {
            threshold_db: self.limiter_threshold_db,
            release_ms: self.limiter_release_ms,
            lookahead: held(
                duration_samples_spec(self.limiter_lookahead_ms as int, self.sample_rate as int),
            ) as usize,
        }
    }

    /// The settings that the amplitude gate hands to its gain update.
    pub open spec fn gate_settings_spec(&self) -> GateSettings {
        GateSettings {
            sample_rate: self.sample_rate,
            threshold_db: self.amplitude_threshold_db,
            attack_ms: self.amplitude_attack_ms,
            release_ms: self.amplitude_release_ms,
        }
    }

    /// The settings that the limiter hands to its gain update.
    pub open spec fn limiter_settings_spec(&self) -> LimiterSettings {
        LimiterSettings {
            sample_rate: self.sample_rate,
            threshold_db: self.limiter_threshold_db,
            release_ms: self.limiter_release_ms,
        }
    }

    /// The fade-in stage for a buffer of `len` samples.
    pub open spec fn fade_stage_spec(&self, len: nat) -> Stage {
        Stage::FadeIn {
            samples: fade_samples_spec(self.fade_in_ms as int, self.sample_rate as int, len) as usize,
        }
    }

    /// The stages that run on a buffer of `len` samples, in the order they
    /// run: normalisation, band filter, spectral gate, amplitude gate,
    /// gain, limiter, each only if switched on, and then the fade-in,
    /// always. Normalisation is left out for a silent buffer, whose RMS
    /// cannot be scaled.
    pub open spec fn stages_spec(&self, len: nat, silent: bool) -> Seq<Stage> {
        self.switched_stages_spec(silent).push(self.fade_stage_spec(len))
    }

    /// The stages in front of the fade-in.
    pub open spec fn switched_stages_spec(&self, silent: bool) -> Seq<Stage> {
        let plan = Seq::<Stage>::empty();
        let plan = with_stage(plan, self.rms_enabled && !silent, self.rms_stage_spec());
        let plan = with_stage(plan, self.filters_enabled, self.filter_stage_spec());
        let plan = with_stage(plan, self.spectral_gate_enabled, self.spectral_gate_stage_spec());
        let plan = with_stage(plan, self.amplitude_gate_enabled, self.amplitude_gate_stage_spec());
        let plan = with_stage(plan, self.gain_boost_enabled, self.gain_stage_spec());
        with_stage(plan, self.limiter_enabled, self.limiter_stage_spec())
    }
}

/// `plan` with `stage` behind it if the stage is switched on.
pub open spec fn with_stage(plan: Seq<Stage>, on: bool, stage: Stage) -> Seq<Stage> {
    if on {
        plan.push(stage)
    } else {
        plan
    }
}

/// Whether the ranks of a plan rise from each stage to the next and stay
/// below `bound`.
pub open spec fn rising(plan: Seq<Stage>, bound: nat) -> bool {
    &&& forall|i: int| 0 <= i < plan.len() ==> (#[trigger] plan[i]).rank() < bound
    &&& forall|i: int, j: int|
        0 <= i < j < plan.len() ==> (#[trigger] plan[i]).rank() < (#[trigger] plan[j]).rank()
}

/// The whole samples that last `time_ms` thousandths of a millisecond at
/// `sample_rate` Hz, held to what `usize` can count.
pub fn duration_samples(time_ms: Milli, sample_rate: u32) -> (count: usize)
    ensures
        count == held(duration_samples_spec(time_ms as int, sample_rate as int)),
{
    if time_ms <= 0 {
        return 0;
    }
    assert(0 <= (time_ms as int) * (sample_rate as int) <= 0x7fff_ffff_ffff_ffff * 0xffff_ffff)
        by (nonlinear_arith)
        requires
            0 < time_ms <= 0x7fff_ffff_ffff_ffff,
            0 <= sample_rate <= 0xffff_ffff,
    ;
    let product: u128 = (time_ms as u128) * (sample_rate as u128);
    let count: u128 = product / 1_000_000;
    if count <= usize::MAX as u128 {
        count as usize
    } else {
        usize::MAX
    }
}

/// The samples at the start of a buffer of `len` samples that a fade of
/// `fade_ms` reaches: its duration in samples, or the whole buffer if
/// that is shorter.
pub fn fade_samples(fade_ms: Milli, sample_rate: u32, len: usize) -> (count: usize)
    ensures
        count == fade_samples_spec(fade_ms as int, sample_rate as int, len as nat),
        count <= len,
{
    let wanted: usize = duration_samples(fade_ms, sample_rate);
    if wanted <= len {
        wanted
    } else {
        len
    }
}

impl AudioProcessor {
    /// A processor at `sample_rate` Hz with the default settings: every
    /// stage but the gain boost switched on.
    pub fn new(sample_rate: u32) -> (processor: AudioProcessor)
        ensures
            processor == AudioProcessor::new_spec(sample_rate),
            sample_rate > 0 ==> processor.valid(),
    {
        AudioProcessor {
            sample_rate,
            threshold_db: DEFAULT_THRESHOLD_DB,
            amplitude_threshold_db: DEFAULT_AMPLITUDE_THRESHOLD_DB,
            amplitude_attack_ms: DEFAULT_AMPLITUDE_ATTACK_MS,
            amplitude_release_ms: DEFAULT_AMPLITUDE_RELEASE_MS,
            amplitude_lookahead_ms: DEFAULT_LOOKAHEAD_MS,
            gain_db: DEFAULT_GAIN_DB,
            limiter_threshold_db: DEFAULT_LIMITER_THRESHOLD_DB,
            limiter_release_ms: DEFAULT_LIMITER_RELEASE_MS,
            limiter_lookahead_ms: DEFAULT_LOOKAHEAD_MS,
            lowpass_freq: DEFAULT_LOWPASS_FREQ,
            highpass_freq: DEFAULT_HIGHPASS_FREQ,
            rms_target_db: DEFAULT_RMS_TARGET_DB,
            fade_in_ms: DEFAULT_FADE_IN_MS,
            rms_enabled: true,
            filters_enabled: true,
            spectral_gate_enabled: true,
            amplitude_gate_enabled: true,
            gain_boost_enabled: false,
            limiter_enabled: true,
        }
    }

    /// Whether times and frequencies are positive, the fade not negative.
    pub fn is_valid(&self) -> (ok: bool)
        ensures
            ok == self.valid(),
    {
        self.sample_rate > 0 && self.amplitude_attack_ms > 0 && self.amplitude_release_ms > 0
            && self.amplitude_lookahead_ms > 0 && self.limiter_release_ms > 0
            && self.limiter_lookahead_ms > 0 && self.lowpass_freq > 0 && self.highpass_freq > 0
            && self.fade_in_ms >= 0
    }

    /// The normalisation stage, or `DivisionDegenerate` for a buffer whose
    /// RMS is zero.
    pub fn rms_stage(&self, silent: bool) -> (r: Result<Stage, AudioError>)
        ensures
            silent ==> r == Err::<Stage, AudioError>(AudioError::DivisionDegenerate),
            !silent ==> r == Ok::<Stage, AudioError>(self.rms_stage_spec()),
    {
        if silent {
            Err(AudioError::DivisionDegenerate)
        } else {
            Ok(Stage::RmsNormalize { target_db: self.rms_target_db })
        }
    }

    /// The stages that run on a buffer of `len` samples, in the order they
    /// run. `silent` tells that the buffer's RMS is zero.
    pub fn stages(&self, len: usize, silent: bool) -> (plan: Vec<Stage>)
        ensures
            plan@ == self.stages_spec(len as nat, silent),
    {
        let mut plan: Vec<Stage> = Vec::new();
        if self.rms_enabled {
            match self.rms_stage(silent) {
                Ok(stage) => {
                    plan.push(stage);
                },
                Err(_) => {},
            }
        }
        let ghost after_rms = plan@;
        assert(after_rms =~= with_stage(
            Seq::<Stage>::empty(),
            self.rms_enabled && !silent,
            self.rms_stage_spec(),
        ));
        if self.filters_enabled {
            plan.push(
                Stage::Filter { highpass_freq: self.highpass_freq, lowpass_freq: self.lowpass_freq },
            );
        }
        let ghost after_filter = plan@;
        assert(after_filter == with_stage(after_rms, self.filters_enabled, self.filter_stage_spec()));
        if self.spectral_gate_enabled {
            plan.push(Stage::SpectralGate { threshold_db: self.threshold_db });
        }
        let ghost after_spectral = plan@;
        assert(after_spectral == with_stage(
            after_filter,
            self.spectral_gate_enabled,
            self.spectral_gate_stage_spec(),
        ));
        if self.amplitude_gate_enabled {
            plan.push(
                Stage::AmplitudeGate {
                    threshold_db: self.amplitude_threshold_db,
                    attack_ms: self.amplitude_attack_ms,
                    release_ms: self.amplitude_release_ms,
                    lookahead: duration_samples(self.amplitude_lookahead_ms, self.sample_rate),
                },
            );
        }
        let ghost after_amplitude = plan@;
        assert(after_amplitude == with_stage(
            after_spectral,
            self.amplitude_gate_enabled,
            self.amplitude_gate_stage_spec(),
        ));
        if self.gain_boost_enabled {
            plan.push(Stage::GainBoost { gain_db: self.gain_db });
        }
        let ghost after_gain = plan@;
        assert(after_gain == with_stage(
            after_amplitude,
            self.gain_boost_enabled,
            self.gain_stage_spec(),
        ));
        if self.limiter_enabled {
            plan.push(
                Stage::Limiter {
                    threshold_db: self.limiter_threshold_db,
                    release_ms: self.limiter_release_ms,
                    lookahead: duration_samples(self.limiter_lookahead_ms, self.sample_rate),
                },
            );
        }
        assert(plan@ == with_stage(after_gain, self.limiter_enabled, self.limiter_stage_spec()));
        plan.push(Stage::FadeIn { samples: fade_samples(self.fade_in_ms, self.sample_rate, len) });
        plan
    }

    /// Plans the processing of one PCM file of `len` samples.
    ///
    /// The processor takes over the sample rate of the file. A file that
    /// is neither 32-bit float nor 16-bit integer is refused as
    /// `UnsupportedFormat`. Otherwise the plan names the decoding, the
    /// stages for the buffer at the file's rate, and an output format that
    /// repeats the input's channel count, rate, depth and encoding.
    pub fn process_file(&mut self, spec: &WavSpec, len: usize, silent: bool) -> (r: Result<
        ProcessPlan,
        AudioError,
    >)
        ensures
            *final(self) == (AudioProcessor { sample_rate: spec.sample_rate, ..*old(self) }),
            match r {
                Ok(plan) => {
                    &&& sample_kind_spec(*spec) == Ok::<SampleKind, AudioError>(plan.kind)
                    &&& plan.stages@ == final(self).stages_spec(len as nat, silent)
                    &&& plan.output == *spec
                },
                Err(e) => sample_kind_spec(*spec) == Err::<SampleKind, AudioError>(e),
            },
    {
        self.sample_rate = spec.sample_rate;
        match sample_kind(spec) {
            Ok(kind) => {
                let stages: Vec<Stage> = self.stages(len, silent);
                Ok(ProcessPlan { kind, stages, output: *spec })
            },
            Err(e) => Err(e),
        }
    }
}

/// Whether `after` is `before` with every sample put through `change`
/// at the given level, which is in thousandths of a decibel.
pub open spec fn mapped<T, F: Fn(T, Milli) -> T>(
    before: Seq<T>,
    change: F,
    level: Milli,
    after: Seq<T>,
) -> bool {
    &&& after.len() == before.len()
    &&& forall|i: int|
        0 <= i < before.len() ==> call_ensures(change, (before[i], level), #[trigger] after[i])
}

/// Whether `after` is `before` with a ramp over its first `reach`
/// samples: each of them put through `ramp` with its place in the ramp,
/// the others as they were.
pub open spec fn ramped<T, R: Fn(T, usize, usize) -> T>(
    before: Seq<T>,
    reach: nat,
    ramp: R,
    after: Seq<T>,
) -> bool {
    &&& after.len() == before.len()
    &&& forall|i: int|
        0 <= i < reach && i < before.len() ==> call_ensures(
            ramp,
            (before[i], i as usize, reach as usize),
            #[trigger] after[i],
        )
    &&& forall|i: int| reach <= i < before.len() ==> #[trigger] after[i] == before[i]
}

/// Puts every sample through `change` at the given level, in place.
fn map_samples<T: Copy, F: Fn(T, Milli) -> T>(samples: &mut Vec<T>, level: Milli, change: F)
    requires
        forall|sample: T| call_requires(change, (sample, level)),
    ensures
        mapped(old(samples)@, change, level, final(samples)@),
{
    let mut i: usize = 0;
    while i < samples.len()
        invariant
            i <= samples@.len(),
            samples@.len() == old(samples)@.len(),
            forall|sample: T| call_requires(change, (sample, level)),
            forall|k: int|
                0 <= k < i ==> call_ensures(
                    change,
                    (old(samples)@[k], level),
                    #[trigger] samples@[k],
                ),
            forall|k: int| i <= k < samples@.len() ==> samples@[k] == old(samples)@[k],
        decreases samples.len() - i,
    {
        let changed: T = change(samples[i], level);
        samples.set(i, changed);
        i = i + 1;
    }
}

impl AudioProcessor {
    /// The normalisation stage. `scale` is handed a sample and the target
    /// level, in thousandths of a decibel, and gives the sample at the
    /// gain towards that level, with the soft knee behind it. Whatever
    /// holds of every sample that `scale` gives, such as a bound, holds
    /// of every sample of the buffer afterwards. A silent buffer has no
    /// such gain: it is left as it is and the call fails with
    /// `DivisionDegenerate`.
    pub fn apply_rms_normalization<T: Copy, F: Fn(T, Milli) -> T>(
        &self,
        samples: &mut Vec<T>,
        silent: bool,
        scale: F,
    ) -> (r: Result<(), AudioError>)
        requires
            forall|sample: T| call_requires(scale, (sample, self.rms_target_db)),
        ensures
            silent ==> r == Err::<(), AudioError>(AudioError::DivisionDegenerate),
            silent ==> final(samples)@ == old(samples)@,
            !silent ==> r.is_ok() && mapped(
                old(samples)@,
                scale,
                self.rms_target_db,
                final(samples)@,
            ),
            !silent ==> forall|holds: spec_fn(T, T) -> bool| #[trigger]
                always_holds(scale, self.rms_target_db, holds) ==> all_hold(
                    old(samples)@,
                    final(samples)@,
                    holds,
                ),
    {
        match self.rms_stage(silent) {
            Ok(_) => {
                map_samples(samples, self.rms_target_db, scale);
                Ok(())
            },
            Err(e) => Err(e),
        }
    }

    /// Whether `mask` tells, for every transform output, if the band
    /// between the configured cut-offs keeps it.
    pub open spec fn is_filter_mask(&self, mask: Seq<bool>) -> bool {
        &&& mask.len() == 4096
        &&& forall|bin: int|
            0 <= bin < 4096 ==> mask[bin] == bin_passes_spec(
                bin,
                self.sample_rate as int,
                self.highpass_freq as int,
                self.lowpass_freq as int,
            )
    }

    /// The band filter: the transform engine with the mask of the bins
    /// that the band between the two cut-offs keeps. `transform` turns a
    /// frame into the frame that is left when the bins that the mask
    /// drops are zeroed; `weights`, `accumulate` and `finish` are those of
    /// [`transform_buffer`].
    pub fn apply_filters<
        T: Copy,
        F: Fn(&Vec<T>, &Vec<bool>) -> Vec<T>,
        S: Fn(T, T) -> T + Copy,
        D: Fn(T, T) -> T,
    >(
        &self,
        samples: &mut Vec<T>,
        silence: T,
        weights: &Vec<T>,
        transform: F,
        accumulate: S,
        finish: D,
    )
        requires
            weights@.len() == FFT_SIZE,
            forall|frame: &Vec<T>, mask: &Vec<bool>|
                frame@.len() == FFT_SIZE && mask@.len() == FFT_SIZE ==> call_requires(
                    transform,
                    (frame, mask),
                ),
            forall|frame: &Vec<T>, mask: &Vec<bool>, result: Vec<T>|
                frame@.len() == FFT_SIZE && call_ensures(transform, (frame, mask), result)
                    ==> result@.len() == FFT_SIZE,
            forall|a: T, b: T| call_requires(accumulate, (a, b)),
            forall|a: T, b: T| call_requires(finish, (a, b)),
        ensures
            final(samples)@.len() == old(samples)@.len(),
            exists|mask: Vec<bool>, sums: Seq<T>|
                self.is_filter_mask(mask@) && #[trigger] transformed(
                    old(samples)@,
                    silence,
                    mask,
                    weights@,
                    transform,
                    accumulate,
                    finish,
                    sums,
                    final(samples)@,
                ),
    {
        let mask: Vec<bool> = filter_mask(self.sample_rate, self.highpass_freq, self.lowpass_freq);
        let out: Vec<T> = transform_buffer(
            samples,
            silence,
            &mask,
            weights,
            transform,
            accumulate,
            finish,
        );
        *samples = out;
    }

    /// The spectral gate: the transform engine with the configured
    /// threshold. `transform` turns a frame into the frame that is left
    /// when the bins below the threshold, given in thousandths of a
    /// decibel, are zeroed; `weights`, `accumulate` and `finish` are those
    /// of [`transform_buffer`]. With functions that keep silence, a
    /// buffer of silence stays a buffer of silence.
    pub fn apply_noise_gate<
        T: Copy,
        F: Fn(&Vec<T>, &Milli) -> Vec<T>,
        S: Fn(T, T) -> T + Copy,
        D: Fn(T, T) -> T,
    >(
        &self,
        samples: &mut Vec<T>,
        silence: T,
        weights: &Vec<T>,
        transform: F,
        accumulate: S,
        finish: D,
    )
        requires
            weights@.len() == FFT_SIZE,
            forall|frame: &Vec<T>, threshold: &Milli|
                frame@.len() == FFT_SIZE ==> call_requires(transform, (frame, threshold)),
            forall|frame: &Vec<T>, threshold: &Milli, result: Vec<T>|
                frame@.len() == FFT_SIZE && call_ensures(transform, (frame, threshold), result)
                    ==> result@.len() == FFT_SIZE,
            forall|a: T, b: T| call_requires(accumulate, (a, b)),
            forall|a: T, b: T| call_requires(finish, (a, b)),
        ensures
            final(samples)@.len() == old(samples)@.len(),
            exists|sums: Seq<T>| #[trigger]
                transformed(
                    old(samples)@,
                    silence,
                    self.threshold_db,
                    weights@,
                    transform,
                    accumulate,
                    finish,
                    sums,
                    final(samples)@,
                ),
            keeps_silence(silence, self.threshold_db, transform, accumulate, finish) && all_silent(
                old(samples)@,
                silence,
            ) ==> all_silent(final(samples)@, silence),
    {
        let threshold: Milli = self.threshold_db;
        let out: Vec<T> = transform_buffer(
            samples,
            silence,
            &threshold,
            weights,
            transform,
            accumulate,
            finish,
        );
        *samples = out;
    }

    /// The gain stage: every sample put through `boost`, which is handed
    /// the configured gain in thousandths of a decibel.
    pub fn apply_gain_boost<T: Copy, F: Fn(T, Milli) -> T>(&self, samples: &mut Vec<T>, boost: F)
        requires
            forall|sample: T| call_requires(boost, (sample, self.gain_db)),
        ensures
            mapped(old(samples)@, boost, self.gain_db, final(samples)@),
    {
        map_samples(samples, self.gain_db, boost);
    }

    /// The settings that the amplitude gate hands to its gain update.
    pub fn gate_settings(&self) -> (settings: GateSettings)
        ensures
            settings == self.gate_settings_spec(),
    {
        GateSettings {
            sample_rate: self.sample_rate,
            threshold_db: self.amplitude_threshold_db,
            attack_ms: self.amplitude_attack_ms,
            release_ms: self.amplitude_release_ms,
        }
    }

    /// The settings that the limiter hands to its gain update.
    pub fn limiter_settings(&self) -> (settings: LimiterSettings)
        ensures
            settings == self.limiter_settings_spec(),
    {
        LimiterSettings {
            sample_rate: self.sample_rate,
            threshold_db: self.limiter_threshold_db,
            release_ms: self.limiter_release_ms,
        }
    }

    /// The amplitude gate: the envelope follower over the configured
    /// lookahead. `update` is handed the window, the gain so far and the
    /// configured threshold, attack and release, and smooths the gain
    /// towards open or closed; `apply` scales a sample by the gain.
    pub fn apply_amplitude_gate<
        T: Copy,
        G: Copy,
        U: Fn(&VecDeque<T>, G, &GateSettings) -> G,
        A: Fn(T, G) -> T,
    >(&self, samples: &mut Vec<T>, silence: T, start: G, update: U, apply: A)
        requires
            duration_samples_spec(self.amplitude_lookahead_ms as int, self.sample_rate as int)
                < usize::MAX,
            forall|window: &VecDeque<T>, gain: G, settings: &GateSettings|
                call_requires(update, (window, gain, settings)),
            forall|sample: T, gain: G| call_requires(apply, (sample, gain)),
        ensures
            exists|windows: Seq<VecDeque<T>>, gains: Seq<G>| #[trigger]
                follows(
                    old(samples)@,
                    duration_samples_spec(
                        self.amplitude_lookahead_ms as int,
                        self.sample_rate as int,
                    ),
                    silence,
                    start,
                    self.gate_settings_spec(),
                    update,
                    apply,
                    windows,
                    gains,
                    final(samples)@,
                ),
    {
        let lookahead: usize = duration_samples(self.amplitude_lookahead_ms, self.sample_rate);
        let settings: GateSettings = self.gate_settings();
        let out: Vec<T> = follow(samples, lookahead, silence, start, &settings, update, apply);
        *samples = out;
    }

    /// The lookahead limiter: the envelope follower over the configured
    /// lookahead. `update` is handed the window, the gain so far and the
    /// configured ceiling and release, drops the gain at once to what the
    /// peak in the window allows and lets it recover gradually; `apply`
    /// scales a sample by the gain. With functions that respect a
    /// ceiling, every output sample lies within it.
    pub fn apply_lookahead_limiter<
        T: Copy,
        G: Copy,
        U: Fn(&VecDeque<T>, G, &LimiterSettings) -> G,
        A: Fn(T, G) -> T,
    >(&self, samples: &mut Vec<T>, silence: T, start: G, update: U, apply: A)
        requires
            duration_samples_spec(self.limiter_lookahead_ms as int, self.sample_rate as int)
                < usize::MAX,
            forall|window: &VecDeque<T>, gain: G, settings: &LimiterSettings|
                call_requires(update, (window, gain, settings)),
            forall|sample: T, gain: G| call_requires(apply, (sample, gain)),
        ensures
            exists|windows: Seq<VecDeque<T>>, gains: Seq<G>| #[trigger]
                follows(
                    old(samples)@,
                    duration_samples_spec(
                        self.limiter_lookahead_ms as int,
                        self.sample_rate as int,
                    ),
                    silence,
                    start,
                    self.limiter_settings_spec(),
                    update,
                    apply,
                    windows,
                    gains,
                    final(samples)@,
                ),
            forall|safe: spec_fn(T, G) -> bool, within: spec_fn(T) -> bool| #[trigger]
                respects_ceiling(self.limiter_settings_spec(), update, apply, safe, within)
                    ==> all_within(final(samples)@, within),
    {
        let lookahead: usize = duration_samples(self.limiter_lookahead_ms, self.sample_rate);
        let settings: LimiterSettings = self.limiter_settings();
        let ghost input = samples@;
        let out: Vec<T> = follow(samples, lookahead, silence, start, &settings, update, apply);
        proof {
            let (windows, gains) = choose|windows: Seq<VecDeque<T>>, gains: Seq<G>| #[trigger]
                follows(
                    input,
                    lookahead as nat,
                    silence,
                    start,
                    settings,
                    update,
                    apply,
                    windows,
                    gains,
                    out@,
                );
            assert forall|safe: spec_fn(T, G) -> bool, within: spec_fn(T) -> bool| #[trigger]
                respects_ceiling(settings, update, apply, safe, within) implies all_within(
                out@,
                within,
            ) by {
                ceiling_law(
                    input,
                    lookahead as nat,
                    silence,
                    start,
                    settings,
                    update,
                    apply,
                    windows,
                    gains,
                    out@,
                    safe,
                    within,
                );
            }
        }
        *samples = out;
    }

    /// The fade-in: a ramp over the samples that the configured fade
    /// reaches. `ramp` scales a sample by the ramp's gain at its place;
    /// the samples behind the ramp stay as they are.
    pub fn apply_fade_in<T: Copy, R: Fn(T, usize, usize) -> T>(&self, samples: &mut Vec<T>, ramp: R)
        requires
            forall|sample: T, place: usize, reach: usize|
                place < reach ==> call_requires(ramp, (sample, place, reach)),
        ensures
            ramped(
                old(samples)@,
                fade_samples_spec(
                    self.fade_in_ms as int,
                    self.sample_rate as int,
                    old(samples)@.len(),
                ),
                ramp,
                final(samples)@,
            ),
    {
        let reach: usize = fade_samples(self.fade_in_ms, self.sample_rate, samples.len());
        let mut i: usize = 0;
        while i < reach
            invariant
                i <= reach <= samples@.len(),
                samples@.len() == old(samples)@.len(),
                forall|sample: T, place: usize, reach: usize|
                    place < reach ==> call_requires(ramp, (sample, place, reach)),
                forall|k: int|
                    0 <= k < i ==> call_ensures(
                        ramp,
                        (old(samples)@[k], k as usize, reach),
                        #[trigger] samples@[k],
                    ),
                forall|k: int| i <= k < samples@.len() ==> samples@[k] == old(samples)@[k],
            decreases reach - i,
        {
            let faded: T = ramp(samples[i], i, reach);
            samples.set(i, faded);
            i = i + 1;
        }
    }
}

impl Default for AudioProcessor {
    /// The default settings at 48 kHz.
    fn default() -> (processor: AudioProcessor)
        ensures
            processor == AudioProcessor::new_spec(DEFAULT_SAMPLE_RATE),
    {
        AudioProcessor::new(DEFAULT_SAMPLE_RATE)
    }
}

/// Putting a stage of rank `bound` behind a plan whose ranks rise below
/// `bound` gives a plan whose ranks rise below the next rank.
proof fn lemma_with_stage_rising(plan: Seq<Stage>, on: bool, stage: Stage, bound: nat)
    requires
        rising(plan, bound),
        stage.rank() == bound,
    ensures
        rising(with_stage(plan, on, stage), bound + 1),
        with_stage(plan, on, stage).len() <= plan.len() + 1,
        forall|other: Stage|
            #[trigger] with_stage(plan, on, stage).contains(other) <==> plan.contains(other) || (on
                && other == stage),
{
    let next = with_stage(plan, on, stage);
    assert forall|other: Stage| next.contains(other) <==> plan.contains(other) || (on && other
        == stage) by {
        if plan.contains(other) {
            let i = choose|i: int| 0 <= i < plan.len() && plan[i] == other;
            assert(next[i] == other);
        }
        if on && other == stage {
            assert(next[plan.len() as int] == other);
        }
        if next.contains(other) {
            let i = choose|i: int| 0 <= i < next.len() && next[i] == other;
            if i < plan.len() {
                assert(plan[i] == other);
            }
        }
    }
}

/// What holds of the stages in front of the fade-in: their ranks rise and
/// stay below that of the fade-in, and each is there exactly when it is
/// switched on.
proof fn lemma_switched_stages(processor: AudioProcessor, silent: bool)
    ensures
        rising(processor.switched_stages_spec(silent), 6),
        processor.switched_stages_spec(silent).len() <= 6,
        ({
            let plan = processor.switched_stages_spec(silent);
            &&& plan.contains(processor.rms_stage_spec()) <==> processor.rms_enabled && !silent
            &&& plan.contains(processor.filter_stage_spec()) <==> processor.filters_enabled
            &&& plan.contains(processor.spectral_gate_stage_spec())
                <==> processor.spectral_gate_enabled
            &&& plan.contains(processor.amplitude_gate_stage_spec())
                <==> processor.amplitude_gate_enabled
            &&& plan.contains(processor.gain_stage_spec()) <==> processor.gain_boost_enabled
            &&& plan.contains(processor.limiter_stage_spec()) <==> processor.limiter_enabled
        }),
{
    let p0 = Seq::<Stage>::empty();
    let p1 = with_stage(p0, processor.rms_enabled && !silent, processor.rms_stage_spec());
    let p2 = with_stage(p1, processor.filters_enabled, processor.filter_stage_spec());
    let p3 = with_stage(p2, processor.spectral_gate_enabled, processor.spectral_gate_stage_spec());
    let p4 = with_stage(
        p3,
        processor.amplitude_gate_enabled,
        processor.amplitude_gate_stage_spec(),
    );
    let p5 = with_stage(p4, processor.gain_boost_enabled, processor.gain_stage_spec());
    assert(rising(p0, 0));
    assert(forall|other: Stage| !p0.contains(other));
    lemma_with_stage_rising(p0, processor.rms_enabled && !silent, processor.rms_stage_spec(), 0);
    lemma_with_stage_rising(p1, processor.filters_enabled, processor.filter_stage_spec(), 1);
    lemma_with_stage_rising(
        p2,
        processor.spectral_gate_enabled,
        processor.spectral_gate_stage_spec(),
        2,
    );
    lemma_with_stage_rising(
        p3,
        processor.amplitude_gate_enabled,
        processor.amplitude_gate_stage_spec(),
        3,
    );
    lemma_with_stage_rising(p4, processor.gain_boost_enabled, processor.gain_stage_spec(), 4);
    lemma_with_stage_rising(p5, processor.limiter_enabled, processor.limiter_stage_spec(), 5);
}

/// The stages of a plan stand in the fixed order of the pipeline, none of
/// them twice, and the fade-in is the last.
pub proof fn stage_order_law(processor: AudioProcessor, len: nat, silent: bool)
    ensures
        ({
            let plan = processor.stages_spec(len, silent);
            &&& 1 <= plan.len() <= 7
            &&& plan[plan.len() - 1] == processor.fade_stage_spec(len)
            &&& forall|i: int, j: int|
                0 <= i < j < plan.len() ==> (#[trigger] plan[i]).rank() < (#[trigger] plan[j]).rank()
        }),
{
    lemma_switched_stages(processor, silent);
}

/// A stage in front of the fade-in is in the plan exactly when it is
/// switched on; normalisation also needs a buffer that is not silent.
pub proof fn stage_switch_law(processor: AudioProcessor, len: nat, silent: bool)
    ensures
        ({
            let plan = processor.stages_spec(len, silent);
            &&& plan.contains(processor.rms_stage_spec()) <==> processor.rms_enabled && !silent
            &&& plan.contains(processor.filter_stage_spec()) <==> processor.filters_enabled
            &&& plan.contains(processor.spectral_gate_stage_spec())
                <==> processor.spectral_gate_enabled
            &&& plan.contains(processor.amplitude_gate_stage_spec())
                <==> processor.amplitude_gate_enabled
            &&& plan.contains(processor.gain_stage_spec()) <==> processor.gain_boost_enabled
            &&& plan.contains(processor.limiter_stage_spec()) <==> processor.limiter_enabled
            &&& plan.contains(processor.fade_stage_spec(len))
        }),
{
    lemma_switched_stages(processor, silent);
    lemma_with_stage_rising(
        processor.switched_stages_spec(silent),
        true,
        processor.fade_stage_spec(len),
        6,
    );
}

/// With the highpass cut-off at zero and the lowpass cut-off at half the
/// sample rate, the mask that the band filter hands to its transform
/// keeps every bin: no frequency is excluded.
pub proof fn full_band_mask_law(processor: AudioProcessor, mask: Seq<bool>)
    requires
        processor.is_filter_mask(mask),
        processor.highpass_freq == 0,
        2 * processor.lowpass_freq == processor.sample_rate * 1000,
    ensures
        forall|bin: int| 0 <= bin < 4096 ==> #[trigger] mask[bin],
{
    assert forall|bin: int| 0 <= bin < 4096 implies #[trigger] mask[bin] by {
        full_band_law(
            bin,
            processor.sample_rate as int,
            processor.highpass_freq as int,
            processor.lowpass_freq as int,
        );
    }
}

/// Whether `holds` is true of every sample and whatever `change` makes
/// of it at the given level.
pub open spec fn always_holds<T, F: Fn(T, Milli) -> T>(
    change: F,
    level: Milli,
    holds: spec_fn(T, T) -> bool,
) -> bool {
    forall|sample: T, changed: T|
        #![trigger call_ensures(change, (sample, level), changed)]
        call_ensures(change, (sample, level), changed) ==> holds(sample, changed)
}

/// Whether `holds` is true of every sample of a buffer and the sample in
/// its place afterwards.
pub open spec fn all_hold<T>(before: Seq<T>, after: Seq<T>, holds: spec_fn(T, T) -> bool) -> bool {
    forall|i: int| 0 <= i < before.len() ==> holds(before[i], #[trigger] after[i])
}

/// What holds of every sample and what `change` makes of it at a level,
/// holds of every sample of a buffer and the sample in its place
/// afterwards.
pub proof fn map_law<T, F: Fn(T, Milli) -> T>(
    before: Seq<T>,
    change: F,
    level: Milli,
    after: Seq<T>,
    holds: spec_fn(T, T) -> bool,
)
    requires
        mapped(before, change, level, after),
        always_holds(change, level, holds),
    ensures
        all_hold(before, after, holds),
{
}

/// A boost by some gain and a boost by the opposite gain cancel on the
/// buffer if they cancel on every sample, up to what `close` allows:
/// after both, every sample is close to what it was.
pub proof fn round_trip_law<T, F: Fn(T, Milli) -> T>(
    before: Seq<T>,
    boost: F,
    gain_db: Milli,
    between: Seq<T>,
    after: Seq<T>,
    close: spec_fn(T, T) -> bool,
)
    requires
        gain_db > i64::MIN,
        mapped(before, boost, gain_db, between),
        mapped(between, boost, (-gain_db) as Milli, after),
        forall|sample: T, boosted: T, back: T|
            #![trigger call_ensures(boost, (sample, gain_db), boosted), call_ensures(boost, (boosted, (-gain_db) as Milli), back)]
            call_ensures(boost, (sample, gain_db), boosted) && call_ensures(
                boost,
                (boosted, (-gain_db) as Milli),
                back,
            ) ==> close(sample, back),
    ensures
        after.len() == before.len(),
        forall|i: int| 0 <= i < before.len() ==> close(before[i], #[trigger] after[i]),
{
    assert forall|i: int| 0 <= i < before.len() implies close(before[i], #[trigger] after[i]) by {
        assert(call_ensures(boost, (before[i], gain_db), between[i]));
        assert(call_ensures(boost, (between[i], (-gain_db) as Milli), after[i]));
    }
}

/// A ramp that reaches no sample changes nothing.
pub proof fn empty_fade_law<T, R: Fn(T, usize, usize) -> T>(before: Seq<T>, ramp: R, after: Seq<T>)
    requires
        ramped(before, 0, ramp, after),
    ensures
        after == before,
{
    assert(after =~= before);
}

/// With every stage switched off the plan holds the fade-in alone, and a
/// fade of no length reaches no sample: the pipeline changes nothing.
pub proof fn bypass_law(processor: AudioProcessor, len: nat, silent: bool)
    requires
        !processor.rms_enabled,
        !processor.filters_enabled,
        !processor.spectral_gate_enabled,
        !processor.amplitude_gate_enabled,
        !processor.gain_boost_enabled,
        !processor.limiter_enabled,
    ensures
        processor.stages_spec(len, silent) == seq![processor.fade_stage_spec(len)],
        processor.fade_in_ms == 0 ==> processor.fade_stage_spec(len) == (Stage::FadeIn {
            samples: 0,
        }),
{
    assert(processor.stages_spec(len, silent) =~= seq![processor.fade_stage_spec(len)]);
}

} // verus!
