//! What the pipeline needs to know of a PCM file: its format fields, which
//! sample encodings are taken, and how interleaved channels become mono.

use vstd::prelude::*;
use crate::error::AudioError;

verus! {

/// How the samples of a PCM file are encoded.
#[derive(Debug, Clone, Copy, PartialEq, Eq, Structural)]
pub enum SampleFormat {
    /// IEEE floating point.
    Float,
    /// Signed integers.
    Int,
}

/// The format fields of a PCM file.
#[derive(Debug, Clone, Copy, PartialEq, Eq, Structural)]
pub struct WavSpec {
    pub channels: u16,
    pub sample_rate: u32,
    pub bits_per_sample: u16,
    pub sample_format: SampleFormat,
}

/// The two sample encodings that the pipeline reads and writes.
#[derive(Debug, Clone, Copy, PartialEq, Eq, Structural)]
pub enum SampleKind {
    /// 32-bit float, taken as it is.
    Float32,
    /// 16-bit integer, scaled to the range from -1 to 1.
    Int16,
}

/// The sample encoding of a file, or the refusal of a file that is
/// neither 32-bit float nor 16-bit integer.
pub open spec fn sample_kind_spec(spec: WavSpec) -> Result<SampleKind, AudioError> {
    if spec.sample_format == SampleFormat::Float && spec.bits_per_sample == 32 {
        Ok(SampleKind::Float32)
    } else if spec.sample_format == SampleFormat::Int && spec.bits_per_sample == 16 {
        Ok(SampleKind::Int16)
    } else {
        Err(AudioError::UnsupportedFormat)
    }
}

/// The first channel of interleaved stereo; any other channel count is
/// left as it is. An odd sample at the end of stereo input counts as a
/// last frame with only its first channel.
pub open spec fn downmix_spec<T>(samples: Seq<T>, channels: u16) -> Seq<T> {
    if channels == 2 {
        Seq::new((samples.len() + 1) / 2, |i: int| samples[2 * i])
    } else {
        samples
    }
}

/// The sample encoding of a file, or `UnsupportedFormat`.
pub fn sample_kind(spec: &WavSpec) -> (r: Result<SampleKind, AudioError>)
    ensures
        r == sample_kind_spec(*spec),
{
    match spec.sample_format {
        SampleFormat::Float => {
            if spec.bits_per_sample == 32 {
                Ok(SampleKind::Float32)
            } else {
                Err(AudioError::UnsupportedFormat)
            }
        },
        SampleFormat::Int => {
            if spec.bits_per_sample == 16 {
                Ok(SampleKind::Int16)
            } else {
                Err(AudioError::UnsupportedFormat)
            }
        },
    }
}

/// Reduces interleaved samples to mono: the first channel of stereo, and
/// the input unchanged for any other channel count.
pub fn downmix<T: Copy>(samples: &Vec<T>, channels: u16) -> (mono: Vec<T>)
    ensures
        mono@ == downmix_spec(samples@, channels),
{
    let stereo: bool = channels == 2;
    let count: usize = if stereo {
        samples.len() / 2 + samples.len() % 2
    } else {
        samples.len()
    };
    let mut mono: Vec<T> = Vec::with_capacity(count);
    let mut j: usize = 0;
    while j < count
        invariant
            j <= count,
            stereo == (channels == 2),
            stereo ==> count == (samples@.len() + 1) / 2,
            !stereo ==> count == samples@.len(),
            mono@.len() == j,
            forall|i: int| 0 <= i < j ==> mono@[i] == downmix_spec(samples@, channels)[i],
        decreases count - j,
    {
        let sample: T = if stereo {
            assert(2 * j + 1 <= samples.len());
            samples[2 * j]
        } else {
            samples[j]
        };
        mono.push(sample);
        j = j + 1;
    }
    assert(mono@ =~= downmix_spec(samples@, channels));
    mono
}

/// An unsigned 16-bit device sample as a signed one: 32767 below its
/// value, with the one value that does not fit wrapped to the lowest.
pub open spec fn from_u16_spec(sample: u16) -> i16 {
    if sample == 65535 {
        -32768i16
    } else {
        (sample - 32767) as i16
    }
}

/// An unsigned 16-bit device sample as a signed one.
pub fn from_u16(sample: u16) -> (signed: i16)
    ensures
        signed == from_u16_spec(sample),
{
    let shifted: i32 = sample as i32 - 32767;
    if shifted > 32767 {
        -32768i16
    } else {
        shifted as i16
    }
}

} // verus!
