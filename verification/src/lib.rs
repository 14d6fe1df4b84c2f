//! Offline audio effects and Opus-in-Ogg packaging.
//!
//! The crate holds what deals in whole numbers and in the order of
//! things: frame and window geometry, the stage plan, the positions of a
//! sample-rate conversion, the engines that walk the buffers, the
//! container around encoded frames, and the filling of a device's output.
//! Arithmetic on samples is handed in by the caller as functions.

pub mod dsp;
pub mod envelope;
pub mod error;
pub mod ogg_io;
pub mod opus_encoder;
pub mod opus_playback;
pub mod pcm;
pub mod playback;
pub mod resample;
pub mod stft;
pub mod units;
