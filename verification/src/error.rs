//! The failures that the pipeline and the codec layer report.

use vstd::prelude::*;

verus! {

/// Why a call into this crate failed.
#[derive(Debug, Clone, Copy, PartialEq, Eq, Structural)]
pub enum AudioError {
    /// A file or an in-memory sink could not be opened, read or written.
    IoError,
    /// The sample format is neither 32-bit float nor 16-bit integer.
    UnsupportedFormat,
    /// The codec, or the container around it, rejected its input.
    CodecError,
    /// Normalisation was asked for a buffer whose RMS is zero.
    DivisionDegenerate,
}

impl AudioError {
    /// A short description for a status line.
    pub fn message(&self) -> (text: &'static str)
        ensures
            text@ == (match *self {
                AudioError::IoError => "i/o failure"@,
                AudioError::UnsupportedFormat => "unsupported sample format"@,
                AudioError::CodecError => "codec failure"@,
                AudioError::DivisionDegenerate => "cannot normalise silence"@,
            }),
    {
        match self {
            AudioError::IoError => "i/o failure",
            AudioError::UnsupportedFormat => "unsupported sample format",
            AudioError::CodecError => "codec failure",
            AudioError::DivisionDegenerate => "cannot normalise silence",
        }
    }
}

} // verus!
