//! Errors raised by the audio sinks and sources of this library.

use vstd::prelude::*;

verus! {

/// Why a sink or source refused an operation.
#[derive(Clone, Copy, Debug, PartialEq, Eq, Structural)]
pub enum AudioError {
    /// The operation needs an audio format that has not been set yet.
    FormatNotSet,
    /// A source was asked to open a second input.
    AlreadyOpen,
    /// The format may not change once playback has begun.
    AlreadyStarted,
    /// The sink was finalized and accepts nothing further.
    Finalized,
    /// The format lies outside the supported matrix, or its byte rate
    /// cannot be represented in a WAV header.
    UnsupportedFormat,
    /// The input bytes do not form a WAV file this codec accepts.
    MalformedWav,
    /// The write would grow the file beyond what a WAV header can state.
    TooLarge,
    /// The audio device could not be opened or driven.  Raised only by
    /// device-backed implementations of the capability traits; one
    /// session's device failure is isolated to that session.
    Device,
}

impl AudioError {
    /// A short description, for the unverified shell to report.
    pub fn describe(&self) -> &'static str {
        match self {
            AudioError::FormatNotSet => "audio format not set",
            AudioError::AlreadyOpen => "input already opened",
            AudioError::AlreadyStarted => "format change after playback started",
            AudioError::Finalized => "sink already finalized",
            AudioError::UnsupportedFormat => "unsupported audio format",
            AudioError::MalformedWav => "malformed WAV data",
            AudioError::TooLarge => "audio data too large for a WAV file",
            AudioError::Device => "audio device failure",
        }
    }
}

} // verus!
