//! The capability interfaces for audio sinks and sources, and their
//! implementations by the WAV codec and the playback buffer.
//!
//! A session fans every received payload out to zero or more registered
//! sinks behind [`AudioWriter`]; each sink carries its own invariant,
//! which every operation preserves.

use vstd::prelude::*;

use crate::error::AudioError;
use crate::format::AudioHeader;
use crate::playback::CpalFileWrite;
use crate::playback::PlaybackView;
use crate::wav::WavFileRead;
use crate::wav::WavFileWrite;
use crate::wav::WavWriteView;

verus! {

/// The audio container formats the tool speaks.
#[derive(Clone, Copy, Debug, PartialEq, Eq, Structural)]
pub enum FileFormat {
    Wav,
}

/// A sink for raw little-endian sample bytes: told its format once,
/// written to repeatedly, finalized at end of stream.
pub trait AudioWriter {
    /// The sink's own well-formedness, preserved by every operation.
    spec fn inv(&self) -> bool;

    fn write(&mut self, data: &[u8]) -> (r: Result<(), AudioError>)
        requires
            old(self).inv(),
        ensures
            final(self).inv(),
    ;

    fn finalize(&mut self) -> (r: Result<(), AudioError>)
        requires
            old(self).inv(),
        ensures
            final(self).inv(),
    ;

    fn update_format(&mut self, header: &AudioHeader) -> (r: Result<(), AudioError>)
        requires
            old(self).inv(),
        ensures
            final(self).inv(),
    ;
}

/// A source of raw little-endian sample bytes, whole samples at a time.
pub trait AudioReader {
    /// The source's own well-formedness, preserved by every operation.
    spec fn inv(&self) -> bool;

    fn read(&mut self, max_len: usize) -> (r: Vec<u8>)
        requires
            old(self).inv(),
        ensures
            final(self).inv(),
    ;

    fn open_bytes(&mut self, bytes: &[u8]) -> (r: Result<(), AudioError>)
        requires
            old(self).inv(),
        ensures
            final(self).inv(),
    ;

    fn update_header(&mut self, header: &mut AudioHeader)
        requires
            old(self).inv(),
        ensures
            final(self).inv(),
    ;
}

/// Renders a finished audio file on the output device.  Implemented by
/// the unverified shell, which owns the device.
pub trait AudioPlayer {
    fn play_from_file(&self, file_path: &str, format: FileFormat) -> Result<(), AudioError>;
}

/// Captures from the input device into a file.  Implemented by the
/// unverified shell, which owns the device.
pub trait AudioRecorder {
    fn record_into_file(&self, duration: u64, path: &str, format: FileFormat) -> Result<
        (),
        AudioError,
    >;
}

impl AudioWriter for WavFileWrite {
    open spec fn inv(&self) -> bool {
        self@.wf()
    }

    fn write(&mut self, data: &[u8]) -> (r: Result<(), AudioError>) {
        WavFileWrite::write(self, data)
    }

    fn finalize(&mut self) -> (r: Result<(), AudioError>) {
        WavFileWrite::finalize(self)
    }

    fn update_format(&mut self, header: &AudioHeader) -> (r: Result<(), AudioError>) {
        WavFileWrite::update_format(self, header)
    }
}

impl AudioWriter for CpalFileWrite {
    open spec fn inv(&self) -> bool {
        self@.wf()
    }

    fn write(&mut self, data: &[u8]) -> (r: Result<(), AudioError>) {
        CpalFileWrite::write(self, data)
    }

    fn finalize(&mut self) -> (r: Result<(), AudioError>) {
        match CpalFileWrite::finalize(self) {
            Ok(()) => Ok(()),
            Err(e) => Err(e),
        }
    }

    fn update_format(&mut self, header: &AudioHeader) -> (r: Result<(), AudioError>) {
        match CpalFileWrite::update_format(self, header) {
            Ok(()) => Ok(()),
            Err(e) => Err(e),
        }
    }
}

impl AudioReader for WavFileRead {
    open spec fn inv(&self) -> bool {
        self@.wf()
    }

    fn read(&mut self, max_len: usize) -> (r: Vec<u8>) {
        WavFileRead::read(self, max_len)
    }

    fn open_bytes(&mut self, bytes: &[u8]) -> (r: Result<(), AudioError>) {
        WavFileRead::open_bytes(self, bytes)
    }

    fn update_header(&mut self, header: &mut AudioHeader) {
        WavFileRead::update_header(self, header)
    }
}

} // verus!
