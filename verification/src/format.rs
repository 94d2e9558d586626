//! The negotiated audio format descriptor shared by the wire codec, the
//! WAV codec and the playback buffer.

use vstd::prelude::*;

verus! {

/// How a single sample is to be interpreted: a signed integer or an
/// IEEE 754 binary32 value (carried everywhere as its bit pattern).
#[derive(Clone, Copy, Debug, PartialEq, Eq, Structural)]
pub enum SampleFormat {
    Int,
    Float,
}

/// The sample-rate / channels / bit-depth / sample-kind tuple negotiated
/// during the handshake.  It is the single source of truth for turning
/// wire bytes into samples.
#[derive(Clone, Copy, Debug, PartialEq, Eq, Structural)]
pub struct AudioHeader {
    pub sample_rate: u32,
    pub channels: u8,
    pub bits_per_sample: u8,
    pub sample_format: SampleFormat,
}

impl AudioHeader {
    /// The supported matrix: 16- or 32-bit integer samples, or 32-bit
    /// float samples.  Anything else is a negotiation failure.
    pub open spec fn spec_valid(self) -> bool {
        match self.sample_format {
            SampleFormat::Int => self.bits_per_sample == 16 || self.bits_per_sample == 32,
            SampleFormat::Float => self.bits_per_sample == 32,
        }
    }

    /// Width of one sample in bytes (2 or 4 for every valid format).
    pub open spec fn spec_bytes_per_sample(self) -> nat {
        (self.bits_per_sample / 8) as nat
    }

    /// Width of one frame — one sample per channel — in bytes.
    pub open spec fn spec_frame_size(self) -> nat {
        self.channels as nat * self.spec_bytes_per_sample()
    }

    pub fn new() -> (r: Self)
        ensures
            r.sample_rate == 0,
            r.channels == 0,
            r.bits_per_sample == 0,
            r.sample_format == SampleFormat::Int,
    {
        Self { sample_rate: 0, channels: 0, bits_per_sample: 0, sample_format: SampleFormat::Int }
    }

    pub fn get_sample_format(&self) -> (r: SampleFormat)
        ensures
            r == self.sample_format,
    {
        self.sample_format
    }

    pub fn get_bits_per_sample(&self) -> (r: u8)
        ensures
            r == self.bits_per_sample,
    {
        self.bits_per_sample
    }

    pub fn get_sample_rate(&self) -> (r: u32)
        ensures
            r == self.sample_rate,
    {
        self.sample_rate
    }

    pub fn get_channels(&self) -> (r: u8)
        ensures
            r == self.channels,
    {
        self.channels
    }

    /// Runtime check for `spec_valid`: the bit-depth / sample-kind matrix.
    pub fn is_valid(&self) -> (r: bool)
        ensures
            r == self.spec_valid(),
    {
        match self.sample_format {
            SampleFormat::Int => self.bits_per_sample == 16 || self.bits_per_sample == 32,
            SampleFormat::Float => self.bits_per_sample == 32,
        }
    }

    /// Width of one sample in bytes.
    pub fn bytes_per_sample(&self) -> (r: usize)
        ensures
            r == self.spec_bytes_per_sample(),
    {
        (self.bits_per_sample / 8) as usize
    }

    /// Width of one frame (one sample per channel) in bytes.
    pub fn frame_size(&self) -> (r: usize)
        ensures
            r == self.spec_frame_size(),
    {
        let bps = self.bytes_per_sample();
        assert(self.channels as int * bps as int <= 255 * 31) by (nonlinear_arith)
            requires
                bps <= 31,
                self.channels <= 255,
        ;
        self.channels as usize * bps
    }
}

} // verus!
