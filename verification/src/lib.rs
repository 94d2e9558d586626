//! A verified core for a TCP audio-streaming tool.
//!
//! The library covers the pieces whose behaviour is worth stating exactly:
//! the wire codec for session messages, the WAV container codec, the
//! real-time playback byte queue, and the client/server session state
//! machines.  Sockets, files and the audio device are driven by a thin
//! unverified shell that hands this library plain bytes.

pub mod audio;
pub mod error;
pub mod format;
pub mod protocol;
pub mod playback;
pub mod recv;
pub mod session;
pub mod sink;
pub mod wav;

pub use format::AudioHeader;
pub use format::SampleFormat;
