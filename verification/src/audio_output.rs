//! The platform-neutral audio output format.
//!
//! Buffer length, sample rate and channel count are gathered in named constants here so
//! that every platform leaf derives its native stream settings from one place.
use vstd::prelude::*;

verus! {

/// Default sample rate (Hz).
pub const DEFAULT_SAMPLE_RATE_HZ: u32 = 48_000;

/// Default channel count (stereo).
pub const DEFAULT_CHANNEL_COUNT: u16 = 2;

/// Default number of frames per buffer.
pub const DEFAULT_BUFFER_FRAMES: u32 = 1_024;

/// The format of the audio stream the core asks a platform to open.
#[derive(Clone, Copy, Debug, PartialEq, Eq, Structural)]
pub struct AudioFormat {
    pub sample_rate_hz: u32,
    pub channel_count: u16,
    pub buffer_frames: u32,
}

impl AudioFormat {
    /// Number of interleaved samples in one buffer: frames times channels.
    pub fn buffer_len(&self) -> (r: usize)
        requires
            self.buffer_frames * self.channel_count <= usize::MAX,
        ensures
            r == self.buffer_frames * self.channel_count,
    {
        self.buffer_frames as usize * self.channel_count as usize
    }
}

/// The default format is built from the named defaults only.
impl Default for AudioFormat {
    fn default() -> (r: Self)
        ensures
            r.sample_rate_hz == DEFAULT_SAMPLE_RATE_HZ,
            r.channel_count == DEFAULT_CHANNEL_COUNT,
            r.buffer_frames == DEFAULT_BUFFER_FRAMES,
    {
        AudioFormat {
            sample_rate_hz: DEFAULT_SAMPLE_RATE_HZ,
            channel_count: DEFAULT_CHANNEL_COUNT,
            buffer_frames: DEFAULT_BUFFER_FRAMES,
        }
    }
}

} // verus!
