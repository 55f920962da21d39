//! The silent output sink.
use vstd::prelude::*;

verus! {

/// A sink that discards samples, for headless playback and automation.
#[derive(Debug, Clone, Copy, PartialEq, Eq, Structural)]
pub struct NullSink {
    sample_rate: u32,
    channels: u8,
}

impl NullSink {
    pub closed spec fn spec_sample_rate(&self) -> u32 {
        self.sample_rate
    }

    pub closed spec fn spec_channels(&self) -> u8 {
        self.channels
    }

    pub fn new(sample_rate: u32, channels: u8) -> (r: Self)
        ensures
            r.spec_sample_rate() == sample_rate,
            r.spec_channels() == channels,
    {
        NullSink { sample_rate, channels }
    }

    pub fn sample_rate(&self) -> (r: u32)
        ensures
            r == self.spec_sample_rate(),
    {
        self.sample_rate
    }

    pub fn channels(&self) -> (r: u8)
        ensures
            r == self.spec_channels(),
    {
        self.channels
    }
}

} // verus!
