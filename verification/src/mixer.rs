//! Frequency mixing: shifting a complex stream's center frequency.
//!
//! The mixer multiplies sample `n` by a unit phasor whose angle is
//! `2*pi*offset_hz*n/sample_rate`, computed from the absolute sample
//! index rather than by accumulating increments, so long-run phase drift
//! stays bounded.  The only state is that index: a monotonically
//! increasing counter that this struct owns and hands out per chunk.
//! The phasor arithmetic itself is the caller's floating-point kernel;
//! what is verified here is the bookkeeping of the index.

use vstd::prelude::*;
use crate::error::ConfigError;

verus! {

/// The running index of a mixer: which absolute sample number the next
/// chunk starts at.
#[derive(Debug)]
pub struct Mixer {
    /// Frequency shift in Hz; negative shifts tune downwards.
    pub offset_hz: i64,
    /// Sample rate of the stream being mixed, in Hz.
    pub sample_rate: u32,
    /// Absolute index of the next sample to be mixed.
    pub index: u64,
}

impl Mixer {
    /// A mixer needs a positive sample rate for its phase to be defined.
    pub open spec fn wf(&self) -> bool {
        self.sample_rate >= 1
    }

    /// Creates a mixer for a stream at `sample_rate`, shifting it by
    /// `offset_hz`.  A zero sample rate is a configuration error.
    pub fn new(offset_hz: i64, sample_rate: u32) -> (r: Result<Mixer, ConfigError>)
        ensures
            sample_rate == 0 ==> r == Err::<Mixer, ConfigError>(ConfigError::ZeroCutoff),
            sample_rate > 0 ==> {
                &&& r is Ok
                &&& r->Ok_0.offset_hz == offset_hz
                &&& r->Ok_0.sample_rate == sample_rate
                &&& r->Ok_0.index == 0
                &&& r->Ok_0.wf()
            },
    {
        if sample_rate == 0 {
            return Err(ConfigError::ZeroCutoff);
        }
        Ok(Mixer { offset_hz, sample_rate, index: 0 })
    }

    /// Claims the next `count` absolute sample indices for one chunk,
    /// returning the first of them.  The counter only ever moves
    /// forwards, so resuming at a chunk boundary never replays or skips
    /// an index.
    pub fn advance(&mut self, count: usize) -> (start: u64)
        requires
            old(self).index + count <= u64::MAX,
        ensures
            start == old(self).index,
            final(self).index == old(self).index + count,
            final(self).offset_hz == old(self).offset_hz,
            final(self).sample_rate == old(self).sample_rate,
    {
        let start: u64 = self.index;
        self.index = self.index + count as u64;
        start
    }
}

} // verus!
