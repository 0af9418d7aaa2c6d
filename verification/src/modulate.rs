//! The modulator's control state: audio cursor, interpolation window,
//! rate ratio and progress accounting.
//!
//! Per requested RF sample the modulator linearly interpolates between
//! the two most recently read audio samples, scales by the deviation
//! bandwidth, integrates phase and emits a unit phasor.  The
//! floating-point part of that (interpolation, phase, phasor) belongs to
//! the caller; this struct decides and guarantees everything discrete:
//! when the window advances, which sub-sample fraction each RF sample
//! uses, that an exhausted source turns into silence, and that reported
//! progress never runs backwards or past completion.

use vstd::prelude::*;
use vstd::arithmetic::div_mod::{lemma_div_is_ordered, lemma_div_pos_is_pos};
use crate::error::ConfigError;

verus! {

/// How far the modulator has come, as an exact fraction: `num` audio
/// samples' worth of RF output emitted, of `den` total.
pub open spec fn spec_progress_num(index: u64, rf_rate: u32, audio_rate: u32, total: u32) -> int {
    if (index as int / rf_rate as int) * audio_rate as int >= total as int {
        total as int
    } else {
        (index as int / rf_rate as int) * audio_rate as int
    }
}

/// A frequency modulator's discrete state.
///
/// The type parameter is the audio sample representation; the modulator
/// never computes with samples, it only moves them through the
/// two-sample interpolation window.
#[derive(Debug)]
pub struct Modulator<T> {
    /// RF output sample rate in Hz.
    pub rf_rate: u32,
    /// Audio source sample rate in Hz.
    pub audio_rate: u32,
    /// Total number of audio samples the source will deliver.
    pub total_samples: u32,
    /// Deviation bandwidth in Hz per unit amplitude.
    pub bandwidth: u32,
    /// RF samples emitted per audio sample: `rf_rate / audio_rate`.
    pub ratio: u64,
    /// Number of RF samples emitted so far.
    pub index: u64,
    /// The older sample of the interpolation window.
    pub current: T,
    /// The newer sample of the interpolation window.
    pub next: T,
    /// The silence sample substituted once the source is exhausted.
    pub silence: T,
    /// Whether the source has reported its end.
    pub exhausted: bool,
}

impl<T: Copy> Modulator<T> {
    /// The configuration invariant established at construction.
    pub open spec fn wf(&self) -> bool {
        &&& self.audio_rate >= 1
        &&& self.rf_rate >= self.audio_rate
        &&& self.bandwidth >= 1
        &&& self.ratio == self.rf_rate as int / self.audio_rate as int
        &&& self.ratio >= 1
    }

    /// Creates a modulator for a source of `total_samples` samples at
    /// `audio_rate`, emitting RF samples at `rf_rate` with the given
    /// deviation bandwidth.  `silence` is the sample value substituted
    /// once the source runs out.  Construction fails fast on a zero
    /// audio rate, an RF rate below the audio rate, or a zero
    /// bandwidth; it never silently truncates or inverts the ratio.
    pub fn new(rf_rate: u32, audio_rate: u32, total_samples: u32, bandwidth: u32, silence: T) -> (r:
        Result<Modulator<T>, ConfigError>)
        ensures
            audio_rate == 0 ==> r == Err::<Modulator<T>, ConfigError>(ConfigError::ZeroAudioRate),
            audio_rate > 0 && rf_rate < audio_rate ==> r == Err::<Modulator<T>, ConfigError>(
                ConfigError::RateBelowAudio,
            ),
            audio_rate > 0 && rf_rate >= audio_rate && bandwidth == 0 ==> r == Err::<
                Modulator<T>,
                ConfigError,
            >(ConfigError::ZeroBandwidth),
            audio_rate > 0 && rf_rate >= audio_rate && bandwidth > 0 ==> {
                &&& r is Ok
                &&& r->Ok_0.wf()
                &&& r->Ok_0.rf_rate == rf_rate
                &&& r->Ok_0.audio_rate == audio_rate
                &&& r->Ok_0.total_samples == total_samples
                &&& r->Ok_0.bandwidth == bandwidth
                &&& r->Ok_0.index == 0
                &&& r->Ok_0.current == silence
                &&& r->Ok_0.next == silence
                &&& r->Ok_0.silence == silence
                &&& !r->Ok_0.exhausted
            },
    {
        if audio_rate == 0 {
            return Err(ConfigError::ZeroAudioRate);
        }
        if rf_rate < audio_rate {
            return Err(ConfigError::RateBelowAudio);
        }
        if bandwidth == 0 {
            return Err(ConfigError::ZeroBandwidth);
        }
        let ratio: u64 = (rf_rate / audio_rate) as u64;
        proof {
            lemma_div_pos_is_pos(rf_rate as int, audio_rate as int);
            assert(rf_rate as int / audio_rate as int >= 1) by {
                lemma_div_is_ordered(audio_rate as int, rf_rate as int, audio_rate as int);
                vstd::arithmetic::div_mod::lemma_div_by_self(audio_rate as int);
            };
        }
        Ok(
            Modulator {
                rf_rate,
                audio_rate,
                total_samples,
                bandwidth,
                ratio,
                index: 0,
                current: silence,
                next: silence,
                silence,
                exhausted: false,
            },
        )
    }

    /// Whether the interpolation window must take in a new audio sample
    /// before the next RF sample is emitted.
    pub fn needs_refill(&self) -> (r: bool)
        requires
            self.wf(),
        ensures
            r == (self.index as int % self.ratio as int == 0),
    {
        self.index % self.ratio == 0
    }

    /// Slides the interpolation window: the newer sample becomes the
    /// older one, and the freshly read sample (or silence, if the source
    /// is exhausted) becomes the newer one.  Once the source has ended
    /// and the last real sample has left the window, the window is all
    /// silence and stays that way: the tail of a transmission is a
    /// constant, zero-deviation carrier.
    pub fn refill(&mut self, fetched: Option<T>)
        requires
            old(self).wf(),
        ensures
            final(self).wf(),
            final(self).current == old(self).next,
            fetched matches Some(v) ==> final(self).next == v,
            fetched is None ==> final(self).next == old(self).silence,
            final(self).exhausted == (old(self).exhausted || fetched is None),
            final(self).rf_rate == old(self).rf_rate,
            final(self).audio_rate == old(self).audio_rate,
            final(self).total_samples == old(self).total_samples,
            final(self).bandwidth == old(self).bandwidth,
            final(self).ratio == old(self).ratio,
            final(self).index == old(self).index,
            final(self).silence == old(self).silence,
            old(self).next == old(self).silence && fetched is None ==> final(self).current
                == final(self).silence && final(self).next == final(self).silence,
    {
        self.current = self.next;
        match fetched {
            Some(v) => {
                self.next = v;
            },
            None => {
                self.next = self.silence;
                self.exhausted = true;
            },
        }
    }

    /// Hands out everything the caller's floating-point kernel needs for
    /// one RF sample: the interpolation window and the sub-sample
    /// position `index % ratio` (the interpolation fraction is that
    /// position over the ratio), then advances the sample index.
    pub fn emit(&mut self) -> (r: (T, T, u64))
        requires
            old(self).wf(),
            old(self).index < u64::MAX,
        ensures
            final(self).wf(),
            r.0 == old(self).current,
            r.1 == old(self).next,
            r.2 as int == old(self).index as int % old(self).ratio as int,
            final(self).index == old(self).index + 1,
            final(self).current == old(self).current,
            final(self).next == old(self).next,
            final(self).silence == old(self).silence,
            final(self).exhausted == old(self).exhausted,
            final(self).rf_rate == old(self).rf_rate,
            final(self).audio_rate == old(self).audio_rate,
            final(self).total_samples == old(self).total_samples,
            final(self).bandwidth == old(self).bandwidth,
            final(self).ratio == old(self).ratio,
    {
        let frac: u64 = self.index % self.ratio;
        self.index = self.index + 1;
        (self.current, self.next, frac)
    }

    /// How much of the audio source has been modulated, as the exact
    /// fraction `r.0 / r.1`, monotonically non-decreasing and never
    /// above one.  An empty source counts as already complete.
    pub fn progress(&self) -> (r: (u64, u64))
        requires
            self.wf(),
        ensures
            self.total_samples == 0 ==> r == (1u64, 1u64),
            self.total_samples > 0 ==> r.0 == spec_progress_num(
                self.index,
                self.rf_rate,
                self.audio_rate,
                self.total_samples,
            ) && r.1 == self.total_samples,
            r.0 <= r.1,
            r.1 >= 1,
    {
        if self.total_samples == 0 {
            return (1, 1);
        }
        let secs: u64 = self.index / (self.rf_rate as u64);
        proof {
            assert(secs as int * self.audio_rate as int <= u64::MAX * u32::MAX)
                by (nonlinear_arith)
                requires
                    0 <= secs <= u64::MAX,
                    0 <= self.audio_rate <= u32::MAX,
            ;
        }
        let emitted: u128 = (secs as u128) * (self.audio_rate as u128);
        if emitted >= self.total_samples as u128 {
            (self.total_samples as u64, self.total_samples as u64)
        } else {
            (emitted as u64, self.total_samples as u64)
        }
    }
}

/// The normalization scale for integer audio samples of a given bit
/// width: integer samples are divided by `2^(bits-1)` to reach the
/// floating range of minus one to one.
pub fn int_sample_scale(bits: u16) -> (r: u32)
    requires
        1 <= bits <= 32,
    ensures
        r == 1u32 << ((bits - 1) as u32),
{
    1u32 << ((bits as u32) - 1)
}

/// Progress never runs backwards: emitting more RF samples can only
/// increase the reported fraction, and it never passes completion.
pub proof fn lemma_progress_monotonic(i1: u64, i2: u64, rf_rate: u32, audio_rate: u32, total: u32)
    requires
        rf_rate >= 1,
        i1 <= i2,
    ensures
        spec_progress_num(i1, rf_rate, audio_rate, total) <= spec_progress_num(
            i2,
            rf_rate,
            audio_rate,
            total,
        ),
        spec_progress_num(i2, rf_rate, audio_rate, total) <= total,
{
    lemma_div_is_ordered(i1 as int, i2 as int, rf_rate as int);
    assert((i1 as int / rf_rate as int) * audio_rate as int <= (i2 as int / rf_rate as int)
        * audio_rate as int) by (nonlinear_arith)
        requires
            i1 as int / rf_rate as int <= i2 as int / rf_rate as int,
            audio_rate >= 0,
    ;
}

} // verus!
