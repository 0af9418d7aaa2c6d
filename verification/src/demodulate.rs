//! FM demodulation: raw IQ chunks in, audio samples out.
//!
//! Per delivered chunk the pipeline is: prepend the previous chunk's
//! final raw sample (a zero sample before the very first chunk), mix by
//! the tuning offset, low-pass at the IF cutoff, discriminate each
//! adjacent pair, low-pass at the audio cutoff, decimate to the audio
//! rate, and remove the DC bias of the samples produced in this call.
//! Every stage's floating-point kernel is a closure supplied by the
//! caller; the composition, the carried state (discriminator
//! predecessor, filter histories, decimation position, mixer index) and
//! the exact shape of the data flow are verified here.

use vstd::prelude::*;
use crate::error::ConfigError;
use crate::lowpass::{lowpass_chain, LowPass};
use crate::mixer::Mixer;
use crate::rate::{decimate_count, decimate_seq, lemma_decimate_shape, spec_round_ratio, Decimator};

verus! {

/// One full pass of a frame through the demodulation chain, stage by
/// stage: `mixed` is the frame mixed sample-by-sample at consecutive
/// absolute indices from `start_index`; `lp1` low-pass filters it from
/// state `lp_iq0`, ending in state `lp_iq1`; `di` discriminates each
/// adjacent pair of `lp1`; `lp2` low-pass filters that from state
/// `lp_audio0`, ending in `lp_audio1`; the decimation of `lp2` is summed
/// into `sums`, its mean `dc` is taken over its length, and `out` is the
/// decimation with `dc` subtracted from every sample.
pub open spec fn demod_trace<
    C,
    A,
    FMix: Fn(C, u64) -> C,
    FIq: Fn(C, C) -> C,
    FDisc: Fn(C, C) -> A,
    FAud: Fn(A, A) -> A,
    FAdd: Fn(A, A) -> A,
    FDiv: Fn(A, usize) -> A,
    FSub: Fn(A, A) -> A,
>(
    mix: FMix,
    blend_iq: FIq,
    disc: FDisc,
    blend_audio: FAud,
    add_audio: FAdd,
    div_len: FDiv,
    sub_dc: FSub,
    frame: Seq<C>,
    start_index: int,
    lp_iq0: Option<C>,
    lp_audio0: Option<A>,
    ratio: int,
    phase: int,
    mixed: Seq<C>,
    lp1: Seq<C>,
    di: Seq<A>,
    lp2: Seq<A>,
    sums: Seq<A>,
    dc: Option<A>,
    out: Seq<A>,
    lp_iq1: Option<C>,
    lp_audio1: Option<A>,
) -> bool {
    let dec = decimate_seq(lp2, ratio, phase);
    &&& mixed.len() == frame.len()
    &&& (forall|i: int|
        0 <= i < frame.len() ==> call_ensures(
            mix,
            (frame[i], (start_index + i) as u64),
            #[trigger] mixed[i],
        ))
    &&& lowpass_chain(lp_iq0, mixed, blend_iq, lp1)
    &&& lp_iq1 == (if frame.len() > 0 {
        Some(lp1[frame.len() - 1])
    } else {
        lp_iq0
    })
    &&& di.len() == (if frame.len() > 0 {
        frame.len() - 1
    } else {
        0
    })
    &&& (forall|i: int|
        0 <= i < di.len() ==> call_ensures(disc, (lp1[i], lp1[i + 1]), #[trigger] di[i]))
    &&& lowpass_chain(lp_audio0, di, blend_audio, lp2)
    &&& lp_audio1 == (if di.len() > 0 {
        Some(lp2[di.len() - 1])
    } else {
        lp_audio0
    })
    &&& sums.len() == dec.len()
    &&& (dec.len() > 0 ==> sums[0] == dec[0])
    &&& (forall|i: int|
        1 <= i < dec.len() ==> call_ensures(add_audio, (sums[i - 1], dec[i]), #[trigger] sums[i]))
    &&& (dec.len() == 0 ==> dc is None)
    &&& (dec.len() > 0 ==> (dc matches Some(m) && call_ensures(
        div_len,
        (sums[dec.len() - 1], dec.len() as usize),
        m,
    )))
    &&& out.len() == dec.len()
    &&& (forall|k: int|
        0 <= k < dec.len() ==> (dc matches Some(m) && call_ensures(
            sub_dc,
            (dec[k], m),
            #[trigger] out[k],
        )))
}

/// An FM demodulator's persistent state, carried across chunks so the
/// output stream is continuous as if demodulated in one pass.
#[derive(Debug)]
pub struct Demodulator<C, A> {
    /// The raw IQ chunk to demodulate, installed by `replace`.
    pub iq: Vec<C>,
    /// The final raw sample of the previous chunk, prepended to the next
    /// frame so the discriminator's one-sample lag has a predecessor.
    pub carry: C,
    /// The zero sample used as predecessor before the first chunk.
    pub zero: C,
    /// The IF cutoff frequency in Hz, for the caller's filter kernel.
    pub iq_cutoff: u32,
    /// The audio cutoff frequency in Hz, for the caller's filter kernel.
    pub audio_cutoff: u32,
    /// The tuning-offset mixer and its running sample index.
    pub mixer: Mixer,
    /// The IF low-pass filter state.
    pub lp_iq: LowPass<C>,
    /// The audio low-pass filter state.
    pub lp_audio: LowPass<A>,
    /// The decimator from the RF rate down to the audio rate.
    pub decimator: Decimator,
}

impl<C: Copy, A: Copy> Demodulator<C, A> {
    /// The configuration invariant established at construction.
    pub open spec fn wf(&self) -> bool {
        &&& self.mixer.wf()
        &&& self.decimator.wf()
        &&& self.iq_cutoff >= 1
        &&& self.audio_cutoff >= 1
    }

    /// Creates a demodulator: a mixer shifting by `offset_hz` at
    /// `rf_rate`, filter cutoffs for the caller's kernels, and a
    /// decimator from `rf_rate` down to `audio_rate`.  A zero rate or
    /// cutoff, or a rate pair whose rounded ratio is zero, is a
    /// configuration error.
    pub fn new(
        zero: C,
        offset_hz: i64,
        rf_rate: u32,
        iq_cutoff: u32,
        audio_cutoff: u32,
        audio_rate: u32,
    ) -> (r: Result<Demodulator<C, A>, ConfigError>)
        ensures
            rf_rate == 0 ==> r == Err::<Demodulator<C, A>, ConfigError>(ConfigError::ZeroCutoff),
            rf_rate > 0 && (iq_cutoff == 0 || audio_cutoff == 0) ==> r == Err::<
                Demodulator<C, A>,
                ConfigError,
            >(ConfigError::ZeroCutoff),
            rf_rate > 0 && iq_cutoff > 0 && audio_cutoff > 0 && audio_rate == 0 ==> r == Err::<
                Demodulator<C, A>,
                ConfigError,
            >(ConfigError::ZeroAudioRate),
            rf_rate > 0 && iq_cutoff > 0 && audio_cutoff > 0 && audio_rate > 0 && spec_round_ratio(
                rf_rate as int,
                audio_rate as int,
            ) == 0 ==> r == Err::<Demodulator<C, A>, ConfigError>(ConfigError::ZeroRatio),
            rf_rate > 0 && iq_cutoff > 0 && audio_cutoff > 0 && audio_rate > 0 && spec_round_ratio(
                rf_rate as int,
                audio_rate as int,
            ) > 0 ==> {
                &&& r is Ok
                &&& r->Ok_0.wf()
                &&& r->Ok_0.iq@ == Seq::<C>::empty()
                &&& r->Ok_0.carry == zero
                &&& r->Ok_0.zero == zero
                &&& r->Ok_0.iq_cutoff == iq_cutoff
                &&& r->Ok_0.audio_cutoff == audio_cutoff
                &&& r->Ok_0.mixer.offset_hz == offset_hz
                &&& r->Ok_0.mixer.sample_rate == rf_rate
                &&& r->Ok_0.mixer.index == 0
                &&& r->Ok_0.lp_iq.state is None
                &&& r->Ok_0.lp_audio.state is None
                &&& r->Ok_0.decimator.ratio == spec_round_ratio(rf_rate as int, audio_rate as int)
                &&& r->Ok_0.decimator.phase == 0
            },
    {
        let mixer = match Mixer::new(offset_hz, rf_rate) {
            Ok(m) => m,
            Err(e) => {
                return Err(e);
            },
        };
        if iq_cutoff == 0 || audio_cutoff == 0 {
            return Err(ConfigError::ZeroCutoff);
        }
        let decimator = match Decimator::new(rf_rate, audio_rate) {
            Ok(d) => d,
            Err(e) => {
                return Err(e);
            },
        };
        Ok(
            Demodulator {
                iq: Vec::new(),
                carry: zero,
                zero,
                iq_cutoff,
                audio_cutoff,
                mixer,
                lp_iq: LowPass::new(),
                lp_audio: LowPass::new(),
                decimator,
            },
        )
    }

    /// Installs the next raw IQ chunk, replacing the previous one.
    pub fn replace(&mut self, data: Vec<C>)
        ensures
            final(self).iq == data,
            final(self).carry == old(self).carry,
            final(self).zero == old(self).zero,
            final(self).iq_cutoff == old(self).iq_cutoff,
            final(self).audio_cutoff == old(self).audio_cutoff,
            final(self).mixer == old(self).mixer,
            final(self).lp_iq == old(self).lp_iq,
            final(self).lp_audio == old(self).lp_audio,
            final(self).decimator == old(self).decimator,
    {
        self.iq = data;
    }

    /// Demodulates the installed chunk into audio samples, applying the
    /// caller's floating-point kernels: `mix(sample, index)` for the
    /// tuning offset, `blend_iq` and `blend_audio` for the two low-pass
    /// filters, `disc(a, b)` for the discriminator on each adjacent
    /// pair, and `add_audio`, `div_len`, `sub_dc` for the per-call DC
    /// bias removal (sum, divide by the count, subtract the mean).
    /// Returns the audio samples, the DC offset that was subtracted (if
    /// any samples were produced), and a ghost record of every
    /// intermediate stage; the contract pins the whole chain down
    /// against that record through `demod_trace`.
    pub fn audio<
        FMix: Fn(C, u64) -> C,
        FIq: Fn(C, C) -> C,
        FDisc: Fn(C, C) -> A,
        FAud: Fn(A, A) -> A,
        FAdd: Fn(A, A) -> A,
        FDiv: Fn(A, usize) -> A,
        FSub: Fn(A, A) -> A,
    >(
        &mut self,
        mix: FMix,
        blend_iq: FIq,
        disc: FDisc,
        blend_audio: FAud,
        add_audio: FAdd,
        div_len: FDiv,
        sub_dc: FSub,
    ) -> (r: (Vec<A>, Option<A>, Ghost<(Seq<C>, Seq<C>, Seq<A>, Seq<A>, Seq<A>)>))
        requires
            old(self).wf(),
            old(self).mixer.index + old(self).iq.len() + 1 <= u64::MAX,
            forall|x: C, n: u64| #[trigger] call_requires(mix, (x, n)),
            forall|y: C, x: C| #[trigger] call_requires(blend_iq, (y, x)),
            forall|a: C, b: C| #[trigger] call_requires(disc, (a, b)),
            forall|y: A, x: A| #[trigger] call_requires(blend_audio, (y, x)),
            forall|y: A, x: A| #[trigger] call_requires(add_audio, (y, x)),
            forall|a: A, n: usize| n >= 1 ==> #[trigger] call_requires(div_len, (a, n)),
            forall|a: A, m: A| #[trigger] call_requires(sub_dc, (a, m)),
        ensures
            final(self).wf(),
            final(self).iq == old(self).iq,
            final(self).zero == old(self).zero,
            final(self).iq_cutoff == old(self).iq_cutoff,
            final(self).audio_cutoff == old(self).audio_cutoff,
            final(self).carry == (if old(self).iq.len() > 0 {
                old(self).iq[old(self).iq.len() - 1]
            } else {
                old(self).carry
            }),
            final(self).mixer.offset_hz == old(self).mixer.offset_hz,
            final(self).mixer.sample_rate == old(self).mixer.sample_rate,
            final(self).mixer.index == old(self).mixer.index + old(self).iq.len() + 1,
            final(self).decimator.ratio == old(self).decimator.ratio,
            final(self).decimator.phase as int == (old(self).decimator.phase + old(self).iq.len())
                % (old(self).decimator.ratio as int),
            r.0.len() == decimate_count(
                old(self).iq.len() as int,
                old(self).decimator.ratio as int,
                old(self).decimator.phase as int,
            ),
            demod_trace(
                mix,
                blend_iq,
                disc,
                blend_audio,
                add_audio,
                div_len,
                sub_dc,
                seq![old(self).carry] + old(self).iq@,
                old(self).mixer.index as int,
                old(self).lp_iq.state,
                old(self).lp_audio.state,
                old(self).decimator.ratio as int,
                old(self).decimator.phase as int,
                r.2@.0,
                r.2@.1,
                r.2@.2,
                r.2@.3,
                r.2@.4,
                r.1,
                r.0@,
                final(self).lp_iq.state,
                final(self).lp_audio.state,
            ),
    {
        let ghost ratio: int = self.decimator.ratio as int;
        let ghost phase0: int = self.decimator.phase as int;
        let n: usize = self.iq.len();

        // Stage 1: frame the chunk behind the carried predecessor.
        let mut frame: Vec<C> = Vec::new();
        frame.push(self.carry);
        let mut i: usize = 0;
        while i < n
            invariant
                n == self.iq.len(),
                i <= n,
                self == old(self),
                frame@ == seq![old(self).carry] + self.iq@.subrange(0, i as int),
            decreases n - i,
        {
            frame.push(self.iq[i]);
            i = i + 1;
        }
        proof {
            assert(self.iq@.subrange(0, n as int) =~= self.iq@);
        }
        if n > 0 {
            self.carry = self.iq[n - 1];
        }

        // Stage 2: mix at consecutive absolute indices.
        let start: u64 = self.mixer.advance(frame.len());
        let mut mixed: Vec<C> = Vec::new();
        i = 0;
        while i < frame.len()
            invariant
                i <= frame.len(),
                start + frame.len() <= u64::MAX,
                mixed.len() == i,
                forall|j: int|
                    0 <= j < i ==> call_ensures(
                        mix,
                        (frame@[j], (start + j) as u64),
                        #[trigger] mixed@[j],
                    ),
                forall|x: C, m: u64| #[trigger] call_requires(mix, (x, m)),
            decreases frame.len() - i,
        {
            mixed.push(mix(frame[i], start + i as u64));
            i = i + 1;
        }

        // Stage 3: IF low-pass.
        let lp1 = self.lp_iq.filter_chunk(&mixed, blend_iq);

        // Stage 4: discriminate each adjacent pair.
        let mut di: Vec<A> = Vec::new();
        i = 1;
        while i < lp1.len()
            invariant
                1 <= i,
                lp1.len() > 0 ==> i <= lp1.len(),
                lp1.len() == 0 ==> i == 1,
                di.len() == i - 1,
                forall|j: int|
                    0 <= j < i - 1 ==> call_ensures(disc, (lp1@[j], lp1@[j + 1]), #[trigger] di@[j]),
                forall|a: C, b: C| #[trigger] call_requires(disc, (a, b)),
            decreases lp1.len() - i,
        {
            di.push(disc(lp1[i - 1], lp1[i]));
            i = i + 1;
        }

        // Stage 5: audio low-pass.
        let lp2 = self.lp_audio.filter_chunk(&di, blend_audio);

        // Stage 6: decimate to the audio rate.
        let dec = self.decimator.down_sample(&lp2);
        proof {
            lemma_decimate_shape(lp2@, ratio, phase0);
        }

        // Stage 7: remove the DC bias of this call's output.
        if dec.len() == 0 {
            return (dec, None, Ghost((mixed@, lp1@, di@, lp2@, Seq::<A>::empty())));
        }
        let mut sum = dec[0];
        let mut sums: Vec<A> = Vec::new();
        sums.push(sum);
        i = 1;
        while i < dec.len()
            invariant
                1 <= i <= dec.len(),
                sums.len() == i,
                sums@[0] == dec@[0],
                sum == sums@[i - 1],
                forall|j: int|
                    1 <= j < i ==> call_ensures(add_audio, (sums@[j - 1], dec@[j]), #[trigger] sums@[j]),
                forall|y: A, x: A| #[trigger] call_requires(add_audio, (y, x)),
            decreases dec.len() - i,
        {
            sum = add_audio(sum, dec[i]);
            sums.push(sum);
            i = i + 1;
        }
        let m = div_len(sum, dec.len());
        let mut out: Vec<A> = Vec::new();
        i = 0;
        while i < dec.len()
            invariant
                i <= dec.len(),
                out.len() == i,
                forall|k: int| 0 <= k < i ==> call_ensures(sub_dc, (dec@[k], m), #[trigger] out@[k]),
                forall|a: A, b: A| #[trigger] call_requires(sub_dc, (a, b)),
            decreases dec.len() - i,
        {
            out.push(sub_dc(dec[i], m));
            i = i + 1;
        }
        (out, Some(m), Ghost((mixed@, lp1@, di@, lp2@, sums@)))
    }
}

} // verus!
