//! Rate conversion between two integer-related sample rates.
//!
//! Decimation keeps every `ratio`-th sample of a stream, carrying its
//! modulo-`ratio` position across chunk boundaries so that splitting a
//! stream into chunks never shifts which samples are kept.

use vstd::prelude::*;
use vstd::arithmetic::div_mod::{
    lemma_add_mod_noop, lemma_add_mod_noop_right, lemma_div_plus_one, lemma_mod_bound,
    lemma_mod_multiples_basic, lemma_mod_twice, lemma_small_mod,
};
use crate::error::ConfigError;

verus! {

/// The samples of `s` that a decimator with step `ratio` emits when its
/// position counter stands `phase` samples past the last emission point
/// (`phase == 0` means the next sample is emitted).
pub open spec fn decimate_seq<T>(s: Seq<T>, ratio: int, phase: int) -> Seq<T>
    decreases s.len(),
{
    if s.len() == 0 {
        Seq::empty()
    } else {
        let rest = decimate_seq(s.drop_first(), ratio, (phase + 1) % ratio);
        if phase == 0 {
            seq![s[0]] + rest
        } else {
            rest
        }
    }
}

/// The rounded ratio of two rates: `rate_in / rate_out` to the nearest
/// integer, halves rounding up.
pub open spec fn spec_round_ratio(rate_in: int, rate_out: int) -> int {
    (rate_in + rate_out / 2) / rate_out
}

/// A decimator from a higher to a lower sample rate.
///
/// It emits one sample per `ratio` consumed, at the consumed-stream
/// positions `0, ratio, 2*ratio, ...`, and tracks that position across
/// chunks in `phase`.
#[derive(Debug)]
pub struct Decimator {
    /// Number of input samples consumed per output sample.
    pub ratio: usize,
    /// How many samples have been consumed since the last emission point.
    pub phase: usize,
}

impl Decimator {
    /// The state invariant: a positive step, with the position inside it.
    pub open spec fn wf(&self) -> bool {
        1 <= self.ratio && self.phase < self.ratio
    }

    /// Creates a decimator from `rate_in` down to `rate_out`, with the
    /// step rounded to the nearest integer.  A zero output rate, or rates
    /// whose rounded ratio is zero, are a configuration error.
    pub fn new(rate_in: u32, rate_out: u32) -> (r: Result<Decimator, ConfigError>)
        ensures
            rate_out == 0 ==> r == Err::<Decimator, ConfigError>(ConfigError::ZeroAudioRate),
            rate_out > 0 && spec_round_ratio(rate_in as int, rate_out as int) == 0 ==> r
                == Err::<Decimator, ConfigError>(ConfigError::ZeroRatio),
            rate_out > 0 && spec_round_ratio(rate_in as int, rate_out as int) > 0 ==> {
                &&& r is Ok
                &&& r->Ok_0.ratio == spec_round_ratio(rate_in as int, rate_out as int)
                &&& r->Ok_0.phase == 0
                &&& r->Ok_0.wf()
            },
    {
        if rate_out == 0 {
            return Err(ConfigError::ZeroAudioRate);
        }
        let num: u64 = rate_in as u64 + (rate_out as u64) / 2;
        let ratio64: u64 = num / (rate_out as u64);
        proof {
            assert(ratio64 <= u32::MAX) by {
                if rate_out >= 2 {
                    assert(num / (rate_out as u64) <= num / 2) by (nonlinear_arith)
                        requires
                            rate_out >= 2,
                            num >= 0,
                            ratio64 == num / (rate_out as u64),
                    ;
                }
            };
        }
        if ratio64 == 0 {
            return Err(ConfigError::ZeroRatio);
        }
        Ok(Decimator { ratio: ratio64 as usize, phase: 0 })
    }

    /// Consumes one chunk, returning the samples kept from it.  The kept
    /// samples are exactly those at chunk positions congruent to the
    /// current emission point, and the position carries over to the next
    /// chunk.
    pub fn down_sample<T: Copy>(&mut self, input: &Vec<T>) -> (out: Vec<T>)
        requires
            old(self).wf(),
        ensures
            final(self).wf(),
            final(self).ratio == old(self).ratio,
            final(self).phase as int == (old(self).phase + input.len()) % (old(self).ratio as int),
            out@ == decimate_seq(input@, old(self).ratio as int, old(self).phase as int),
    {
        let ghost ratio: int = self.ratio as int;
        let ghost phase0: int = self.phase as int;
        let mut out: Vec<T> = Vec::new();
        let mut i: usize = 0;
        proof {
            lemma_small_mod(phase0 as nat, ratio as nat);
        }
        while i < input.len()
            invariant
                self.ratio == old(self).ratio,
                old(self).wf(),
                self.wf(),
                ratio == old(self).ratio as int,
                phase0 == old(self).phase as int,
                i <= input.len(),
                self.phase as int == (phase0 + i) % ratio,
                out@ == decimate_seq(input@.subrange(0, i as int), ratio, phase0),
            decreases input.len() - i,
        {
            proof {
                lemma_decimate_push(input@.subrange(0, i as int), input@[i as int], ratio, phase0);
                assert(input@.subrange(0, i as int).push(input@[i as int]) =~= input@.subrange(
                    0,
                    i as int + 1,
                ));
            }
            if self.phase == 0 {
                out.push(input[i]);
            }
            proof {
                lemma_step_mod(phase0, i as int, self.phase as int, ratio);
            }
            if self.phase + 1 == self.ratio {
                self.phase = 0;
            } else {
                self.phase = self.phase + 1;
            }
            i = i + 1;
        }
        proof {
            assert(input@.subrange(0, input.len() as int) =~= input@);
        }
        out
    }
}

/// Advancing the consumed count by one advances the position counter by
/// one, wrapping at the step.
proof fn lemma_step_mod(phase0: int, i: int, cur: int, ratio: int)
    requires
        1 <= ratio,
        0 <= i,
        0 <= phase0 < ratio,
        cur == (phase0 + i) % ratio,
    ensures
        (phase0 + i + 1) % ratio == if cur + 1 == ratio {
            0int
        } else {
            cur + 1
        },
{
    lemma_mod_bound(phase0 + i, ratio);
    if ratio == 1 {
        lemma_mod_multiples_basic(phase0 + i + 1, 1);
    } else {
        lemma_add_mod_noop(phase0 + i, 1, ratio);
        lemma_small_mod(1, ratio as nat);
        lemma_mod_twice(phase0 + i, ratio);
        // (phase0 + i + 1) % ratio == (cur + 1) % ratio
        assert((phase0 + i + 1) % ratio == (cur + 1) % ratio) by {
            lemma_add_mod_noop(cur, 1, ratio);
            lemma_small_mod(cur as nat, ratio as nat);
        };
        if cur + 1 == ratio {
            lemma_mod_multiples_basic(1, ratio);
        } else {
            lemma_small_mod((cur + 1) as nat, ratio as nat);
        }
    }
}

/// Chunk boundaries never shift the decimation phase: decimating two
/// chunks in turn, carrying the position between them, keeps exactly
/// the samples that decimating the concatenated stream keeps.
pub proof fn lemma_decimate_concat<T>(s1: Seq<T>, s2: Seq<T>, ratio: int, phase: int)
    requires
        1 <= ratio,
        0 <= phase < ratio,
    ensures
        decimate_seq(s1 + s2, ratio, phase) == decimate_seq(s1, ratio, phase) + decimate_seq(
            s2,
            ratio,
            (phase + s1.len()) % ratio,
        ),
    decreases s2.len(),
{
    lemma_mod_bound(phase + s1.len(), ratio);
    if s2.len() == 0 {
        assert(s1 + s2 =~= s1);
        assert(decimate_seq(s2, ratio, (phase + s1.len()) % ratio) == Seq::<T>::empty());
        assert(decimate_seq(s1, ratio, phase) + Seq::<T>::empty() =~= decimate_seq(
            s1,
            ratio,
            phase,
        ));
    } else {
        let s2f = s2.drop_last();
        let x = s2.last();
        lemma_decimate_concat(s1, s2f, ratio, phase);
        lemma_decimate_push(s1 + s2f, x, ratio, phase);
        assert((s1 + s2f).push(x) =~= s1 + s2);
        let p2 = (phase + s1.len()) % ratio;
        lemma_decimate_push(s2f, x, ratio, p2);
        assert((phase + (s1 + s2f).len()) % ratio == (p2 + s2f.len()) % ratio) by {
            lemma_add_mod_noop_right(p2, s2f.len() as int, ratio);
            lemma_add_mod_noop_right(phase + s1.len(), s2f.len() as int, ratio);
            lemma_add_mod_noop(phase + s1.len(), s2f.len() as int, ratio);
            lemma_mod_twice(phase + s1.len(), ratio);
            lemma_mod_bound(s2f.len() as int, ratio);
            lemma_mod_twice(s2f.len() as int, ratio);
            lemma_add_mod_noop(p2, s2f.len() as int, ratio);
        };
        assert(s2f.push(x) =~= s2);
        let tail = if (p2 + s2f.len()) % ratio == 0 {
            seq![x]
        } else {
            Seq::<T>::empty()
        };
        assert(decimate_seq(s1, ratio, phase) + (decimate_seq(s2f, ratio, p2) + tail) =~= (
        decimate_seq(s1, ratio, phase) + decimate_seq(s2f, ratio, p2)) + tail);
    }
}

/// The position, within the consumed stream, of the first sample a
/// decimation starting `phase` samples past an emission point keeps.
pub open spec fn first_kept(ratio: int, phase: int) -> int {
    if phase == 0 {
        0
    } else {
        ratio - phase
    }
}

/// How many samples decimation keeps out of a chunk of `n`, starting
/// `phase` samples past an emission point.
pub open spec fn decimate_count(n: int, ratio: int, phase: int) -> int {
    if n <= first_kept(ratio, phase) {
        0
    } else {
        (n - first_kept(ratio, phase) - 1) / ratio + 1
    }
}

/// The shape of a decimated chunk: the kept samples are exactly those at
/// the chunk positions `first_kept`, `first_kept + ratio`, and so on.
pub proof fn lemma_decimate_shape<T>(s: Seq<T>, ratio: int, phase: int)
    requires
        1 <= ratio,
        0 <= phase < ratio,
    ensures
        decimate_seq(s, ratio, phase).len() == decimate_count(s.len() as int, ratio, phase),
        forall|k: int|
            0 <= k < decimate_seq(s, ratio, phase).len() ==> decimate_seq(s, ratio, phase)[k] == s[
            first_kept(ratio, phase) + k * ratio],
    decreases s.len(),
{
    let off = first_kept(ratio, phase);
    let d = decimate_seq(s, ratio, phase);
    if s.len() == 0 {
    } else {
        let phase1: int = (phase + 1) % ratio;
        if phase + 1 == ratio {
            lemma_mod_multiples_basic(1, ratio);
        } else {
            lemma_small_mod((phase + 1) as nat, ratio as nat);
        }
        let t = s.drop_first();
        let rest = decimate_seq(t, ratio, phase1);
        lemma_decimate_shape(t, ratio, phase1);
        let off1 = first_kept(ratio, phase1);
        assert(t.len() == s.len() - 1);
        // The tail's first kept position is one closer than this chunk's,
        // except that a kept head restarts the count a full step out.
        if phase == 0 {
            assert(d == seq![s[0]] + rest);
            assert(off == 0);
            if ratio == 1 {
                assert(off1 == 0);
                if t.len() > 0 {
                    vstd::arithmetic::div_mod::lemma_div_multiples_vanish(t.len() - 1, 1);
                }
                vstd::arithmetic::div_mod::lemma_div_multiples_vanish(s.len() - 1, 1);
                assert(d.len() == (s.len() - off - 1) / ratio + 1);
            } else {
                assert(off1 == ratio - 1);
                if s.len() <= ratio {
                    assert(t.len() <= off1);
                    assert(rest.len() == 0);
                    vstd::arithmetic::div_mod::lemma_basic_div(s.len() - 1, ratio);
                    assert(d.len() == (s.len() - off - 1) / ratio + 1);
                } else {
                    assert(rest.len() == (t.len() - off1 - 1) / ratio + 1);
                    assert(t.len() - off1 - 1 == s.len() - 1 - ratio);
                    lemma_div_plus_one(s.len() - 1 - ratio, ratio);
                    assert(d.len() == (s.len() - off - 1) / ratio + 1);
                }
            }
        } else {
            assert(d == rest);
            assert(off1 == off - 1);
            assert(s.len() <= off <==> t.len() <= off1);
            assert(d.len() == if s.len() <= off {
                0int
            } else {
                (s.len() - off - 1) / ratio + 1
            });
        }
        assert forall|k: int| 0 <= k < d.len() implies d[k] == s[off + k * ratio] by {
            if phase == 0 && k == 0 {
                assert(d[0] == s[0]);
            } else {
                let (j, m): (int, int) = if phase == 0 {
                    (k - 1, off1 + (k - 1) * ratio)
                } else {
                    (k, off1 + k * ratio)
                };
                assert(0 <= j < rest.len());
                assert(d[k] == rest[j]);
                assert(rest[j] == t[m]);
                // m stays inside the tail: j * ratio steps past the first
                // kept position cannot pass the last kept one.
                assert(j * ratio <= (rest.len() - 1) * ratio) by (nonlinear_arith)
                    requires
                        ratio >= 1,
                        j <= rest.len() - 1,
                ;
                assert(t.len() > off1);
                assert((rest.len() - 1) * ratio == ((t.len() - off1 - 1) / ratio) * ratio);
                assert(((t.len() - off1 - 1) / ratio) * ratio <= t.len() - off1 - 1) by {
                    vstd::arithmetic::div_mod::lemma_fundamental_div_mod(
                        t.len() - off1 - 1,
                        ratio,
                    );
                    lemma_mod_bound(t.len() - off1 - 1, ratio);
                    vstd::arithmetic::mul::lemma_mul_is_commutative(
                        ratio,
                        (t.len() - off1 - 1) / ratio,
                    );
                };
                assert(0 <= m < t.len());
                assert(t[m] == s[m + 1]);
                assert(m + 1 == off + k * ratio) by (nonlinear_arith)
                    requires
                        (phase == 0 ==> off == 0 && off1 == ratio - 1 && m == off1 + (k - 1)
                            * ratio),
                        (phase != 0 ==> off1 == off - 1 && m == off1 + k * ratio),
                ;
            }
        };
    }
}

/// Decimation of a chunk that starts on an emission point keeps exactly
/// the samples at positions `0, ratio, 2*ratio, ...`.
pub proof fn lemma_decimate_selects_multiples<T>(s: Seq<T>, ratio: int)
    requires
        1 <= ratio,
    ensures
        decimate_seq(s, ratio, 0).len() == (s.len() + ratio - 1) / ratio,
        forall|k: int|
            0 <= k < decimate_seq(s, ratio, 0).len() ==> decimate_seq(s, ratio, 0)[k] == s[k
                * ratio],
{
    lemma_decimate_shape(s, ratio, 0);
    if s.len() == 0 {
        vstd::arithmetic::div_mod::lemma_basic_div(ratio - 1, ratio);
    } else {
        lemma_div_plus_one(s.len() - 1, ratio);
    }
}

/// For a whole number of groups, the number of kept samples is exactly
/// the input length divided by the ratio.
pub proof fn lemma_decimation_length_exact<T>(s: Seq<T>, ratio: int)
    requires
        1 <= ratio,
        s.len() as int % ratio == 0,
    ensures
        decimate_seq(s, ratio, 0).len() == s.len() as int / ratio,
{
    lemma_decimate_selects_multiples(s, ratio);
    let q: int = s.len() as int / ratio;
    vstd::arithmetic::div_mod::lemma_fundamental_div_mod(s.len() as int, ratio);
    assert(s.len() == ratio * q);
    vstd::arithmetic::div_mod::lemma_div_multiples_vanish_fancy(q, ratio - 1, ratio);
    assert((ratio * q + (ratio - 1)) / ratio == q);
}

/// Appending one sample to a chunk appends its decimated image: the
/// sample is kept exactly when it falls on an emission point.
proof fn lemma_decimate_push<T>(s: Seq<T>, x: T, ratio: int, phase: int)
    requires
        1 <= ratio,
        0 <= phase < ratio,
    ensures
        decimate_seq(s.push(x), ratio, phase) == decimate_seq(s, ratio, phase) + (if (phase
            + s.len()) % ratio == 0 {
            seq![x]
        } else {
            Seq::<T>::empty()
        }),
    decreases s.len(),
{
    lemma_small_mod(phase as nat, ratio as nat);
    if s.len() == 0 {
        assert(s.push(x).drop_first() =~= Seq::<T>::empty());
        assert(decimate_seq(s.push(x).drop_first(), ratio, (phase + 1) % ratio)
            == Seq::<T>::empty());
        if phase == 0 {
            assert(decimate_seq(s.push(x), ratio, phase) =~= seq![x]);
            assert(decimate_seq(s, ratio, phase) + seq![x] =~= seq![x]);
        } else {
            assert(decimate_seq(s.push(x), ratio, phase) =~= Seq::<T>::empty());
            assert(decimate_seq(s, ratio, phase) + Seq::<T>::empty() =~= Seq::<T>::empty());
        }
    } else {
        let phase1: int = (phase + 1) % ratio;
        lemma_mod_bound(phase + 1, ratio);
        lemma_decimate_push(s.drop_first(), x, ratio, phase1);
        assert(s.push(x).drop_first() =~= s.drop_first().push(x));
        assert((phase1 + (s.len() - 1)) % ratio == (phase + s.len()) % ratio) by {
            lemma_add_mod_noop_right(phase1, s.len() - 1, ratio);
            lemma_add_mod_noop_right(phase + 1, s.len() - 1, ratio);
            lemma_add_mod_noop(phase + 1, (s.len() - 1) % ratio, ratio);
            lemma_mod_twice(phase + 1, ratio);
            lemma_mod_bound(s.len() - 1, ratio);
            lemma_mod_twice(s.len() - 1, ratio);
        };
        let cond = if (phase + s.len()) % ratio == 0 {
            seq![x]
        } else {
            Seq::<T>::empty()
        };
        if phase == 0 {
            assert(decimate_seq(s.push(x), ratio, phase) == seq![s[0]] + decimate_seq(
                s.drop_first().push(x),
                ratio,
                phase1,
            ));
            assert(seq![s[0]] + (decimate_seq(s.drop_first(), ratio, phase1) + cond) =~= (
            seq![s[0]] + decimate_seq(s.drop_first(), ratio, phase1)) + cond);
        }
    }
}

} // verus!
