//! Single-pole low-pass filtering: the recurrence
//! `y[n] = blend(y[n-1], x[n])`, with the previous output retained
//! across chunk boundaries.
//!
//! The blending kernel (`alpha * x + (1 - alpha) * y` on floating-point
//! samples) is supplied by the caller as a closure.  Verified here is
//! everything else the filter promises: the state is seeded from the
//! first sample ever seen (so there is no startup transient from an
//! assumed zero state), every later output is one application of the
//! kernel to the previous output and the current input, and the last
//! output of a chunk is carried into the next chunk.

use vstd::prelude::*;

verus! {

/// What it means for `out` to be `input` low-pass filtered with kernel
/// `blend`, starting from retained state `prev`: the first output is
/// the seed (the first input itself when there is no state yet, else a
/// blend of the state with the first input), and every later output
/// blends its predecessor with the current input.
pub open spec fn lowpass_chain<T, F: Fn(T, T) -> T>(
    prev: Option<T>,
    input: Seq<T>,
    blend: F,
    out: Seq<T>,
) -> bool {
    &&& out.len() == input.len()
    &&& (input.len() > 0 && prev is None ==> out[0] == input[0])
    &&& (input.len() > 0 ==> (prev matches Some(y) ==> call_ensures(blend, (y, input[0]), out[0])))
    &&& (forall|i: int|
        1 <= i < input.len() ==> call_ensures(blend, (out[i - 1], input[i]), #[trigger] out[i]))
}

/// Reaches one position of a constant-input filter chain from its
/// predecessor.
proof fn lemma_lowpass_constant_at<T, F: Fn(T, T) -> T>(
    prev: Option<T>,
    input: Seq<T>,
    blend: F,
    out: Seq<T>,
    c: T,
    i: int,
)
    requires
        lowpass_chain(prev, input, blend, out),
        forall|r: T| call_ensures(blend, (c, c), r) ==> r == c,
        forall|j: int| 0 <= j < input.len() ==> input[j] == c,
        prev is None || prev == Some(c),
        0 <= i < out.len(),
    ensures
        out[i] == c,
    decreases i,
{
    if i > 0 {
        lemma_lowpass_constant_at(prev, input, blend, out, c, i - 1);
    }
}

/// A filter whose state already equals a constant input is a no-op: if
/// the kernel has that constant as a fixed point, every output of the
/// chunk is the constant, and so is the state left behind.
pub proof fn lemma_lowpass_constant_fixed_point<T, F: Fn(T, T) -> T>(
    prev: Option<T>,
    input: Seq<T>,
    blend: F,
    out: Seq<T>,
    c: T,
)
    requires
        lowpass_chain(prev, input, blend, out),
        forall|r: T| call_ensures(blend, (c, c), r) ==> r == c,
        forall|j: int| 0 <= j < input.len() ==> input[j] == c,
        prev is None || prev == Some(c),
    ensures
        forall|j: int| 0 <= j < out.len() ==> out[j] == c,
{
    assert forall|j: int| 0 <= j < out.len() implies out[j] == c by {
        lemma_lowpass_constant_at(prev, input, blend, out, c, j);
    };
}

/// Filter state carried across a buffer boundary splices the output
/// streams: filtering two chunks in turn, resuming from the first
/// chunk's final output, filters the concatenated stream.
pub proof fn lemma_lowpass_chain_concat<T, F: Fn(T, T) -> T>(
    prev: Option<T>,
    in1: Seq<T>,
    out1: Seq<T>,
    in2: Seq<T>,
    out2: Seq<T>,
    blend: F,
)
    requires
        lowpass_chain(prev, in1, blend, out1),
        lowpass_chain(
            if in1.len() > 0 {
                Some(out1[in1.len() - 1])
            } else {
                prev
            },
            in2,
            blend,
            out2,
        ),
    ensures
        lowpass_chain(prev, in1 + in2, blend, out1 + out2),
{
    let input = in1 + in2;
    let out = out1 + out2;
    assert(out.len() == input.len());
    if input.len() > 0 {
        if in1.len() > 0 {
            assert(input[0] == in1[0]);
            assert(out[0] == out1[0]);
        } else {
            assert(input[0] == in2[0]);
            assert(out[0] == out2[0]);
        }
    }
    assert forall|i: int|
        1 <= i < input.len() implies call_ensures(
        blend,
        (out[i - 1], input[i]),
        #[trigger] out[i],
    ) by {
        if i < in1.len() {
            assert(out[i] == out1[i] && out[i - 1] == out1[i - 1] && input[i] == in1[i]);
        } else if i == in1.len() {
            assert(input[i] == in2[0]);
            assert(out[i] == out2[0]);
            assert(out[i - 1] == out1[in1.len() - 1]);
        } else {
            assert(out[i] == out2[i - in1.len()]);
            assert(out[i - 1] == out2[i - in1.len() - 1]);
            assert(input[i] == in2[i - in1.len()]);
        }
    };
}

/// The persistent state of one low-pass filter instance: its most
/// recent output, or nothing before the first sample is seen.
#[derive(Debug)]
pub struct LowPass<T> {
    /// The last output value, carried across chunk boundaries.
    pub state: Option<T>,
}

impl<T: Copy> LowPass<T> {
    /// A fresh filter that has seen no samples yet.
    pub fn new() -> (r: Self)
        ensures
            r.state is None,
    {
        LowPass { state: None }
    }

    /// Filters one chunk.  The first output ever produced equals the
    /// first input (seeding); each following output is `blend` of the
    /// previous output and the current input; the chunk's final output
    /// becomes the state for the next chunk.
    pub fn filter_chunk<F: Fn(T, T) -> T>(&mut self, input: &Vec<T>, blend: F) -> (out: Vec<T>)
        requires
            forall|y: T, x: T| #[trigger] call_requires(blend, (y, x)),
        ensures
            lowpass_chain(old(self).state, input@, blend, out@),
            input.len() == 0 ==> final(self).state == old(self).state,
            input.len() > 0 ==> final(self).state == Some(out[input.len() - 1]),
    {
        let mut out: Vec<T> = Vec::new();
        let mut i: usize = 0;
        while i < input.len()
            invariant
                forall|y: T, x: T| #[trigger] call_requires(blend, (y, x)),
                i <= input.len(),
                out.len() == i,
                i == 0 ==> self.state == old(self).state,
                i > 0 ==> self.state == Some(out[i - 1]),
                i > 0 && old(self).state is None ==> out[0] == input@[0],
                forall|y: T|
                    old(self).state == Some(y) && i > 0 ==> call_ensures(
                        blend,
                        (y, input@[0]),
                        out[0],
                    ),
                forall|j: int|
                    1 <= j < i ==> call_ensures(blend, (out[j - 1], input@[j]), #[trigger] out[j]),
            decreases input.len() - i,
        {
            let x = input[i];
            let y = match self.state {
                None => x,
                Some(prev) => blend(prev, x),
            };
            self.state = Some(y);
            out.push(y);
            i = i + 1;
        }
        out
    }
}

} // verus!
