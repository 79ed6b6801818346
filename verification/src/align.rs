use vstd::prelude::*;

verus! {

use vstd::arithmetic::div_mod::{
    lemma_add_mod_noop, lemma_mod_division_less_than_divisor, lemma_mod_self_0, lemma_small_mod,
};

/// Number of zero-valued samples that must be appended so that a signal of
/// length `len` becomes an exact multiple of the frame size `f`.
pub open spec fn padding_for(len: int, f: int) -> int
    recommends
        f >= 1,
{
    (f - len % f) % f
}

/// A sample sequence whose length is an exact multiple of the engine's frame
/// size, together with a record of how many trailing samples are synthetic.
/// The padding count is reported but never used to trim the processed output:
/// downstream consumers receive the padded-length signal as-is.
pub struct PaddedBuffer {
    pub samples: Vec<i16>,
    pub padding: usize,
    pub frame_size: usize,
}

impl PaddedBuffer {
    pub open spec fn wf(self) -> bool {
        &&& self.frame_size >= 1
        &&& self.padding < self.frame_size
        &&& self.padding <= self.samples@.len()
        &&& self.samples@.len() as int % self.frame_size as int == 0
        &&& forall|k: int|
            self.samples@.len() - self.padding <= k < self.samples@.len()
                ==> self.samples@[k] == 0i16
    }

    /// Right-pads `input` with zero samples up to the next multiple of
    /// `frame_size`, recording the number of appended samples. An input whose
    /// length is already a multiple of `frame_size` is returned unchanged with
    /// a padding count of zero.
    pub fn align(input: Vec<i16>, frame_size: usize) -> (r: PaddedBuffer)
        requires
            frame_size >= 1,
            input@.len() + frame_size <= usize::MAX,
        ensures
            r.wf(),
            r.frame_size == frame_size,
            r.padding as int == padding_for(input@.len() as int, frame_size as int),
            r.samples@ == input@ + Seq::new(r.padding as nat, |k: int| 0i16),
            r.samples@.len() == input@.len() + r.padding,
    {
        let ghost orig = input@;
        let len: usize = input.len();
        let rem: usize = len % frame_size;
        let pad: usize = if rem == 0 {
            0
        } else {
            frame_size - rem
        };
        proof {
            lemma_mod_division_less_than_divisor(len as int, frame_size as int);
            if rem == 0 {
                lemma_mod_self_0(frame_size as int);
            } else {
                lemma_small_mod((frame_size - rem) as nat, frame_size as nat);
            }
            assert(pad as int == padding_for(len as int, frame_size as int));
        }
        let mut samples = input;
        let mut i: usize = 0;
        proof {
            assert(samples@ =~= orig + Seq::new(0nat, |k: int| 0i16));
        }
        while i < pad
            invariant
                i <= pad,
                orig.len() + pad <= usize::MAX,
                samples@ == orig + Seq::new(i as nat, |k: int| 0i16),
            decreases pad - i,
        {
            samples.push(0i16);
            proof {
                assert(samples@ =~= orig + Seq::new((i + 1) as nat, |k: int| 0i16));
            }
            i = i + 1;
        }
        proof {
            lemma_padded_len_is_aligned(len as int, pad as int, frame_size as int);
            assert forall|k: int|
                samples@.len() - pad <= k < samples@.len() implies samples@[k] == 0i16 by {
                assert(samples@[k] == Seq::new(pad as nat, |j: int| 0i16)[k - orig.len()]);
            }
        }
        PaddedBuffer { samples, padding: pad, frame_size }
    }

    /// Number of whole frames the padded signal holds.
    pub fn num_frames(&self) -> (n: usize)
        requires
            self.frame_size >= 1,
        ensures
            n as int == self.samples@.len() as int / self.frame_size as int,
    {
        self.samples.len() / self.frame_size
    }
}

/// Appending exactly the announced padding yields a frame-aligned length.
proof fn lemma_padded_len_is_aligned(len: int, pad: int, f: int)
    requires
        len >= 0,
        f >= 1,
        pad == padding_for(len, f),
    ensures
        (len + pad) % f == 0,
{
    lemma_mod_division_less_than_divisor(len, f);
    let rem = len % f;
    if rem == 0 {
        lemma_mod_self_0(f);
        assert(pad == 0);
        assert((len + pad) % f == 0);
    } else {
        lemma_small_mod((f - rem) as nat, f as nat);
        assert(pad == f - rem);
        lemma_add_mod_noop(len, pad, f);
        lemma_small_mod(pad as nat, f as nat);
        assert((rem + pad) % f == (len + pad) % f);
        lemma_mod_self_0(f);
    }
}

/// Padding correctness: the padding is always less than one frame, and the
/// padded length `len + ((f - len % f) % f)` is an exact multiple of the
/// frame size.
pub proof fn lemma_padding_correctness(len: int, f: int)
    requires
        len >= 0,
        f >= 1,
    ensures
        0 <= padding_for(len, f) < f,
        (len + padding_for(len, f)) % f == 0,
{
    lemma_mod_division_less_than_divisor(len, f);
    let rem = len % f;
    if rem == 0 {
        lemma_mod_self_0(f);
    } else {
        lemma_small_mod((f - rem) as nat, f as nat);
    }
    lemma_padded_len_is_aligned(len, padding_for(len, f), f);
}

} // verus!
