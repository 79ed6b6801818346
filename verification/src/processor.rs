use vstd::prelude::*;

verus! {

use vstd::arithmetic::div_mod::lemma_fundamental_div_mod;
use vstd::arithmetic::mul::{lemma_mul_basics, lemma_mul_inequality, lemma_mul_is_commutative};
use vstd::assert_by_contradiction;
use crate::align::PaddedBuffer;
use crate::buffer::{DenoisedFrame, OutputBuffer};

/// The signal assembled from a sequence of engine frames, in the order they
/// were produced.
pub open spec fn assembled(frames: Seq<Seq<i16>>) -> Seq<i16>
    decreases frames.len(),
{
    if frames.len() == 0 {
        Seq::empty()
    } else {
        assembled(frames.drop_last()) + frames.last()
    }
}

/// Accepting one more frame appends it, whole, to the assembled signal.
pub proof fn lemma_assembled_push(frames: Seq<Seq<i16>>, frame: Seq<i16>)
    ensures
        assembled(frames.push(frame)) == assembled(frames) + frame,
{
    assert(frames.push(frame).drop_last() =~= frames);
    assert(frames.push(frame).last() == frame);
}

/// A signal assembled from uniformly sized frames is exactly as long as all
/// of them together.
pub proof fn lemma_assembled_len(frames: Seq<Seq<i16>>, f: int)
    requires
        f >= 0,
        forall|k: int| 0 <= k < frames.len() ==> frames[k].len() == f,
    ensures
        assembled(frames).len() == frames.len() * f,
    decreases frames.len(),
{
    if frames.len() == 0 {
        lemma_mul_basics(f);
    } else {
        let rest = frames.drop_last();
        lemma_assembled_len(rest, f);
        assert((rest.len() + 1) * f == rest.len() * f + f) by (nonlinear_arith);
    }
}

/// Position `i * f + p` of the assembled signal holds sample `p` of frame
/// `i`: every frame occupies exactly its own slot, in order.
pub proof fn lemma_assembled_index(frames: Seq<Seq<i16>>, f: int, i: int, p: int)
    requires
        f >= 1,
        forall|k: int| 0 <= k < frames.len() ==> frames[k].len() == f,
        0 <= i < frames.len(),
        0 <= p < f,
    ensures
        assembled(frames).len() == frames.len() * f,
        0 <= i * f + p < assembled(frames).len(),
        assembled(frames)[i * f + p] == frames[i][p],
    decreases frames.len(),
{
    lemma_assembled_len(frames, f);
    let rest = frames.drop_last();
    lemma_assembled_len(rest, f);
    assert(i * f >= 0) by (nonlinear_arith)
        requires
            i >= 0,
            f >= 1,
    ;
    lemma_mul_inequality(i + 1, frames.len() as int, f);
    assert((i + 1) * f == i * f + f) by (nonlinear_arith);
    if i == frames.len() - 1 {
        assert(i * f == rest.len() * f);
        assert(assembled(frames)[i * f + p] == frames.last()[i * f + p - rest.len() * f]);
    } else {
        lemma_assembled_index(rest, f, i, p);
        lemma_mul_inequality(i + 1, rest.len() as int, f);
        assert(assembled(frames)[i * f + p] == assembled(rest)[i * f + p]);
    }
}

/// Owns the walk over one padded signal: hands out its frames strictly in
/// ascending order, and accepts exactly one engine response per frame before
/// exposing the next. The ghost `frames` field records every response
/// accepted so far, so that the contracts can speak of the whole history.
pub struct SequentialFrameProcessor {
    pub input: Vec<i16>,
    pub frame_size: usize,
    pub frames_total: usize,
    pub cursor: usize,
    pub output: Vec<i16>,
    pub confidences: Vec<u32>,
    pub frames: Ghost<Seq<Seq<i16>>>,
}

impl SequentialFrameProcessor {
    pub open spec fn wf(self) -> bool {
        &&& self.frame_size >= 1
        &&& self.frames_total as int * self.frame_size as int == self.input@.len()
        &&& self.cursor <= self.frames_total
        &&& self.frames@.len() == self.cursor
        &&& (forall|k: int|
            0 <= k < self.frames@.len() ==> self.frames@[k].len() == self.frame_size)
        &&& self.output@ == assembled(self.frames@)
        &&& self.output@.len() == self.cursor as int * self.frame_size as int
        &&& self.confidences@.len() == self.cursor
    }

    /// True once every frame of the padded input has been processed.
    pub open spec fn done(self) -> bool {
        self.cursor == self.frames_total
    }

    /// Starts a fresh walk over a padded signal. Nothing has been handed to
    /// the engine yet.
    pub fn new(padded: PaddedBuffer) -> (p: SequentialFrameProcessor)
        requires
            padded.wf(),
        ensures
            p.wf(),
            p.cursor == 0,
            p.frames@ == Seq::<Seq<i16>>::empty(),
            p.input@ == padded.samples@,
            p.frame_size == padded.frame_size,
            p.output@ == Seq::<i16>::empty(),
            p.confidences@ == Seq::<u32>::empty(),
            p.frames_total as int * p.frame_size as int == padded.samples@.len(),
    {
        let total: usize = padded.samples.len() / padded.frame_size;
        proof {
            lemma_fundamental_div_mod(padded.samples@.len() as int, padded.frame_size as int);
            lemma_mul_is_commutative(total as int, padded.frame_size as int);
            lemma_mul_basics(padded.frame_size as int);
        }
        SequentialFrameProcessor {
            input: padded.samples,
            frame_size: padded.frame_size,
            frames_total: total,
            cursor: 0,
            output: Vec::new(),
            confidences: Vec::new(),
            frames: Ghost(Seq::empty()),
        }
    }

    /// Copies out the frame the engine must see next: the `cursor`-th
    /// contiguous, non-overlapping slice of the padded input, exactly one
    /// frame long.
    pub fn current_frame(&self) -> (frame: Vec<i16>)
        requires
            self.wf(),
            !self.done(),
        ensures
            frame@.len() == self.frame_size,
            frame@ == self.input@.subrange(
                self.cursor as int * self.frame_size as int,
                self.cursor as int * self.frame_size as int + self.frame_size as int,
            ),
    {
        let len: usize = self.input.len();
        proof {
            lemma_mul_inequality(self.cursor as int + 1, self.frames_total as int,
                self.frame_size as int);
            assert((self.cursor as int + 1) * self.frame_size as int
                == self.cursor as int * self.frame_size as int + self.frame_size as int)
                by (nonlinear_arith);
            assert(self.cursor as int * self.frame_size as int >= 0) by (nonlinear_arith)
                requires
                    self.cursor >= 0,
                    self.frame_size >= 1,
            ;
        }
        let start: usize = self.cursor * self.frame_size;
        let mut frame: Vec<i16> = Vec::new();
        let mut t: usize = 0;
        while t < self.frame_size
            invariant
                t <= self.frame_size,
                len == self.input@.len(),
                start + self.frame_size <= len,
                frame@.len() == t,
                forall|k: int| 0 <= k < t ==> frame@[k] == self.input@[start + k],
            decreases self.frame_size - t,
        {
            frame.push(self.input[start + t]);
            t = t + 1;
        }
        proof {
            assert(frame@ =~= self.input@.subrange(start as int,
                start as int + self.frame_size as int));
        }
        frame
    }

    /// Accepts the engine's response for the current frame and advances the
    /// walk by exactly one frame: the response is appended, whole, to the
    /// output, its confidence code is recorded, and only then does the next
    /// frame become current. No frame can be skipped, repeated, or answered
    /// out of order.
    pub fn accept(&mut self, response: DenoisedFrame)
        requires
            old(self).wf(),
            !old(self).done(),
            response.samples@.len() == old(self).frame_size,
        ensures
            final(self).wf(),
            final(self).cursor == old(self).cursor + 1,
            final(self).frames@ == old(self).frames@.push(response.samples@),
            final(self).output@ == old(self).output@ + response.samples@,
            final(self).confidences@ == old(self).confidences@.push(response.confidence),
            final(self).input@ == old(self).input@,
            final(self).frame_size == old(self).frame_size,
            final(self).frames_total == old(self).frames_total,
    {
        let mut incoming = response.samples;
        self.output.append(&mut incoming);
        self.confidences.push(response.confidence);
        self.cursor = self.cursor + 1;
        proof {
            self.frames@ = self.frames@.push(response.samples@);
            lemma_assembled_push(old(self).frames@, response.samples@);
            let c = old(self).cursor as int;
            let f = self.frame_size as int;
            assert((c + 1) * f == c * f + f) by (nonlinear_arith);
        }
    }

    /// True once every frame has been processed; only then may the output be
    /// taken.
    pub fn is_done(&self) -> (r: bool)
        ensures
            r == self.done(),
    {
        self.cursor == self.frames_total
    }

    /// Releases the finished stream: the assembled output, which is exactly
    /// as long as the padded input, and one confidence code per frame.
    pub fn into_output(self) -> (out: OutputBuffer)
        requires
            self.wf(),
            self.done(),
        ensures
            out.samples@ == self.output@,
            out.samples@ == assembled(self.frames@),
            out.samples@.len() == self.input@.len(),
            out.confidences@ == self.confidences@,
    {
        OutputBuffer { samples: self.output, confidences: self.confidences }
    }
}

/// Length preservation: once every frame of a padded input has been
/// processed, the output holds exactly as many samples as the padded input.
pub proof fn lemma_length_preservation(p: SequentialFrameProcessor)
    requires
        p.wf(),
        p.done(),
    ensures
        p.output@.len() == p.input@.len(),
{
}

/// Sequential determinism: two processors over the same input that accepted
/// the same engine responses hold the same output — the walk itself adds no
/// hidden nondeterminism, so any difference between two runs comes from the
/// engine alone.
pub proof fn lemma_sequential_determinism(a: SequentialFrameProcessor, b: SequentialFrameProcessor)
    requires
        a.wf(),
        b.wf(),
        a.input@ == b.input@,
        a.frame_size == b.frame_size,
        a.frames@ == b.frames@,
        a.confidences@ == b.confidences@,
    ensures
        a.output@ == b.output@,
        a.cursor == b.cursor,
{
}

/// Order sensitivity: if two equally long response histories disagree on
/// even one frame, the assembled outputs disagree — where a frame stands in
/// the sequence decides where its samples stand in the signal, so feeding
/// responses in a different order is visible in the result.
pub proof fn lemma_order_sensitivity(
    a: SequentialFrameProcessor,
    b: SequentialFrameProcessor,
    i: int,
)
    requires
        a.wf(),
        b.wf(),
        a.frame_size == b.frame_size,
        a.frames@.len() == b.frames@.len(),
        0 <= i < a.frames@.len(),
        a.frames@[i] != b.frames@[i],
    ensures
        a.output@ != b.output@,
{
    let f = a.frame_size as int;
    assert_by_contradiction!(exists|p: int| 0 <= p < f && a.frames@[i][p] != b.frames@[i][p], {
        assert(a.frames@[i] =~= b.frames@[i]);
    });
    let p = choose|p: int| 0 <= p < f && a.frames@[i][p] != b.frames@[i][p];
    lemma_assembled_index(a.frames@, f, i, p);
    lemma_assembled_index(b.frames@, f, i, p);
    assert(a.output@[i * f + p] != b.output@[i * f + p]);
}

} // verus!
