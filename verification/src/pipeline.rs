use vstd::prelude::*;

verus! {

use crate::align::{padding_for, PaddedBuffer};
use crate::buffer::{AudioBuffer, OutputBuffer};
use crate::errors::PipelineError;
use crate::processor::SequentialFrameProcessor;
use crate::resample::{resample, resampled_at, resampled_len};

/// Explicit configuration of one pipeline run: the engine's native sample
/// rate and its fixed frame size, named here so that another engine or rate
/// can be substituted without code changes.
pub struct PipelineConfig {
    pub engine_rate: u32,
    pub frame_size: usize,
}

impl PipelineConfig {
    pub open spec fn wf(self) -> bool {
        &&& self.engine_rate >= 1
        &&& self.frame_size >= 1
    }

    pub fn new(engine_rate: u32, frame_size: usize) -> (c: PipelineConfig)
        requires
            engine_rate >= 1,
            frame_size >= 1,
        ensures
            c.wf(),
            c.engine_rate == engine_rate,
            c.frame_size == frame_size,
    {
        PipelineConfig { engine_rate, frame_size }
    }
}

/// Length of the signal after the input has been converted to the engine's
/// native rate, before padding.
pub open spec fn converted_len(input: AudioBuffer, cfg: PipelineConfig) -> int {
    resampled_len(input.samples@.len() as int, input.sample_rate as int, cfg.engine_rate as int)
}

/// Front half of one pipeline run: converts the recording to the engine's
/// native rate, pads it to a whole number of frames, and opens a sequential
/// walk over the result with a fresh processor. The caller then drives the
/// engine one frame at a time, strictly in order, and takes the output when
/// the walk is done.
pub fn prepare_stream(input: &AudioBuffer, cfg: &PipelineConfig) -> (p: SequentialFrameProcessor)
    requires
        input.wf(),
        cfg.wf(),
        input.samples@.len() * cfg.engine_rate as int <= usize::MAX as int,
        converted_len(*input, *cfg) + cfg.frame_size as int <= usize::MAX as int,
    ensures
        p.wf(),
        p.cursor == 0,
        p.frames@ == Seq::<Seq<i16>>::empty(),
        p.frame_size == cfg.frame_size,
        p.input@.len() == converted_len(*input, *cfg) + padding_for(
            converted_len(*input, *cfg),
            cfg.frame_size as int,
        ),
        forall|j: int|
            0 <= j < converted_len(*input, *cfg)
                ==> p.input@[j] as int == resampled_at(
                    input.samples@,
                    input.sample_rate as int,
                    cfg.engine_rate as int,
                    j,
                ),
        forall|j: int|
            converted_len(*input, *cfg) <= j < p.input@.len() ==> p.input@[j] == 0i16,
    {
        let converted = resample(&input.samples, input.sample_rate, cfg.engine_rate);
        let ghost mid = converted@;
        let padded = PaddedBuffer::align(converted, cfg.frame_size);
        proof {
            assert forall|j: int|
                mid.len() <= j < padded.samples@.len() implies padded.samples@[j] == 0i16 by {
                assert(padded.samples@[j] == Seq::new(padded.padding as nat, |k: int| 0i16)[j
                    - mid.len()]);
            }
        }
        SequentialFrameProcessor::new(padded)
    }

/// The orchestrator's correctness checkpoint: the denoised output must be
/// exactly as long as the padded input it came from. A mismatch indicates an
/// engine-integration defect, and is reported loudly instead of being
/// tolerated.
pub fn check_length_invariant(padded_len: usize, output_len: usize) -> (r: Result<
    (),
    PipelineError,
>)
    ensures
        r is Ok <==> padded_len == output_len,
        r matches Err(e) ==> e == PipelineError::LengthInvariantViolation,
{
    if padded_len == output_len {
        Ok(())
    } else {
        Err(PipelineError::LengthInvariantViolation)
    }
}

/// Second conversion pass for a consumer at another rate, applied only to
/// the materialized denoised signal: the engine itself never sees any rate
/// but its own.
pub fn resample_for_consumer(out: &OutputBuffer, engine_rate: u32, target_rate: u32) -> (s: Vec<
    i16,
>)
    requires
        engine_rate >= 1,
        target_rate >= 1,
        out.samples@.len() * target_rate as int <= usize::MAX as int,
    ensures
        s@.len() == resampled_len(out.samples@.len() as int, engine_rate as int,
            target_rate as int),
        forall|j: int|
            0 <= j < s@.len()
                ==> s@[j] as int == resampled_at(out.samples@, engine_rate as int,
                    target_rate as int, j),
{
    resample(&out.samples, engine_rate, target_rate)
}

} // verus!
