use vstd::prelude::*;

verus! {

use crate::errors::PipelineError;

/// A finite mono recording: ordered amplitude samples on the engine's
/// integer-PCM scale, tagged with the rate they were sampled at.
pub struct AudioBuffer {
    pub samples: Vec<i16>,
    pub sample_rate: u32,
}

impl AudioBuffer {
    pub open spec fn wf(self) -> bool {
        self.sample_rate >= 1
    }

    /// Admits a decoded recording into the core. Only single-channel input
    /// with a positive sample rate is structurally supported; anything else
    /// is rejected outright, with no recovery.
    pub fn new(samples: Vec<i16>, sample_rate: u32, channels: u32) -> (r: Result<
        AudioBuffer,
        PipelineError,
    >)
        ensures
            r is Ok <==> (channels == 1 && sample_rate >= 1),
            r matches Ok(b) ==> b.samples@ == samples@ && b.sample_rate == sample_rate && b.wf(),
            r matches Err(e) ==> e == PipelineError::InputContractViolation,
    {
        if channels == 1 && sample_rate >= 1 {
            Ok(AudioBuffer { samples, sample_rate })
        } else {
            Err(PipelineError::InputContractViolation)
        }
    }
}

/// The engine's answer for one frame: exactly one frame of denoised samples,
/// plus the per-frame activity metric the engine emits alongside them. The
/// metric is carried through as an opaque 32-bit code and given no further
/// meaning here; producers choose its encoding.
pub struct DenoisedFrame {
    pub samples: Vec<i16>,
    pub confidence: u32,
}

/// The reassembled denoised signal at the engine's native rate, together
/// with the per-frame confidence codes, in frame order.
pub struct OutputBuffer {
    pub samples: Vec<i16>,
    pub confidences: Vec<u32>,
}

impl OutputBuffer {
    /// By default the emitted signal keeps its zero padding and is therefore
    /// up to one frame longer than the source. This opt-in step removes
    /// exactly the given number of trailing samples for consumers that want
    /// the source length back; it is never applied silently.
    pub fn trimmed_samples(&self, padding: usize) -> (s: Vec<i16>)
        requires
            padding <= self.samples@.len(),
        ensures
            s@ == self.samples@.subrange(0, self.samples@.len() - padding),
    {
        let keep: usize = self.samples.len() - padding;
        let mut s: Vec<i16> = Vec::new();
        let mut i: usize = 0;
        while i < keep
            invariant
                i <= keep,
                keep <= self.samples@.len(),
                s@.len() == i,
                forall|k: int| 0 <= k < i ==> s@[k] == self.samples@[k],
            decreases keep - i,
        {
            s.push(self.samples[i]);
            i = i + 1;
        }
        proof {
            assert(s@ =~= self.samples@.subrange(0, keep as int));
        }
        s
    }
}

} // verus!
