use vstd::prelude::*;

verus! {

/// Terminal failures of a pipeline run. None of these is retried: once a
/// stream has failed, its engine state is no longer trustworthy.
#[derive(Clone, Copy, Debug, PartialEq, Eq, Structural)]
pub enum PipelineError {
    /// The input is structurally unsupported: its channel count is not one,
    /// or its sample rate is zero.
    InputContractViolation,
    /// The processed output length differs from the padded input length,
    /// which indicates an engine-integration defect.
    LengthInvariantViolation,
}

} // verus!
