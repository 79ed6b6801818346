//! Streaming audio preprocessing core: sample-rate conversion by linear
//! interpolation, zero-padding to a fixed frame size, and strictly
//! sequential frame-by-frame processing for a block-based denoising engine.

pub mod align;
pub mod buffer;
pub mod errors;
pub mod pipeline;
pub mod processor;
pub mod resample;
