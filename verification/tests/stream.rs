use denoise_pipeline::align::PaddedBuffer;
use denoise_pipeline::buffer::{AudioBuffer, DenoisedFrame, OutputBuffer};
use denoise_pipeline::errors::PipelineError;
use denoise_pipeline::pipeline::{
    check_length_invariant, prepare_stream, resample_for_consumer, PipelineConfig,
};
use denoise_pipeline::processor::SequentialFrameProcessor;

/// Stand-in engine for the tests: returns its input unchanged with a fixed
/// confidence code, like a correctly integrated engine fed pure silence.
fn passthrough_engine(frame: Vec<i16>, confidence: u32) -> DenoisedFrame {
    DenoisedFrame { samples: frame, confidence }
}

fn drive_to_completion(mut p: SequentialFrameProcessor, confidence: u32) -> OutputBuffer {
    while !p.is_done() {
        let frame = p.current_frame();
        let response = passthrough_engine(frame, confidence);
        p.accept(response);
    }
    p.into_output()
}

#[test]
fn channel_count_other_than_one_is_rejected() {
    assert_eq!(
        AudioBuffer::new(vec![0i16; 8], 48000, 2).err(),
        Some(PipelineError::InputContractViolation)
    );
    assert_eq!(
        AudioBuffer::new(vec![0i16; 8], 48000, 0).err(),
        Some(PipelineError::InputContractViolation)
    );
    assert!(AudioBuffer::new(vec![0i16; 8], 48000, 1).is_ok());
}

#[test]
fn zero_sample_rate_is_rejected() {
    assert_eq!(
        AudioBuffer::new(vec![0i16; 8], 0, 1).err(),
        Some(PipelineError::InputContractViolation)
    );
}

#[test]
fn length_checkpoint_reports_mismatch() {
    assert!(check_length_invariant(1440, 1440).is_ok());
    assert_eq!(
        check_length_invariant(1440, 1439).err(),
        Some(PipelineError::LengthInvariantViolation)
    );
}

#[test]
fn silent_input_runs_through_whole_pipeline() {
    // 1000 zero samples at the engine's own rate: padded by 160 to three
    // frames of 480; a well-behaved engine keeps silence silent.
    let input = AudioBuffer::new(vec![0i16; 1000], 48000, 1).unwrap();
    let cfg = PipelineConfig::new(48000, 480);
    let p = prepare_stream(&input, &cfg);
    let padded_len = p.input.len();
    assert_eq!(padded_len, 1440);

    let mut frames_seen = 0usize;
    let mut p = p;
    while !p.is_done() {
        let frame = p.current_frame();
        assert_eq!(frame.len(), 480);
        assert!(frame.iter().all(|&s| s == 0));
        p.accept(passthrough_engine(frame, 7));
        frames_seen += 1;
    }
    assert_eq!(frames_seen, 3);

    let out = p.into_output();
    assert!(check_length_invariant(padded_len, out.samples.len()).is_ok());
    assert_eq!(out.samples.len(), 1440);
    assert!(out.samples.iter().all(|&s| s == 0));
    assert_eq!(out.confidences, vec![7, 7, 7]);
}

#[test]
fn two_fresh_runs_agree_sample_for_sample() {
    let samples: Vec<i16> = (0..2000).map(|i| ((i * 13) % 3000 - 1500) as i16).collect();
    let input = AudioBuffer::new(samples, 44100, 1).unwrap();
    let cfg = PipelineConfig::new(48000, 480);

    let first = drive_to_completion(prepare_stream(&input, &cfg), 11);
    let second = drive_to_completion(prepare_stream(&input, &cfg), 11);

    assert_eq!(first.samples, second.samples);
    assert_eq!(first.confidences, second.confidences);
}

#[test]
fn responses_in_the_wrong_order_change_the_output() {
    // Two frames of different content: answering them in swapped order
    // lands the wrong samples in the wrong slots.
    let mut signal: Vec<i16> = vec![1i16; 480];
    signal.extend(std::iter::repeat(2i16).take(480));
    let padded_a = PaddedBuffer::align(signal.clone(), 480);
    let padded_b = PaddedBuffer::align(signal, 480);

    let mut in_order = SequentialFrameProcessor::new(padded_a);
    let first = in_order.current_frame();
    in_order.accept(passthrough_engine(first, 0));
    let second = in_order.current_frame();
    in_order.accept(passthrough_engine(second, 0));

    let mut swapped = SequentialFrameProcessor::new(padded_b);
    let first = swapped.current_frame();
    let second_content = vec![2i16; 480];
    swapped.accept(passthrough_engine(second_content, 0));
    swapped.accept(passthrough_engine(first, 0));

    let out_in_order = in_order.into_output();
    let out_swapped = swapped.into_output();
    assert_eq!(out_in_order.samples.len(), out_swapped.samples.len());
    assert_ne!(out_in_order.samples, out_swapped.samples);
}

#[test]
fn second_consumer_gets_independently_resampled_output() {
    let input = AudioBuffer::new(vec![0i16; 4800], 48000, 1).unwrap();
    let cfg = PipelineConfig::new(48000, 480);
    let out = drive_to_completion(prepare_stream(&input, &cfg), 3);
    assert_eq!(out.samples.len(), 4800);

    // The denoised signal is materialized at the engine's rate first, and
    // only then converted for the recognition stage.
    let for_recognizer = resample_for_consumer(&out, 48000, 16000);
    assert_eq!(for_recognizer.len(), 1600);
    assert!(for_recognizer.iter().all(|&s| s == 0));
}

#[test]
fn mixed_rate_pipeline_preserves_padded_length() {
    // 0.1 s at 44100 Hz: resampled to 4800 samples, padded to 10 frames.
    let samples: Vec<i16> = (0..4410).map(|i| (7 * i) as i16).collect();
    let input = AudioBuffer::new(samples, 44100, 1).unwrap();
    let cfg = PipelineConfig::new(48000, 480);
    let p = prepare_stream(&input, &cfg);
    assert_eq!(p.input.len(), 4800);
    let padded_len = p.input.len();
    let padded_signal = p.input.clone();
    let out = drive_to_completion(p, 1);
    assert!(check_length_invariant(padded_len, out.samples.len()).is_ok());
    assert_eq!(out.confidences.len(), 10);
    // A pass-through engine must reproduce the padded signal exactly:
    // slicing into frames and reassembling loses and reorders nothing.
    assert_eq!(out.samples, padded_signal);
}

#[test]
fn opt_in_trimming_restores_source_length() {
    let input: Vec<i16> = (0..1000).map(|i| (i % 100) as i16).collect();
    let padded = PaddedBuffer::align(input.clone(), 480);
    let padding = padded.padding;
    let out = drive_to_completion(SequentialFrameProcessor::new(padded), 9);
    assert_eq!(out.samples.len(), 1440);
    let trimmed = out.trimmed_samples(padding);
    assert_eq!(trimmed, input);
}
