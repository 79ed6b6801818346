use denoise_pipeline::align::PaddedBuffer;
use denoise_pipeline::resample::resample;

#[test]
fn padding_partial_final_frame() {
    let input: Vec<i16> = vec![3i16; 1000];
    let padded = PaddedBuffer::align(input, 480);
    assert_eq!(padded.padding, 440);
    assert_eq!(padded.frame_size, 480);
    assert_eq!(padded.samples.len(), 1440);
    assert_eq!(padded.samples.len() % 480, 0);
    for k in 0..1000 {
        assert_eq!(padded.samples[k], 3);
    }
    for k in 1000..1440 {
        assert_eq!(padded.samples[k], 0);
    }
    assert_eq!(padded.num_frames(), 3);
}

#[test]
fn padding_exact_multiple_is_untouched() {
    let input: Vec<i16> = (0..960).map(|i| i as i16).collect();
    let padded = PaddedBuffer::align(input.clone(), 480);
    assert_eq!(padded.padding, 0);
    assert_eq!(padded.samples, input);
    assert_eq!(padded.num_frames(), 2);
}

#[test]
fn padding_empty_input() {
    let padded = PaddedBuffer::align(Vec::new(), 480);
    assert_eq!(padded.padding, 0);
    assert_eq!(padded.samples.len(), 0);
    assert_eq!(padded.num_frames(), 0);
}

#[test]
fn padding_one_sample() {
    let padded = PaddedBuffer::align(vec![-5i16], 4);
    assert_eq!(padded.padding, 3);
    assert_eq!(padded.samples, vec![-5, 0, 0, 0]);
}

#[test]
fn identity_resampling_returns_input_unchanged() {
    let input: Vec<i16> = (0..1237).map(|i| ((i * 37) % 20000 - 10000) as i16).collect();
    let out = resample(&input, 48000, 48000);
    assert_eq!(out, input);
}

#[test]
fn resample_empty_input_yields_empty_output() {
    let input: Vec<i16> = Vec::new();
    assert_eq!(resample(&input, 44100, 48000).len(), 0);
    assert_eq!(resample(&input, 48000, 48000).len(), 0);
}

#[test]
fn resample_doubles_rate_by_interpolation() {
    // Two samples at rate 1 resampled to rate 2: the midpoint is
    // interpolated, and the final position clamps to the last sample.
    let input: Vec<i16> = vec![0, 100];
    let out = resample(&input, 1, 2);
    assert_eq!(out, vec![0, 50, 100, 100]);
}

#[test]
fn resample_halves_rate() {
    let input: Vec<i16> = vec![0, 10, 20, 30];
    let out = resample(&input, 2, 1);
    assert_eq!(out, vec![0, 20]);
}

#[test]
fn resample_interpolates_descending_samples() {
    let input: Vec<i16> = vec![100, -100];
    let out = resample(&input, 1, 4);
    // Steps of a quarter of the distance, rounded toward the left sample;
    // past the last sample the signal holds its final value.
    assert_eq!(out, vec![100, 50, 0, -50, -100, -100, -100, -100]);
}

#[test]
fn resample_tenth_of_a_second_to_engine_rate() {
    // 0.1 s at 44100 Hz becomes 4800 samples at 48000 Hz.
    let input: Vec<i16> = (0..4410).map(|i| (7 * i) as i16).collect();
    let out = resample(&input, 44100, 48000);
    assert_eq!(out.len(), 4800);
    assert_eq!(out[0], 0);
    assert_eq!(out[1], 6);
    assert_eq!(out[2], 12);
    assert_eq!(out[100], 643);
    assert_eq!(out[999], 6424);
    assert_eq!(out[2400], 15435);
    assert_eq!(out[4798], 30857);
    assert_eq!(out[4799], 30863);
}

#[test]
fn resample_downsamples_to_recognizer_rate() {
    let input: Vec<i16> = vec![0; 4800];
    let out = resample(&input, 48000, 16000);
    assert_eq!(out.len(), 1600);
    assert!(out.iter().all(|&s| s == 0));
}
