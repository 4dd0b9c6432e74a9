use open_transcribe::whisper::mixer::downmix_to_mono;
use open_transcribe::whisper::resampler::{
    expected_output_frames, finish_resample, interleave_segment, plan_resample_to_16khz,
    split_into_channels, ResamplePlan, ResamplingError, TARGET_SAMPLE_RATE,
};

#[test]
fn passthrough_at_target_rate_is_identity() {
    let samples = vec![5, -3, 7, 0, 2, -8];
    let plan = plan_resample_to_16khz(&samples, TARGET_SAMPLE_RATE, 2).unwrap();
    match plan {
        ResamplePlan::Passthrough(out) => assert_eq!(out, samples),
        ResamplePlan::Filter(_) => panic!("a 1:1 ratio must pass through"),
    }
}

#[test]
fn passthrough_ignores_frame_count() {
    // Even an empty buffer passes through at the target rate.
    let plan = plan_resample_to_16khz(&[], TARGET_SAMPLE_RATE, 1).unwrap();
    assert!(matches!(plan, ResamplePlan::Passthrough(out) if out.is_empty()));
}

#[test]
fn plan_rejects_empty_input_at_other_rates() {
    let r = plan_resample_to_16khz(&[], 8000, 1);
    assert!(matches!(r, Err(ResamplingError::NoFrames)));
    assert_eq!(
        ResamplingError::NoFrames.message(),
        "No audio frames to resample"
    );
    // One sample over two channels holds no whole frame either.
    let r2 = plan_resample_to_16khz(&[1], 8000, 2);
    assert!(r2.is_err());
}

#[test]
fn plan_splits_channels_and_counts_frames() {
    // 3 frames of 2 channels at 8000 Hz: expect 3 * 16000 / 8000 = 6 frames.
    let samples = vec![10, -10, 20, -20, 30, -30];
    let plan = plan_resample_to_16khz(&samples, 8000, 2).unwrap();
    match plan {
        ResamplePlan::Filter(job) => {
            assert_eq!(job.source_rate, 8000);
            assert_eq!(job.expected_frames, 6);
            assert_eq!(job.channels_data, vec![vec![10, 20, 30], vec![-10, -20, -30]]);
        }
        ResamplePlan::Passthrough(_) => panic!("8000 Hz must be filtered"),
    }
}

#[test]
fn expected_frames_follow_the_exact_ratio() {
    assert_eq!(expected_output_frames(1000, 8000), 2000);
    assert_eq!(expected_output_frames(1000, 44100), 362); // 16000000 / 44100 truncated
    assert_eq!(expected_output_frames(1000, 32000), 500);
    assert_eq!(expected_output_frames(0, 8000), 0);
}

#[test]
fn split_drops_partial_trailing_frame() {
    let rows = split_into_channels(&[1, 2, 3, 4, 5], 2);
    assert_eq!(rows, vec![vec![1, 3], vec![2, 4]]);
}

#[test]
fn interleave_restores_frame_order() {
    let rows = vec![vec![1, 3, 5], vec![2, 4, 6]];
    assert_eq!(interleave_segment(&rows, 0, 3), vec![1, 2, 3, 4, 5, 6]);
    assert_eq!(interleave_segment(&rows, 1, 3), vec![3, 4, 5, 6]);
    assert_eq!(interleave_segment(&rows, 2, 2), vec![]);
}

#[test]
fn finish_drops_delay_and_keeps_expected_frames() {
    // 8 frames available per channel, delay 2, expecting 4: keep rows 2..6.
    let rows = vec![vec![0, 1, 2, 3, 4, 5, 6, 7]];
    assert_eq!(finish_resample(&rows, 2, 4), vec![2, 3, 4, 5]);
}

#[test]
fn finish_clamps_to_available_frames() {
    let rows = vec![vec![0, 1, 2, 3]];
    // delay 1 + expected 10 exceeds the 4 available rows: keep 1..4.
    assert_eq!(finish_resample(&rows, 1, 10), vec![1, 2, 3]);
    // A delay beyond the available rows leaves nothing.
    assert_eq!(finish_resample(&rows, 9, 2), vec![]);
}

#[test]
fn stereo_mix_averages_each_frame() {
    // [(L0,R0),(L1,R1),...] -> [(L0+R0)/2, (L1+R1)/2, ...]
    let samples = vec![10, 20, 30, 50, -3, -4];
    assert_eq!(downmix_to_mono(&samples, 2), vec![15, 40, -3]);
}

#[test]
fn mono_mix_is_identity() {
    let samples = vec![7, -9, 0, 12345];
    assert_eq!(downmix_to_mono(&samples, 1), samples);
}

#[test]
fn three_channel_mix_averages_all_channels() {
    let samples = vec![1, 2, 3, -1, -2, -3];
    assert_eq!(downmix_to_mono(&samples, 3), vec![2, -2]);
}

#[test]
fn mix_truncates_toward_zero() {
    assert_eq!(downmix_to_mono(&[-3, -4], 2), vec![-3]);
    assert_eq!(downmix_to_mono(&[3, 4], 2), vec![3]);
}
