use open_transcribe::audio::{convert_audio_bytes_to_samples, DecodeError};
use open_transcribe::dto::TranscriptionDto;
use open_transcribe::whisper::config::WhisperConfig;
use open_transcribe::whisper::scorer::Confidence;
use open_transcribe::whisper::transcriber::{
    BeginStep, EngineSegment, InputAudio, MixStep, PipelineState, Segment, SimpleTranscriber,
    TranscribeError, ValidationError,
};

fn failure_of(t: &SimpleTranscriber) -> &TranscribeError {
    match &t.state {
        PipelineState::Failed { error } => error,
        _ => panic!("the pipeline should have failed"),
    }
}

#[test]
fn two_second_8khz_silence_is_accepted_end_to_end() {
    // 2 seconds of 16-bit mono silence at 8000 Hz: 16000 frames, 32000 bytes.
    let bytes = vec![0u8; 32000];
    let samples = convert_audio_bytes_to_samples(&bytes, 16).unwrap();
    assert_eq!(samples.len(), 16000);

    let mut t = SimpleTranscriber::new(WhisperConfig::new());
    let job = match t.begin(InputAudio {
        data: samples,
        sample_rate: 8000,
        channels: 1,
    }) {
        BeginStep::RunFilter(job) => job,
        _ => panic!("8000 Hz audio must go through the filter"),
    };
    assert_eq!(job.expected_frames, 32000);
    assert_eq!(job.channels_data.len(), 1);

    // Stand in for the sinc filter: silence stays silence, and the filter
    // hands back its delay plus the expected frames.
    let delay = 64;
    let rows = vec![vec![0i32; delay + 32000]];
    t.resampled(rows, delay);

    let engine_job = match t.downmix() {
        MixStep::RunEngine(job) => job,
        MixStep::Rejected => panic!("2 seconds of audio is over the floor"),
    };
    // Resampled to ~32000 mono samples: over the one-second floor.
    assert_eq!(engine_job.mono.len(), 32000);
    assert!(engine_job.mono.iter().all(|&v| v == 0));

    assert!(t.engine_completed(Ok(vec![])));
    let output = t.assemble();
    assert_eq!(output.combined, "");
    assert!(output.segments.is_empty());
    assert!(matches!(t.state, PipelineState::Done));
}

#[test]
fn half_second_16khz_audio_is_rejected_before_the_engine() {
    // 0.5 seconds of 16-bit mono at 16000 Hz: 8000 frames.
    let bytes = vec![0u8; 16000];
    let samples = convert_audio_bytes_to_samples(&bytes, 16).unwrap();
    assert_eq!(samples.len(), 8000);

    let mut t = SimpleTranscriber::new(WhisperConfig::new());
    let step = t.begin(InputAudio {
        data: samples,
        sample_rate: 16000,
        channels: 1,
    });
    assert!(matches!(step, BeginStep::AlreadyAtTargetRate));

    match t.downmix() {
        MixStep::Rejected => {}
        MixStep::RunEngine(_) => panic!("half a second must not reach the engine"),
    }
    let error = failure_of(&t);
    assert!(matches!(
        error,
        TranscribeError::Validation(ValidationError::TooShort)
    ));
    assert_eq!(error.message(), "Audio is too short (less than 1 second)");
    assert!(error.is_client_error());
}

#[test]
fn odd_byte_count_fails_before_any_pipeline_work() {
    let bytes = vec![0u8; 16001];
    let r = convert_audio_bytes_to_samples(&bytes, 16);
    assert_eq!(r, Err(DecodeError::OddByteCount));
    assert_eq!(
        DecodeError::OddByteCount.message(),
        "Invalid 16-bit audio data: odd number of bytes"
    );
}

#[test]
fn empty_audio_is_rejected_outright() {
    let mut t = SimpleTranscriber::new(WhisperConfig::new());
    let step = t.begin(InputAudio {
        data: vec![],
        sample_rate: 16000,
        channels: 1,
    });
    assert!(matches!(step, BeginStep::Rejected));
    let error = failure_of(&t);
    assert!(matches!(
        error,
        TranscribeError::Validation(ValidationError::EmptyAudio)
    ));
    assert_eq!(error.message(), "No audio data provided");
}

#[test]
fn engine_failure_aborts_the_request() {
    let bytes = vec![0u8; 64000];
    let samples = convert_audio_bytes_to_samples(&bytes, 16).unwrap();
    let mut t = SimpleTranscriber::new(WhisperConfig::new());
    assert!(matches!(
        t.begin(InputAudio {
            data: samples,
            sample_rate: 16000,
            channels: 1,
        }),
        BeginStep::AlreadyAtTargetRate
    ));
    assert!(matches!(t.downmix(), MixStep::RunEngine(_)));
    assert!(!t.engine_completed(Err("inference failed".to_string())));
    let error = failure_of(&t);
    assert!(matches!(error, TranscribeError::Engine(_)));
    assert_eq!(error.message(), "inference failed");
    assert!(!error.is_client_error());
}

#[test]
fn segments_are_scored_and_concatenated_in_order() {
    // 2 seconds of interleaved stereo at the target rate.
    let samples = vec![0i32; 64000];
    let mut t = SimpleTranscriber::new(WhisperConfig::new());
    assert!(matches!(
        t.begin(InputAudio {
            data: samples,
            sample_rate: 16000,
            channels: 2,
        }),
        BeginStep::AlreadyAtTargetRate
    ));
    let job = match t.downmix() {
        MixStep::RunEngine(job) => job,
        MixStep::Rejected => panic!("32000 stereo frames are over the floor"),
    };
    assert_eq!(job.mono.len(), 32000);
    assert_eq!(job.params.best_of, 1);
    assert!(job.params.suppress_special_tokens);
    assert!(job.params.emit_timestamps);
    assert_eq!(job.params.language, "en");
    assert_eq!(job.params.audio_context, 768);
    assert_eq!(job.params.no_speech_threshold_micros, 600_000);
    assert_eq!(job.params.num_threads, 4);

    assert!(t.engine_completed(Ok(vec![
        EngineSegment {
            start: 0,
            end: 1000,
            text: "Hello".to_string(),
            token_logprob_micros: vec![0, 0],
        },
        EngineSegment {
            start: 1000,
            end: 2000,
            text: " world".to_string(),
            token_logprob_micros: vec![-2_000_000, -1_000_000],
        },
    ])));
    let output = t.assemble();
    assert_eq!(output.combined, "Hello world");
    assert_eq!(output.segments.len(), 2);
    assert_eq!(output.segments[0].start, 0);
    assert_eq!(output.segments[0].end, 1000);
    assert_eq!(output.segments[0].text, "Hello");
    assert_eq!(
        output.segments[0].confidence,
        Confidence::MeanLogProb { micros: 0 }
    );
    assert_eq!(output.segments[1].text, " world");
    assert_eq!(
        output.segments[1].confidence,
        Confidence::MeanLogProb {
            micros: -1_500_000
        }
    );

    let dto = TranscriptionDto::from_output(output);
    assert_eq!(dto.text, "Hello world");
    let segs = dto.segments.unwrap();
    assert_eq!(segs.len(), 2);
    assert_eq!(segs[0].text, "Hello");
    assert_eq!(segs[1].start, 1000);
    assert_eq!(segs[1].confidence, Confidence::MeanLogProb { micros: -1_500_000 });
}

#[test]
fn multichannel_audio_flows_through_the_filter_path() {
    // 1.5 seconds of stereo at 8000 Hz, nonzero so the mix is visible.
    let mut data = Vec::new();
    for _ in 0..12000 {
        data.push(10);
        data.push(20);
    }
    let mut t = SimpleTranscriber::new(WhisperConfig::new());
    let job = match t.begin(InputAudio {
        data,
        sample_rate: 8000,
        channels: 2,
    }) {
        BeginStep::RunFilter(job) => job,
        _ => panic!("8000 Hz audio must go through the filter"),
    };
    assert_eq!(job.expected_frames, 24000);
    assert_eq!(job.channels_data.len(), 2);
    assert_eq!(job.channels_data[0].len(), 12000);

    // Stand in for the filter: each channel keeps its level.
    let delay = 13;
    let rows = vec![vec![10i32; delay + 24000], vec![20i32; delay + 24000]];
    t.resampled(rows, delay);
    let engine_job = match t.downmix() {
        MixStep::RunEngine(job) => job,
        MixStep::Rejected => panic!("24000 frames are over the floor"),
    };
    assert_eq!(engine_job.mono.len(), 24000);
    assert!(engine_job.mono.iter().all(|&v| v == 15));
}

#[test]
fn segment_equality_ignores_confidence() {
    let a = Segment {
        start: 0,
        end: 10,
        text: "hi".to_string(),
        confidence: Confidence::NoTokens,
    };
    let b = Segment {
        start: 0,
        end: 10,
        text: "hi".to_string(),
        confidence: Confidence::MeanLogProb { micros: -5 },
    };
    assert!(a == b);
    let c = Segment {
        start: 0,
        end: 11,
        text: "hi".to_string(),
        confidence: Confidence::NoTokens,
    };
    assert!(a != c);
}
