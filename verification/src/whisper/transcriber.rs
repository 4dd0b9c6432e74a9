//! The transcription orchestrator: a state machine that sequences
//! resampling, the one-second floor check, the downmix to mono, the engine
//! invocation and the scoring of the engine's answer.
//!
//! The sinc filter and the engine compute float values and run outside the
//! library; the machine owns every decision between those calls. The caller
//! drives it: `begin` with the request's audio, `resampled` with the
//! filter's rows, `downmix` for the floor check and the mono fold,
//! `engine_completed` with the engine's answer, and `assemble` for the
//! final output. Either terminal state — `Done` or `Failed` — ends the
//! request; a failed request never hands out a partial segment list.
//!
//! Audio handed to the engine is always mono, always at the target rate,
//! and always at least one second long: `EngineInvocation` is only ever
//! entered with that many frames, and `downmix` rejects anything shorter.

use vstd::prelude::*;
use crate::audio::DecodeError;
use crate::whisper::config::WhisperConfig;
use crate::whisper::mixer::downmix_to_mono;
use crate::whisper::mixer::spec_mono_mix;
use crate::whisper::resampler::ResamplePlan;
use crate::whisper::resampler::ResampleJob;
use crate::whisper::resampler::ResamplingError;
use crate::whisper::resampler::TARGET_SAMPLE_RATE;
use crate::whisper::resampler::finish_resample;
use crate::whisper::resampler::plan_resample_to_16khz;
use crate::whisper::resampler::spec_deinterleaved;
use crate::whisper::resampler::spec_expected_frames;
use crate::whisper::resampler::spec_interleaved_segment;
use crate::whisper::scorer::Confidence;
use crate::whisper::scorer::calculate_segment_confidence;
use crate::whisper::scorer::spec_confidence;

verus! {

/// The engine's hard floor: one second of audio at the target rate. Frame
/// counts below this are rejected before any engine work.
pub const MIN_ENGINE_FRAMES: usize = 16000;

/// One request's raw audio: quantized samples with their declared layout.
pub struct InputAudio {
    /// Interleaved quantized samples.
    pub data: Vec<i32>,
    /// Declared source rate in Hz; must be positive.
    pub sample_rate: u32,
    /// Declared channel count; must be at least 1.
    pub channels: usize,
}

/// One recognized span of speech, in chronological order within a response.
#[derive(Debug)]
pub struct Segment {
    /// Start time in engine-native milliseconds.
    pub start: usize,
    /// End time in engine-native milliseconds.
    pub end: usize,
    /// The recognized text.
    pub text: String,
    /// Derived confidence; never supplied by the engine directly.
    pub confidence: Confidence,
}

impl Clone for Segment {
    fn clone(&self) -> (c: Self)
        ensures
            c == *self,
    {
        Segment {
            start: self.start,
            end: self.end,
            text: self.text.clone(),
            confidence: self.confidence,
        }
    }
}

impl PartialEq for Segment {
    /// Segments compare by span and text; the derived confidence is not
    /// part of a segment's identity.
    fn eq(&self, other: &Self) -> (r: bool) {
        self.start == other.start && self.end == other.end && self.text == other.text
    }
}

impl vstd::std_specs::cmp::PartialEqSpecImpl for Segment {
    open spec fn obeys_eq_spec() -> bool {
        true
    }

    open spec fn eq_spec(&self, other: &Self) -> bool {
        self.start == other.start && self.end == other.end && self.text@ == other.text@
    }
}

/// What the engine reports for one segment, before scoring.
pub struct EngineSegment {
    /// Start time in engine-native milliseconds.
    pub start: usize,
    /// End time in engine-native milliseconds.
    pub end: usize,
    /// The recognized text.
    pub text: String,
    /// Per-token log-probabilities in millionths of a log unit.
    pub token_logprob_micros: Vec<i64>,
}

/// Terminal artifact of one request: the concatenated text and the ordered
/// segments it came from.
pub struct TranscribeOutput {
    /// All segment texts concatenated, with no separator.
    pub combined: String,
    /// The segments in engine-reported (chronological) order.
    pub segments: Vec<Segment>,
}

/// Input rejected before any engine work.
#[derive(Clone, Copy, PartialEq, Eq, Structural, Debug)]
pub enum ValidationError {
    /// The request held no samples at all.
    EmptyAudio,
    /// The rate-corrected audio falls short of the one-second floor.
    TooShort,
}

/// Why a transcription request failed.
#[derive(Debug)]
pub enum TranscribeError {
    /// The raw bytes did not decode; a client error.
    Decode(DecodeError),
    /// The audio was rejected before the engine; a client error.
    Validation(ValidationError),
    /// The buffer held no whole frame to resample; a client error.
    Resampling(ResamplingError),
    /// The engine itself failed; a server error, never retried.
    Engine(String),
}

impl ValidationError {
    /// The cause, worded as it is reported to the caller.
    pub open spec fn spec_message(self) -> Seq<char> {
        match self {
            ValidationError::EmptyAudio => "No audio data provided"@,
            ValidationError::TooShort => "Audio is too short (less than 1 second)"@,
        }
    }

    pub fn message(&self) -> (m: String)
        ensures
            m@ == self.spec_message(),
    {
        match self {
            ValidationError::EmptyAudio => String::from_str("No audio data provided"),
            ValidationError::TooShort => String::from_str(
                "Audio is too short (less than 1 second)",
            ),
        }
    }
}

impl TranscribeError {
    /// Whether the failure is the caller's (a malformed or rejected
    /// request) rather than the service's: every cause but an engine
    /// failure.
    pub open spec fn spec_is_client_error(self) -> bool {
        !(self is Engine)
    }

    pub fn is_client_error(&self) -> (r: bool)
        ensures
            r == self.spec_is_client_error(),
    {
        !matches!(self, TranscribeError::Engine(_))
    }

    /// The cause, worded as it is reported to the caller.
    pub open spec fn spec_message(self) -> Seq<char> {
        match self {
            TranscribeError::Decode(e) => e.spec_message(),
            TranscribeError::Validation(v) => v.spec_message(),
            TranscribeError::Resampling(r) => r.spec_message(),
            TranscribeError::Engine(m) => m@,
        }
    }

    pub fn message(&self) -> (m: String)
        ensures
            m@ == self.spec_message(),
    {
        match self {
            TranscribeError::Decode(e) => e.message(),
            TranscribeError::Validation(v) => v.message(),
            TranscribeError::Resampling(r) => r.message(),
            TranscribeError::Engine(m) => m.clone(),
        }
    }
}

/// Exactly what one engine invocation is configured with.
pub struct EngineParams {
    /// The configured language tag.
    pub language: String,
    /// Greedy decoding: keep only the single best candidate.
    pub best_of: i32,
    /// Special tokens are suppressed from the output.
    pub suppress_special_tokens: bool,
    /// Timestamp emission is enabled.
    pub emit_timestamps: bool,
    /// The configured audio-context window size.
    pub audio_context: i32,
    /// The configured no-speech threshold, in millionths.
    pub no_speech_threshold_micros: u32,
    /// The configured worker thread count.
    pub num_threads: i32,
}

/// The parameter set owed to every engine call under a configuration.
pub open spec fn spec_engine_params(config: WhisperConfig) -> EngineParams {
    EngineParams {
        language: config.language,
        best_of: 1,
        suppress_special_tokens: true,
        emit_timestamps: true,
        audio_context: config.audio_context,
        no_speech_threshold_micros: config.no_speech_threshold_micros,
        num_threads: config.num_threads,
    }
}

/// One engine call: a mono buffer at the target rate, at least
/// `MIN_ENGINE_FRAMES` long, with the call's parameters.
pub struct EngineJob {
    pub mono: Vec<i32>,
    pub params: EngineParams,
}

/// Where one request stands in the pipeline.
pub enum PipelineState {
    /// Waiting for a request.
    Idle,
    /// The sinc filter is running outside; kept here is what the trim step
    /// will need.
    Resampling { channels: usize, expected_frames: usize },
    /// Rate-correct interleaved audio awaiting the floor check and the
    /// downmix.
    Mixing { samples: Vec<i32>, channels: usize },
    /// The engine is running outside on a mono buffer of `frames` samples.
    EngineInvocation { frames: usize },
    /// The engine's raw segments awaiting scoring and assembly.
    Scoring { raw: Vec<EngineSegment> },
    /// Terminal: the output was assembled and handed out.
    Done,
    /// Terminal: the request failed; no partial output exists.
    Failed { error: TranscribeError },
}

/// What the caller must do after `begin`.
pub enum BeginStep {
    /// Run the sinc filter over the job, then call `resampled`.
    RunFilter(ResampleJob),
    /// The audio is already at the target rate; call `downmix` next.
    AlreadyAtTargetRate,
    /// The request was rejected; the machine is in `Failed`.
    Rejected,
}

/// What the caller must do after `downmix`.
pub enum MixStep {
    /// Run the engine on the job, then call `engine_completed`.
    RunEngine(EngineJob),
    /// The request was rejected; the machine is in `Failed`.
    Rejected,
}

/// The per-request orchestrator: the engine configuration and the request's
/// position in the pipeline. The engine context itself is shared,
/// serialized state and lives with the caller.
pub struct SimpleTranscriber {
    pub config: WhisperConfig,
    pub state: PipelineState,
}

/// All segment texts of the engine's answer, concatenated in order.
pub open spec fn spec_combined(raw: Seq<EngineSegment>) -> Seq<char>
    decreases raw.len(),
{
    if raw.len() == 0 {
        Seq::empty()
    } else {
        spec_combined(raw.drop_last()) + raw.last().text@
    }
}

impl SimpleTranscriber {
    /// The machine's standing invariant: audio can only be waiting on the
    /// engine if it passed the one-second floor.
    pub open spec fn wf(&self) -> bool {
        match self.state {
            PipelineState::Resampling { channels, expected_frames } => channels >= 1,
            PipelineState::Mixing { samples, channels } => channels >= 1,
            PipelineState::EngineInvocation { frames } => frames >= MIN_ENGINE_FRAMES,
            _ => true,
        }
    }

    /// A fresh orchestrator holding the given configuration snapshot.
    pub fn new(config: WhisperConfig) -> (t: Self)
        ensures
            t.config == config,
            t.state is Idle,
            t.wf(),
    {
        SimpleTranscriber { config, state: PipelineState::Idle }
    }

    /// Accept one request's audio. Empty audio is rejected outright; audio
    /// already at the target rate skips the filter unchanged; anything else
    /// is split into channel rows for the sinc filter, or rejected when it
    /// holds no whole frame.
    pub fn begin(&mut self, input: InputAudio) -> (step: BeginStep)
        requires
            old(self).state is Idle,
            input.channels >= 1,
            input.sample_rate >= 1,
            spec_expected_frames(
                input.data@.len() as int / input.channels as int,
                input.sample_rate,
            ) <= usize::MAX,
        ensures
            final(self).config == old(self).config,
            final(self).wf(),
            ({
                let samples = input.data@;
                let frames = samples.len() as int / input.channels as int;
                if samples.len() == 0 {
                    &&& final(self).state matches PipelineState::Failed { error }
                        && error matches TranscribeError::Validation(v)
                        && v == ValidationError::EmptyAudio
                    &&& step is Rejected
                } else if input.sample_rate == TARGET_SAMPLE_RATE {
                    &&& final(self).state matches PipelineState::Mixing { samples: s, channels }
                        && s@ == samples
                        && channels == input.channels
                    &&& step is AlreadyAtTargetRate
                } else if frames == 0 {
                    &&& final(self).state matches PipelineState::Failed { error }
                        && error matches TranscribeError::Resampling(r)
                        && r == ResamplingError::NoFrames
                    &&& step is Rejected
                } else {
                    &&& step matches BeginStep::RunFilter(job)
                        && job.channels_data.deep_view() == spec_deinterleaved(
                        samples,
                        input.channels as int,
                    )
                        && job.source_rate == input.sample_rate
                        && job.expected_frames == spec_expected_frames(frames, input.sample_rate)
                    &&& final(self).state matches PipelineState::Resampling {
                        channels,
                        expected_frames,
                    }
                        && channels == input.channels
                        && expected_frames == spec_expected_frames(frames, input.sample_rate)
                }
            }),
    {
        if input.data.len() == 0 {
            self.state = PipelineState::Failed {
                error: TranscribeError::Validation(ValidationError::EmptyAudio),
            };
            return BeginStep::Rejected;
        }
        match plan_resample_to_16khz(input.data.as_slice(), input.sample_rate, input.channels) {
            Ok(ResamplePlan::Passthrough(out)) => {
                self.state = PipelineState::Mixing { samples: out, channels: input.channels };
                BeginStep::AlreadyAtTargetRate
            },
            Ok(ResamplePlan::Filter(job)) => {
                self.state = PipelineState::Resampling {
                    channels: input.channels,
                    expected_frames: job.expected_frames,
                };
                BeginStep::RunFilter(job)
            },
            Err(e) => {
                self.state = PipelineState::Failed { error: TranscribeError::Resampling(e) };
                BeginStep::Rejected
            },
        }
    }

    /// Take the sinc filter's per-channel rows back: drop the filter's
    /// leading `delay` frames, keep the expected frame count, re-interleave,
    /// and move on to the downmix.
    pub fn resampled(&mut self, rows: Vec<Vec<i32>>, delay: usize)
        requires
            old(self).wf(),
            old(self).state matches PipelineState::Resampling { channels, expected_frames }
                && rows@.len() == channels
                && delay + expected_frames <= usize::MAX,
            forall|c: int|
                0 <= c < rows@.len() ==> #[trigger] rows@[c]@.len() == rows@[0]@.len(),
            rows@[0]@.len() * rows@.len() <= usize::MAX,
        ensures
            final(self).config == old(self).config,
            final(self).wf(),
            ({
                let channels = old(self).state->Resampling_channels;
                let expected = old(self).state->Resampling_expected_frames;
                let avail = rows@[0]@.len() as int;
                let end = if delay + expected <= avail {
                    delay + expected
                } else {
                    avail as int
                };
                let start = if delay as int <= end {
                    delay as int
                } else {
                    end
                };
                final(self).state matches PipelineState::Mixing { samples, channels: c2 }
                    && c2 == channels
                    && samples@ == spec_interleaved_segment(rows.deep_view(), start, end)
            }),
    {
        let mut st = PipelineState::Idle;
        core::mem::swap(&mut st, &mut self.state);
        match st {
            PipelineState::Resampling { channels, expected_frames } => {
                let samples = finish_resample(&rows, delay, expected_frames);
                self.state = PipelineState::Mixing { samples, channels };
            },
            _ => {
                proof {
                    assert(false);
                }
            },
        }
    }

    /// The one-second floor check and the fold to mono. Audio shorter than
    /// `MIN_ENGINE_FRAMES` whole frames is rejected here, before any engine
    /// work; anything longer is downmixed and handed over as an engine job
    /// carrying this machine's parameter snapshot.
    pub fn downmix(&mut self) -> (step: MixStep)
        requires
            old(self).wf(),
            old(self).state is Mixing,
        ensures
            final(self).config == old(self).config,
            final(self).wf(),
            ({
                let samples = old(self).state->Mixing_samples@;
                let channels = old(self).state->Mixing_channels as int;
                let frames = samples.len() as int / channels;
                if frames < MIN_ENGINE_FRAMES {
                    &&& final(self).state matches PipelineState::Failed { error }
                        && error matches TranscribeError::Validation(v)
                        && v == ValidationError::TooShort
                    &&& step is Rejected
                } else {
                    &&& step matches MixStep::RunEngine(job)
                        && job.mono@.len() == frames
                        && (forall|f: int|
                            0 <= f < frames ==> job.mono@[f] == spec_mono_mix(samples, channels)[f])
                        && job.params == spec_engine_params(old(self).config)
                    &&& final(self).state matches PipelineState::EngineInvocation { frames: fr }
                        && fr == frames
                }
            }),
    {
        let mut st = PipelineState::Idle;
        core::mem::swap(&mut st, &mut self.state);
        match st {
            PipelineState::Mixing { samples, channels } => {
                let frames = samples.len() / channels;
                if frames < MIN_ENGINE_FRAMES {
                    self.state = PipelineState::Failed {
                        error: TranscribeError::Validation(ValidationError::TooShort),
                    };
                    return MixStep::Rejected;
                }
                let mono = downmix_to_mono(samples.as_slice(), channels);
                self.state = PipelineState::EngineInvocation { frames };
                MixStep::RunEngine(
                    EngineJob {
                        mono,
                        params: EngineParams {
                            language: self.config.language.clone(),
                            best_of: 1,
                            suppress_special_tokens: true,
                            emit_timestamps: true,
                            audio_context: self.config.audio_context,
                            no_speech_threshold_micros: self.config.no_speech_threshold_micros,
                            num_threads: self.config.num_threads,
                        },
                    },
                )
            },
            _ => {
                proof {
                    assert(false);
                }
                MixStep::Rejected
            },
        }
    }

    /// Take the engine's answer. A failure aborts the whole request — no
    /// partial segment list survives; an answer moves on to scoring.
    pub fn engine_completed(&mut self, result: Result<Vec<EngineSegment>, String>) -> (accepted:
        bool)
        requires
            old(self).wf(),
            old(self).state is EngineInvocation,
        ensures
            final(self).config == old(self).config,
            final(self).wf(),
            match result {
                Ok(raw) => accepted && (final(self).state matches PipelineState::Scoring { raw: r }
                    && r == raw),
                Err(msg) => !accepted && (final(self).state matches PipelineState::Failed { error }
                    && error matches TranscribeError::Engine(m) && m == msg),
            },
    {
        match result {
            Ok(raw) => {
                self.state = PipelineState::Scoring { raw };
                true
            },
            Err(msg) => {
                self.state = PipelineState::Failed { error: TranscribeError::Engine(msg) };
                false
            },
        }
    }

    /// Score each raw segment and assemble the final output: segments in
    /// engine-reported order, each with its derived confidence, and all
    /// texts concatenated with no separator.
    pub fn assemble(&mut self) -> (output: TranscribeOutput)
        requires
            old(self).wf(),
            old(self).state is Scoring,
        ensures
            final(self).config == old(self).config,
            final(self).wf(),
            final(self).state is Done,
            ({
                let raw = old(self).state->Scoring_raw@;
                &&& output.segments@.len() == raw.len()
                &&& forall|i: int|
                    0 <= i < raw.len() ==> {
                        let s = #[trigger] output.segments@[i];
                        &&& s.start == raw[i].start
                        &&& s.end == raw[i].end
                        &&& s.text == raw[i].text
                        &&& s.confidence == spec_confidence(raw[i].token_logprob_micros@)
                    }
                &&& output.combined@ == spec_combined(raw)
            }),
    {
        let mut st = PipelineState::Idle;
        core::mem::swap(&mut st, &mut self.state);
        match st {
            PipelineState::Scoring { raw } => {
                let ghost raw_seq = raw@;
                let n = raw.len();
                let mut combined = String::new();
                let mut segments: Vec<Segment> = Vec::new();
                let mut i: usize = 0;
                while i < n
                    invariant
                        n == raw@.len(),
                        raw@ == raw_seq,
                        i <= n,
                        segments@.len() == i,
                        combined@ == spec_combined(raw_seq.take(i as int)),
                        forall|k: int|
                            0 <= k < i ==> {
                                let s = #[trigger] segments@[k];
                                &&& s.start == raw_seq[k].start
                                &&& s.end == raw_seq[k].end
                                &&& s.text == raw_seq[k].text
                                &&& s.confidence == spec_confidence(
                                    raw_seq[k].token_logprob_micros@,
                                )
                            },
                    decreases n - i,
                {
                    let seg = &raw[i];
                    let confidence = calculate_segment_confidence(
                        seg.token_logprob_micros.as_slice(),
                    );
                    combined.append(seg.text.as_str());
                    segments.push(
                        Segment { start: seg.start, end: seg.end, text: seg.text.clone(), confidence },
                    );
                    proof {
                        assert(raw_seq.take(i + 1).drop_last() =~= raw_seq.take(i as int));
                        assert(raw_seq.take(i + 1).last() == raw_seq[i as int]);
                    }
                    i = i + 1;
                }
                proof {
                    assert(raw_seq.take(n as int) =~= raw_seq);
                }
                self.state = PipelineState::Done;
                TranscribeOutput { combined, segments }
            },
            _ => {
                proof {
                    assert(false);
                }
                TranscribeOutput { combined: String::new(), segments: Vec::new() }
            },
        }
    }
}

} // verus!
