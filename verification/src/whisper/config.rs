//! Engine configuration: a snapshot loaded once at startup and reused for
//! every transcription call.
//!
//! The no-speech threshold is nominally a probability in [0.0, 1.0]; it is
//! carried here in fixed point, millionths, and turned back into a float
//! only at the engine boundary. Out-of-range values are accepted but
//! flagged, never rejected.

use vstd::prelude::*;

verus! {

/// Configuration snapshot for the speech-recognition engine.
#[derive(Debug)]
pub struct WhisperConfig {
    /// Where the model weights live on disk.
    pub model_path: String,
    /// Whether the engine may use the GPU.
    pub use_gpu: bool,
    /// The single configured language tag.
    pub language: String,
    /// The engine's audio-context window size; advisory range 1..=4096.
    pub audio_context: i32,
    /// No-speech probability threshold in millionths; advisory range
    /// 0..=1_000_000, standing for 0.0..=1.0.
    pub no_speech_threshold_micros: u32,
    /// Worker threads for one engine call; must be at least 1 to be usable.
    pub num_threads: i32,
}

/// Which advisory ranges a configuration honors. Values outside them are
/// kept and used; these flags only drive warnings.
#[derive(Clone, Copy, PartialEq, Eq, Structural, Debug)]
pub struct ConfigAdvisories {
    pub audio_context_in_range: bool,
    pub no_speech_threshold_in_range: bool,
    pub num_threads_valid: bool,
}

impl Clone for WhisperConfig {
    fn clone(&self) -> (c: Self)
        ensures
            c == *self,
    {
        WhisperConfig {
            model_path: self.model_path.clone(),
            use_gpu: self.use_gpu,
            language: self.language.clone(),
            audio_context: self.audio_context,
            no_speech_threshold_micros: self.no_speech_threshold_micros,
            num_threads: self.num_threads,
        }
    }
}

impl WhisperConfig {
    /// The built-in defaults. The process environment may override any of
    /// them at startup; that override happens outside the library and hands
    /// the result back through the builder methods.
    pub fn new() -> (c: Self)
        ensures
            c.model_path@ == "./models/ggml-base.en.bin"@,
            c.use_gpu == true,
            c.language@ == "en"@,
            c.audio_context == 768,
            c.no_speech_threshold_micros == 600000,
            c.num_threads == 4,
    {
        WhisperConfig {
            model_path: String::from_str("./models/ggml-base.en.bin"),
            use_gpu: true,
            language: String::from_str("en"),
            audio_context: 768,
            no_speech_threshold_micros: 600000,
            num_threads: 4,
        }
    }

    /// Replace the model path, leaving everything else as it was.
    pub fn with_model_path(self, path: String) -> (c: Self)
        ensures
            c.model_path == path,
            c.use_gpu == self.use_gpu,
            c.language == self.language,
            c.audio_context == self.audio_context,
            c.no_speech_threshold_micros == self.no_speech_threshold_micros,
            c.num_threads == self.num_threads,
    {
        WhisperConfig { model_path: path, ..self }
    }

    /// Replace the language tag, leaving everything else as it was.
    pub fn with_language(self, language: String) -> (c: Self)
        ensures
            c.language == language,
            c.model_path == self.model_path,
            c.use_gpu == self.use_gpu,
            c.audio_context == self.audio_context,
            c.no_speech_threshold_micros == self.no_speech_threshold_micros,
            c.num_threads == self.num_threads,
    {
        WhisperConfig { language, ..self }
    }

    /// Set the GPU flag, leaving everything else as it was.
    pub fn with_gpu(self, use_gpu: bool) -> (c: Self)
        ensures
            c.use_gpu == use_gpu,
            c.model_path == self.model_path,
            c.language == self.language,
            c.audio_context == self.audio_context,
            c.no_speech_threshold_micros == self.no_speech_threshold_micros,
            c.num_threads == self.num_threads,
    {
        WhisperConfig { use_gpu, ..self }
    }

    /// Check the advisory ranges. Out-of-range values are flagged, not
    /// rejected.
    pub fn advisories(&self) -> (a: ConfigAdvisories)
        ensures
            a.audio_context_in_range == (1 <= self.audio_context <= 4096),
            a.no_speech_threshold_in_range == (self.no_speech_threshold_micros <= 1000000),
            a.num_threads_valid == (self.num_threads >= 1),
    {
        ConfigAdvisories {
            audio_context_in_range: 1 <= self.audio_context && self.audio_context <= 4096,
            no_speech_threshold_in_range: self.no_speech_threshold_micros <= 1000000,
            num_threads_valid: self.num_threads >= 1,
        }
    }
}

impl Default for WhisperConfig {
    /// The same built-in defaults as `new`.
    fn default() -> (c: Self)
        ensures
            c.model_path@ == "./models/ggml-base.en.bin"@,
            c.use_gpu == true,
            c.language@ == "en"@,
            c.audio_context == 768,
            c.no_speech_threshold_micros == 600000,
            c.num_threads == 4,
    {
        WhisperConfig::new()
    }
}

} // verus!
