//! The transcription pipeline: resampling plan, downmix, confidence
//! scoring, engine configuration and the orchestrating state machine.

pub mod config;
pub mod mixer;
pub mod resampler;
pub mod scorer;
pub mod transcriber;
