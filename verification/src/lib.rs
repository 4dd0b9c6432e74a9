//! Audio normalization and transcription-orchestration pipeline.
//!
//! Raw PCM byte streams (16/24/32-bit signed little-endian) are decoded into
//! quantized integer sample buffers, resampled to the engine's fixed 16 kHz
//! rate, downmixed to mono, handed to an external speech-recognition engine,
//! and the engine's per-token log-probabilities are folded into per-segment
//! confidence values. The decisions of that pipeline live here, fully
//! verified; the float-valued sinc filter and the engine itself are external
//! collaborators driven through the orchestrator's state machine.

pub mod audio;
pub mod cli;
pub mod config;
pub mod download;
pub mod dto;
pub mod text;
pub mod whisper;
