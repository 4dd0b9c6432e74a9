//! Client-side configuration: where to send audio, in what format, and
//! whether it comes from a file or a fresh recording.

use vstd::prelude::*;

verus! {

/// One client invocation's settings.
#[derive(Debug)]
pub struct ClientConfig {
    pub server_url: String,
    /// The file to send, in file mode; `None` in record mode.
    pub audio_file: Option<String>,
    pub sample_rate: u32,
    pub channels: usize,
    pub bit_depth: u8,
    /// Whether audio is captured from the microphone instead of read from a
    /// file.
    pub record_mode: bool,
    /// Capture length in seconds; zero in file mode.
    pub record_duration: u32,
}

impl ClientConfig {
    /// A configuration that sends an existing file.
    pub fn new_file_mode(
        server_url: String,
        audio_file: String,
        sample_rate: u32,
        channels: usize,
        bit_depth: u8,
    ) -> (c: Self)
        ensures
            c.server_url == server_url,
            c.audio_file == Some(audio_file),
            c.sample_rate == sample_rate,
            c.channels == channels,
            c.bit_depth == bit_depth,
            c.record_mode == false,
            c.record_duration == 0,
    {
        ClientConfig {
            server_url,
            audio_file: Some(audio_file),
            sample_rate,
            channels,
            bit_depth,
            record_mode: false,
            record_duration: 0,
        }
    }

    /// A configuration that records from the microphone first.
    pub fn new_record_mode(
        server_url: String,
        sample_rate: u32,
        channels: usize,
        bit_depth: u8,
        record_duration: u32,
    ) -> (c: Self)
        ensures
            c.server_url == server_url,
            c.audio_file is None,
            c.sample_rate == sample_rate,
            c.channels == channels,
            c.bit_depth == bit_depth,
            c.record_mode == true,
            c.record_duration == record_duration,
    {
        ClientConfig {
            server_url,
            audio_file: None,
            sample_rate,
            channels,
            bit_depth,
            record_mode: true,
            record_duration,
        }
    }
}

} // verus!
