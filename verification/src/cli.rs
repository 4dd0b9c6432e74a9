//! The command-line surface as plain data: the parsed command and the
//! validation of the bit-depth argument. The argument parser itself is thin
//! plumbing and stays outside the library; it hands these values in.

use vstd::prelude::*;
use crate::text::lemma_parse_uint_nonneg;
use crate::text::parse_u8_decimal;
use crate::text::spec_parse_uint;

verus! {

/// One parsed invocation.
pub struct Cli {
    pub command: Commands,
}

/// The tool's three modes.
pub enum Commands {
    /// Run the transcription service.
    Serve { host: String, port: u16 },
    /// Send an existing audio file for transcription.
    TranscribeFile {
        audio_file: String,
        server_url: String,
        sample_rate: u32,
        channels: usize,
        bit_depth: u8,
    },
    /// Record from the microphone, then send the capture for transcription.
    Record {
        duration: u32,
        server_url: String,
        sample_rate: u32,
        channels: usize,
        bit_depth: u8,
    },
}

/// Accept a bit-depth argument exactly when it reads as one of the three
/// wire depths; name the failure otherwise: a number outside the set, or
/// text that is no byte-sized number at all.
pub fn validate_bit_depth(s: &str) -> (r: Result<u8, String>)
    ensures
        match spec_parse_uint(s@) {
            Some(v) => if v == 16 || v == 24 || v == 32 {
                r matches Ok(d) && d == v
            } else if v <= u8::MAX {
                r matches Err(m) && m@ == "Bit depth must be 16, 24, or 32"@
            } else {
                r matches Err(m) && m@ == "Invalid bit depth value"@
            },
            None => r matches Err(m) && m@ == "Invalid bit depth value"@,
        },
{
    proof {
        lemma_parse_uint_nonneg(s@);
    }
    match parse_u8_decimal(s) {
        Some(d) => if d == 16 || d == 24 || d == 32 {
            Ok(d)
        } else {
            Err(String::from_str("Bit depth must be 16, 24, or 32"))
        },
        None => Err(String::from_str("Invalid bit depth value")),
    }
}

} // verus!
