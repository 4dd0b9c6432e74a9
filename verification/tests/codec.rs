use open_transcribe::audio::{
    convert_audio_bytes_to_samples, convert_samples_to_audio_bytes, BitDepth, DecodeError,
};

#[test]
fn decode_16_bit_values() {
    // 256, -1, -32768, 32767 as little-endian 16-bit words
    let bytes = [0x00u8, 0x01, 0xFF, 0xFF, 0x00, 0x80, 0xFF, 0x7F];
    let samples = convert_audio_bytes_to_samples(&bytes, 16).unwrap();
    assert_eq!(samples, vec![256, -1, -32768, 32767]);
}

#[test]
fn decode_24_bit_values() {
    // 1, -1, -8388608, 8388607 as little-endian 24-bit groups
    let bytes = [
        0x01u8, 0x00, 0x00, 0xFF, 0xFF, 0xFF, 0x00, 0x00, 0x80, 0xFF, 0xFF, 0x7F,
    ];
    let samples = convert_audio_bytes_to_samples(&bytes, 24).unwrap();
    assert_eq!(samples, vec![1, -1, -8388608, 8388607]);
}

#[test]
fn decode_32_bit_values() {
    // 1, -1, i32::MIN, i32::MAX as little-endian 32-bit words
    let bytes = [
        0x01u8, 0x00, 0x00, 0x00, 0xFF, 0xFF, 0xFF, 0xFF, 0x00, 0x00, 0x00, 0x80, 0xFF, 0xFF,
        0xFF, 0x7F,
    ];
    let samples = convert_audio_bytes_to_samples(&bytes, 32).unwrap();
    assert_eq!(samples, vec![1, -1, i32::MIN, i32::MAX]);
}

#[test]
fn decode_empty_buffers() {
    assert_eq!(convert_audio_bytes_to_samples(&[], 16).unwrap(), vec![]);
    assert_eq!(convert_audio_bytes_to_samples(&[], 24).unwrap(), vec![]);
    assert_eq!(convert_audio_bytes_to_samples(&[], 32).unwrap(), vec![]);
}

#[test]
fn decode_rejects_odd_byte_count_for_16_bit() {
    let r = convert_audio_bytes_to_samples(&[0, 0, 0], 16);
    assert_eq!(r, Err(DecodeError::OddByteCount));
    assert_eq!(
        DecodeError::OddByteCount.message(),
        "Invalid 16-bit audio data: odd number of bytes"
    );
}

#[test]
fn decode_rejects_non_multiple_of_three_for_24_bit() {
    let r = convert_audio_bytes_to_samples(&[0, 0, 0, 0], 24);
    assert_eq!(r, Err(DecodeError::NotMultipleOfThree));
    assert_eq!(
        DecodeError::NotMultipleOfThree.message(),
        "Invalid 24-bit audio data: byte count not divisible by 3"
    );
}

#[test]
fn decode_rejects_non_multiple_of_four_for_32_bit() {
    let r = convert_audio_bytes_to_samples(&[0; 5], 32);
    assert_eq!(r, Err(DecodeError::NotMultipleOfFour));
    assert_eq!(
        DecodeError::NotMultipleOfFour.message(),
        "Invalid 32-bit audio data: byte count not divisible by 4"
    );
}

#[test]
fn decode_rejects_unsupported_depth() {
    let r = convert_audio_bytes_to_samples(&[0, 0], 8);
    assert_eq!(r, Err(DecodeError::UnsupportedDepth(8)));
    assert_eq!(
        DecodeError::UnsupportedDepth(8).message(),
        "Unsupported bit depth: 8"
    );
    assert_eq!(
        convert_audio_bytes_to_samples(&[0, 0], 0),
        Err(DecodeError::UnsupportedDepth(0))
    );
    assert_eq!(
        convert_audio_bytes_to_samples(&[0, 0], 255),
        Err(DecodeError::UnsupportedDepth(255))
    );
}

#[test]
fn encode_16_bit_values() {
    let bytes = convert_samples_to_audio_bytes(&[256, -1, -32768, 32767], 16).unwrap();
    assert_eq!(bytes, vec![0x00, 0x01, 0xFF, 0xFF, 0x00, 0x80, 0xFF, 0x7F]);
}

#[test]
fn encode_24_bit_emits_low_three_bytes() {
    let bytes = convert_samples_to_audio_bytes(&[1, -1, -8388608, 8388607], 24).unwrap();
    assert_eq!(
        bytes,
        vec![0x01, 0x00, 0x00, 0xFF, 0xFF, 0xFF, 0x00, 0x00, 0x80, 0xFF, 0xFF, 0x7F]
    );
}

#[test]
fn encode_rejects_unsupported_depth() {
    assert_eq!(
        convert_samples_to_audio_bytes(&[0], 12),
        Err(DecodeError::UnsupportedDepth(12))
    );
}

#[test]
fn codec_round_trip_16_bit() {
    let samples = vec![0, 1, -1, 100, -100, 32767, -32768, 12345, -12345];
    let bytes = convert_samples_to_audio_bytes(&samples, 16).unwrap();
    assert_eq!(convert_audio_bytes_to_samples(&bytes, 16).unwrap(), samples);
}

#[test]
fn codec_round_trip_24_bit() {
    let samples = vec![0, 1, -1, 8388607, -8388608, 1234567, -7654321];
    let bytes = convert_samples_to_audio_bytes(&samples, 24).unwrap();
    assert_eq!(convert_audio_bytes_to_samples(&bytes, 24).unwrap(), samples);
}

#[test]
fn codec_round_trip_32_bit() {
    let samples = vec![0, 1, -1, i32::MAX, i32::MIN, 123456789, -987654321];
    let bytes = convert_samples_to_audio_bytes(&samples, 32).unwrap();
    assert_eq!(convert_audio_bytes_to_samples(&bytes, 32).unwrap(), samples);
}

#[test]
fn frame_sizes_and_magnitudes() {
    assert_eq!(BitDepth::B16.frame_size(), 2);
    assert_eq!(BitDepth::B24.frame_size(), 3);
    assert_eq!(BitDepth::B32.frame_size(), 4);
    assert_eq!(BitDepth::B16.max_magnitude(), 32767);
    assert_eq!(BitDepth::B24.max_magnitude(), 8388607);
    assert_eq!(BitDepth::B32.max_magnitude(), 2147483647);
    assert_eq!(BitDepth::from_raw(16), Some(BitDepth::B16));
    assert_eq!(BitDepth::from_raw(24), Some(BitDepth::B24));
    assert_eq!(BitDepth::from_raw(32), Some(BitDepth::B32));
    assert_eq!(BitDepth::from_raw(8), None);
}
