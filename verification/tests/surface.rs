use open_transcribe::cli::validate_bit_depth;
use open_transcribe::config::ClientConfig;
use open_transcribe::download::{get_download_info, list_available_models, validate_model};
use open_transcribe::text::{parse_u32_or, parse_u8_or, str_contains, u8_to_string};
use open_transcribe::whisper::config::WhisperConfig;

#[test]
fn bit_depth_accepts_the_three_wire_depths() {
    assert_eq!(validate_bit_depth("16"), Ok(16));
    assert_eq!(validate_bit_depth("24"), Ok(24));
    assert_eq!(validate_bit_depth("32"), Ok(32));
    assert_eq!(validate_bit_depth("+16"), Ok(16));
}

#[test]
fn bit_depth_rejects_other_numbers() {
    assert_eq!(
        validate_bit_depth("8"),
        Err("Bit depth must be 16, 24, or 32".to_string())
    );
    assert_eq!(
        validate_bit_depth("48"),
        Err("Bit depth must be 16, 24, or 32".to_string())
    );
}

#[test]
fn bit_depth_rejects_non_numbers() {
    assert_eq!(
        validate_bit_depth("abc"),
        Err("Invalid bit depth value".to_string())
    );
    assert_eq!(
        validate_bit_depth(""),
        Err("Invalid bit depth value".to_string())
    );
    // 999 does not fit a byte, so it never parses at all.
    assert_eq!(
        validate_bit_depth("999"),
        Err("Invalid bit depth value".to_string())
    );
    assert_eq!(
        validate_bit_depth("-16"),
        Err("Invalid bit depth value".to_string())
    );
}

#[test]
fn numeric_fields_fall_back_to_their_defaults() {
    assert_eq!(parse_u32_or("44100", 16000), 44100);
    assert_eq!(parse_u32_or("", 16000), 16000);
    assert_eq!(parse_u32_or("x", 16000), 16000);
    assert_eq!(parse_u32_or("4294967296", 5), 5);
    assert_eq!(parse_u32_or("+7", 0), 7);
    assert_eq!(parse_u8_or("24", 16), 24);
    assert_eq!(parse_u8_or("banana", 16), 16);
}

#[test]
fn byte_values_render_in_decimal() {
    assert_eq!(u8_to_string(0), "0");
    assert_eq!(u8_to_string(8), "8");
    assert_eq!(u8_to_string(42), "42");
    assert_eq!(u8_to_string(255), "255");
}

#[test]
fn substring_search_finds_patterns() {
    assert!(str_contains("small.en-tdrz", "tdrz"));
    assert!(!str_contains("small.en", "tdrz"));
    assert!(str_contains("abc", ""));
    assert!(!str_contains("ab", "abc"));
}

#[test]
fn client_config_file_mode() {
    let c = ClientConfig::new_file_mode(
        "http://localhost:8080".to_string(),
        "audio.wav".to_string(),
        44100,
        2,
        24,
    );
    assert_eq!(c.server_url, "http://localhost:8080");
    assert_eq!(c.audio_file, Some("audio.wav".to_string()));
    assert_eq!(c.sample_rate, 44100);
    assert_eq!(c.channels, 2);
    assert_eq!(c.bit_depth, 24);
    assert!(!c.record_mode);
    assert_eq!(c.record_duration, 0);
}

#[test]
fn client_config_record_mode() {
    let c = ClientConfig::new_record_mode("http://h:1".to_string(), 16000, 1, 16, 10);
    assert_eq!(c.server_url, "http://h:1");
    assert_eq!(c.audio_file, None);
    assert!(c.record_mode);
    assert_eq!(c.record_duration, 10);
}

#[test]
fn whisper_config_defaults_and_builders() {
    let c = WhisperConfig::new();
    assert_eq!(c.model_path, "./models/ggml-base.en.bin");
    assert!(c.use_gpu);
    assert_eq!(c.language, "en");
    assert_eq!(c.audio_context, 768);
    assert_eq!(c.no_speech_threshold_micros, 600_000);
    assert_eq!(c.num_threads, 4);

    let c = c
        .with_model_path("./models/ggml-tiny.bin".to_string())
        .with_language("de".to_string())
        .with_gpu(false);
    assert_eq!(c.model_path, "./models/ggml-tiny.bin");
    assert_eq!(c.language, "de");
    assert!(!c.use_gpu);
    assert_eq!(c.audio_context, 768);
}

#[test]
fn whisper_config_flags_out_of_range_values() {
    let mut c = WhisperConfig::new();
    let a = c.advisories();
    assert!(a.audio_context_in_range);
    assert!(a.no_speech_threshold_in_range);
    assert!(a.num_threads_valid);

    c.audio_context = 0;
    c.no_speech_threshold_micros = 1_500_000;
    c.num_threads = 0;
    let a = c.advisories();
    assert!(!a.audio_context_in_range);
    assert!(!a.no_speech_threshold_in_range);
    assert!(!a.num_threads_valid);
}

#[test]
fn known_models_validate() {
    assert!(validate_model("tiny").is_ok());
    assert!(validate_model("base.en").is_ok());
    assert!(validate_model("small.en-tdrz").is_ok());
    assert!(validate_model("large-v3-turbo-q8_0").is_ok());
}

#[test]
fn unknown_models_are_refused_with_the_listing() {
    let err = validate_model("nonsense").unwrap_err();
    let expected = format!("Invalid model: nonsense\n{}", list_available_models());
    assert_eq!(err, expected);
    assert!(validate_model("TINY").is_err());
    assert!(validate_model("").is_err());
}

#[test]
fn the_listing_groups_models_by_class() {
    // Reconstruct the listing independently, grouping by the prefix before
    // the first '.' or '-'.
    let names = [
        "tiny",
        "tiny.en",
        "tiny-q5_1",
        "tiny.en-q5_1",
        "tiny-q8_0",
        "base",
        "base.en",
        "base-q5_1",
        "base.en-q5_1",
        "base-q8_0",
        "small",
        "small.en",
        "small.en-tdrz",
        "small-q5_1",
        "small.en-q5_1",
        "small-q8_0",
        "medium",
        "medium.en",
        "medium-q5_0",
        "medium.en-q5_0",
        "medium-q8_0",
        "large-v1",
        "large-v2",
        "large-v2-q5_0",
        "large-v2-q8_0",
        "large-v3",
        "large-v3-q5_0",
        "large-v3-turbo",
        "large-v3-turbo-q5_0",
        "large-v3-turbo-q8_0",
    ];
    let mut expected = String::from("\nAvailable models:");
    let mut current = "";
    for name in names {
        let class = name.split(&['.', '-'][..]).next().unwrap_or("");
        if class != current {
            expected.push_str(&format!("\n {class}"));
            current = class;
        }
        expected.push_str(&format!(" {name}"));
    }
    expected.push_str("\n\n");
    expected.push_str("___________________________________________________________\n");
    expected.push_str(".en = english-only  -q5_[01] = quantized  -tdrz = tinydiarize\n");
    assert_eq!(list_available_models(), expected);
}

#[test]
fn download_info_puts_diarization_models_elsewhere() {
    let (src, pfx) = get_download_info("small.en-tdrz");
    assert_eq!(src, "https://huggingface.co/akashmjn/tinydiarize-whisper.cpp");
    assert_eq!(pfx, "resolve/main/ggml");
    let (src, pfx) = get_download_info("base");
    assert_eq!(src, "https://huggingface.co/ggerganov/whisper.cpp");
    assert_eq!(pfx, "resolve/main/ggml");
}
