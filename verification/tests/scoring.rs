use open_transcribe::whisper::scorer::{calculate_segment_confidence, Confidence};

#[test]
fn zero_tokens_score_zero_confidence() {
    assert_eq!(calculate_segment_confidence(&[]), Confidence::NoTokens);
}

#[test]
fn all_certain_tokens_score_mean_zero() {
    // log-probability 0 for every token: exp(0) == 1 downstream.
    assert_eq!(
        calculate_segment_confidence(&[0, 0, 0]),
        Confidence::MeanLogProb { micros: 0 }
    );
}

#[test]
fn mean_is_the_arithmetic_mean_of_log_probs() {
    assert_eq!(
        calculate_segment_confidence(&[-1_000_000, -2_000_000]),
        Confidence::MeanLogProb {
            micros: -1_500_000
        }
    );
    assert_eq!(
        calculate_segment_confidence(&[-300_000]),
        Confidence::MeanLogProb { micros: -300_000 }
    );
}

#[test]
fn mean_truncates_toward_zero() {
    assert_eq!(
        calculate_segment_confidence(&[-1, -2]),
        Confidence::MeanLogProb { micros: -1 }
    );
    assert_eq!(
        calculate_segment_confidence(&[1, 2]),
        Confidence::MeanLogProb { micros: 1 }
    );
}
