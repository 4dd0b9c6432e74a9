//! Confidence scoring: fold one segment's per-token log-probabilities into
//! a single scalar.
//!
//! A segment with no tokens scores exactly zero. Otherwise the score is the
//! exponential of the arithmetic mean of the log-probabilities — the
//! geometric mean of the token probabilities, a value in (0, 1] whenever
//! every log-probability is nonpositive. Log-probabilities are carried in
//! fixed point, millionths of a log unit; the exponential itself is applied
//! by the caller at the float edge, so what is computed here — the choice of
//! zero and the mean — is exact.

use vstd::prelude::*;
use vstd::arithmetic::div_mod::*;
use crate::whisper::mixer::spec_div_trunc;

verus! {

/// A segment's confidence before the exponential is applied.
#[derive(Clone, Copy, PartialEq, Eq, Structural, Debug)]
pub enum Confidence {
    /// The segment had no tokens: the confidence is exactly zero.
    NoTokens,
    /// The mean token log-probability, in millionths of a log unit; the
    /// confidence is its exponential, so a mean of zero is a confidence of
    /// exactly one.
    MeanLogProb { micros: i64 },
}

/// Sum of a log-probability sequence.
pub open spec fn spec_logprob_sum(tokens: Seq<i64>) -> int
    decreases tokens.len(),
{
    if tokens.len() == 0 {
        0
    } else {
        spec_logprob_sum(tokens.drop_last()) + tokens.last()
    }
}

/// The confidence owed for one segment's token log-probabilities.
pub open spec fn spec_confidence(tokens: Seq<i64>) -> Confidence {
    if tokens.len() == 0 {
        Confidence::NoTokens
    } else {
        Confidence::MeanLogProb {
            micros: spec_div_trunc(spec_logprob_sum(tokens), tokens.len() as int) as i64,
        }
    }
}

/// The sum of `n` tokens lies between `n` times the extremes.
proof fn lemma_logprob_sum_bounds(tokens: Seq<i64>)
    ensures
        tokens.len() * (i64::MIN as int) <= spec_logprob_sum(tokens) <= tokens.len() * (
        i64::MAX as int),
    decreases tokens.len(),
{
    if tokens.len() == 0 {
    } else {
        let prefix = tokens.drop_last();
        lemma_logprob_sum_bounds(prefix);
        assert(tokens.len() * (i64::MIN as int) == prefix.len() * (i64::MIN as int) + i64::MIN)
            by (nonlinear_arith)
            requires
                tokens.len() == prefix.len() + 1,
        ;
        assert(tokens.len() * (i64::MAX as int) == prefix.len() * (i64::MAX as int) + i64::MAX)
            by (nonlinear_arith)
            requires
                tokens.len() == prefix.len() + 1,
        ;
    }
}

/// Score one segment from its token log-probabilities: zero without tokens,
/// else the truncated mean of the log-probabilities, whose exponential the
/// caller takes.
pub fn calculate_segment_confidence(token_logprob_micros: &[i64]) -> (c: Confidence)
    ensures
        c == spec_confidence(token_logprob_micros@),
{
    let n = token_logprob_micros.len();
    if n == 0 {
        return Confidence::NoTokens;
    }
    let mut acc: i128 = 0;
    let mut i: usize = 0;
    while i < n
        invariant
            n == token_logprob_micros@.len(),
            n <= usize::MAX,
            i <= n,
            acc == spec_logprob_sum(token_logprob_micros@.take(i as int)),
            i * (i64::MIN as int) <= acc <= i * (i64::MAX as int),
        decreases n - i,
    {
        proof {
            assert((i + 1) * (i64::MIN as int) == i * (i64::MIN as int) + i64::MIN)
                by (nonlinear_arith);
            assert((i + 1) * (i64::MAX as int) == i * (i64::MAX as int) + i64::MAX)
                by (nonlinear_arith);
            assert(i * (i64::MIN as int) >= (usize::MAX as int) * (i64::MIN as int))
                by (nonlinear_arith)
                requires
                    0 <= i <= usize::MAX,
            ;
            assert(i * (i64::MAX as int) <= (usize::MAX as int) * (i64::MAX as int))
                by (nonlinear_arith)
                requires
                    0 <= i <= usize::MAX,
            ;
            assert(token_logprob_micros@.take(i + 1).drop_last() =~= token_logprob_micros@.take(
                i as int,
            ));
        }
        acc = acc + (token_logprob_micros[i] as i128);
        i = i + 1;
    }
    proof {
        assert(token_logprob_micros@.take(n as int) =~= token_logprob_micros@);
        assert(n * (i64::MIN as int) >= (usize::MAX as int) * (i64::MIN as int))
            by (nonlinear_arith)
            requires
                0 <= n <= usize::MAX,
        ;
        assert(n * (i64::MAX as int) <= (usize::MAX as int) * (i64::MAX as int))
            by (nonlinear_arith)
            requires
                0 <= n <= usize::MAX,
        ;
    }
    let mean: i128 = if acc >= 0 {
        ((acc as u128) / (n as u128)) as i128
    } else {
        -((((-acc) as u128) / (n as u128)) as i128)
    };
    proof {
        if acc >= 0 {
            lemma_div_is_ordered(acc as int, n as int * (i64::MAX as int), n as int);
            lemma_div_multiples_vanish(i64::MAX as int, n as int);
            assert(n as int * (i64::MAX as int) == (i64::MAX as int) * (n as int))
                by (nonlinear_arith);
            lemma_div_pos_is_pos(acc as int, n as int);
        } else {
            lemma_div_is_ordered(-(acc as int), n as int * (-(i64::MIN as int)), n as int);
            lemma_div_multiples_vanish(-(i64::MIN as int), n as int);
            assert(n as int * (-(i64::MIN as int)) == (-(i64::MIN as int)) * (n as int))
                by (nonlinear_arith);
            lemma_div_pos_is_pos(-(acc as int), n as int);
        }
        assert(mean == spec_div_trunc(acc as int, n as int));
    }
    Confidence::MeanLogProb { micros: mean as i64 }
}

/// The sum of all-zero log-probabilities is zero.
proof fn lemma_zero_sum(tokens: Seq<i64>)
    requires
        forall|i: int| 0 <= i < tokens.len() ==> tokens[i] == 0,
    ensures
        spec_logprob_sum(tokens) == 0,
    decreases tokens.len(),
{
    if tokens.len() > 0 {
        lemma_zero_sum(tokens.drop_last());
    }
}

/// The truncated mean of i64 log-probabilities fits back into an i64.
proof fn lemma_mean_in_range(tokens: Seq<i64>)
    requires
        tokens.len() > 0,
    ensures
        i64::MIN <= spec_div_trunc(spec_logprob_sum(tokens), tokens.len() as int) <= i64::MAX,
{
    let s = spec_logprob_sum(tokens);
    let n = tokens.len() as int;
    lemma_logprob_sum_bounds(tokens);
    if s >= 0 {
        lemma_div_is_ordered(s, n * (i64::MAX as int), n);
        lemma_div_multiples_vanish(i64::MAX as int, n);
        assert(n * (i64::MAX as int) == (i64::MAX as int) * n) by (nonlinear_arith);
        lemma_div_pos_is_pos(s, n);
    } else {
        lemma_div_is_ordered(-s, n * (-(i64::MIN as int)), n);
        lemma_div_multiples_vanish(-(i64::MIN as int), n);
        assert(n * (-(i64::MIN as int)) == (-(i64::MIN as int)) * n) by (nonlinear_arith);
        assert(-s <= n * (-(i64::MIN as int))) by (nonlinear_arith)
            requires
                s >= n * (i64::MIN as int),
        ;
        lemma_div_pos_is_pos(-s, n);
    }
}

/// A segment whose tokens are all fully certain (log-probability zero)
/// scores a mean of zero, hence a confidence of exactly one.
pub proof fn lemma_certain_tokens_score_one(tokens: Seq<i64>)
    requires
        tokens.len() > 0,
        forall|i: int| 0 <= i < tokens.len() ==> tokens[i] == 0,
    ensures
        spec_confidence(tokens) == (Confidence::MeanLogProb { micros: 0i64 }),
{
    lemma_zero_sum(tokens);
    lemma_div_basics(tokens.len() as int);
    assert(spec_div_trunc(0, tokens.len() as int) == 0);
}

/// With every log-probability nonpositive the mean is nonpositive, so the
/// confidence lands in (0, 1].
pub proof fn lemma_nonpositive_logprobs_bound(tokens: Seq<i64>)
    requires
        tokens.len() > 0,
        forall|i: int| 0 <= i < tokens.len() ==> tokens[i] <= 0,
    ensures
        spec_confidence(tokens) matches Confidence::MeanLogProb { micros } && micros <= 0,
{
    let s = spec_logprob_sum(tokens);
    lemma_logprob_sum_nonpositive(tokens);
    lemma_mean_in_range(tokens);
    if s >= 0 {
        lemma_div_basics(tokens.len() as int);
    } else {
        lemma_div_pos_is_pos(-s, tokens.len() as int);
    }
}

/// The sum of nonpositive log-probabilities is nonpositive.
proof fn lemma_logprob_sum_nonpositive(tokens: Seq<i64>)
    requires
        forall|i: int| 0 <= i < tokens.len() ==> tokens[i] <= 0,
    ensures
        spec_logprob_sum(tokens) <= 0,
    decreases tokens.len(),
{
    if tokens.len() > 0 {
        lemma_logprob_sum_nonpositive(tokens.drop_last());
    }
}

} // verus!
