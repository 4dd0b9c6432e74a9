//! Downmix: fold a multi-channel interleaved buffer to mono by taking the
//! arithmetic mean of each frame's channel samples. Single-channel buffers
//! pass through unchanged, as the mean of one sample is the sample.

use vstd::prelude::*;
use vstd::arithmetic::div_mod::*;

verus! {

/// Integer division rounding toward zero, as the executable code divides.
pub open spec fn spec_div_trunc(a: int, b: int) -> int {
    if a >= 0 {
        a / b
    } else {
        -((-a) / b)
    }
}

/// Sum of the first `c` channel samples of frame `f`.
pub open spec fn spec_frame_sum(samples: Seq<i32>, channels: int, f: int, c: nat) -> int
    decreases c,
{
    if c == 0 {
        0
    } else {
        spec_frame_sum(samples, channels, f, (c - 1) as nat) + samples[f * channels + c - 1]
    }
}

/// The mono mix: one sample per whole frame, the truncated mean of the
/// frame's channels.
pub open spec fn spec_mono_mix(samples: Seq<i32>, channels: int) -> Seq<int> {
    Seq::new(
        samples.len() / (channels as nat),
        |f: int| spec_div_trunc(spec_frame_sum(samples, channels, f, channels as nat), channels),
    )
}

/// A one-channel mix returns every sample unchanged.
pub proof fn lemma_mono_identity(samples: Seq<i32>, f: int)
    requires
        0 <= f < samples.len(),
    ensures
        spec_mono_mix(samples, 1)[f] == samples[f] as int,
{
    assert(spec_frame_sum(samples, 1, f, 1) == spec_frame_sum(samples, 1, f, 0) + samples[f * 1
        + 0]);
    assert(f * 1 == f) by (nonlinear_arith);
    lemma_div_basics(samples.len() as int);
    let s = samples[f] as int;
    if s >= 0 {
        lemma_div_basics(s);
    } else {
        lemma_div_basics(-s);
    }
}

/// A two-channel mix averages each left/right pair.
pub proof fn lemma_stereo_mix(samples: Seq<i32>, f: int)
    requires
        0 <= f < samples.len() / 2,
    ensures
        spec_mono_mix(samples, 2)[f] == spec_div_trunc(
            samples[2 * f] as int + samples[2 * f + 1] as int,
            2,
        ),
{
    assert(spec_frame_sum(samples, 2, f, 2) == spec_frame_sum(samples, 2, f, 1) + samples[f * 2
        + 1]);
    assert(spec_frame_sum(samples, 2, f, 1) == spec_frame_sum(samples, 2, f, 0) + samples[f * 2
        + 0]);
    assert(f * 2 == 2 * f) by (nonlinear_arith);
}

/// Fold an interleaved buffer to mono: each output sample is the truncated
/// arithmetic mean of one frame's channel samples. Trailing samples of a
/// partial frame are dropped, as when splitting channels.
pub fn downmix_to_mono(samples: &[i32], channels: usize) -> (mono: Vec<i32>)
    requires
        channels >= 1,
    ensures
        mono@.len() == samples@.len() / (channels as nat),
        forall|f: int|
            0 <= f < mono@.len() ==> mono@[f] == spec_mono_mix(samples@, channels as int)[f],
{
    let frames = samples.len() / channels;
    proof {
        lemma_fundamental_div_mod(samples@.len() as int, channels as int);
        lemma_mod_division_less_than_divisor(samples@.len() as int, channels as int);
        assert(frames * channels == channels * frames) by (nonlinear_arith);
    }
    let mut mono: Vec<i32> = Vec::new();
    let mut f: usize = 0;
    let mut base: usize = 0;
    while f < frames
        invariant
            channels >= 1,
            f <= frames,
            frames == samples@.len() / (channels as nat),
            frames * channels <= samples@.len(),
            samples@.len() <= usize::MAX,
            base == f * channels,
            mono@.len() == f,
            forall|f2: int|
                0 <= f2 < f ==> mono@[f2] == spec_mono_mix(samples@, channels as int)[f2],
        decreases frames - f,
    {
        proof {
            assert(f * channels + channels == (f + 1) * channels) by (nonlinear_arith);
            assert((f + 1) * channels <= frames * channels) by (nonlinear_arith)
                requires
                    f + 1 <= frames,
                    channels >= 1,
            ;
        }
        let mut acc: i128 = 0;
        let mut c: usize = 0;
        while c < channels
            invariant
                channels >= 1,
                c <= channels,
                base + channels <= samples@.len(),
                samples@.len() <= usize::MAX,
                base == f * channels,
                acc == spec_frame_sum(samples@, channels as int, f as int, c as nat),
                c * (i32::MIN as int) <= acc <= c * (i32::MAX as int),
            decreases channels - c,
        {
            proof {
                assert((c + 1) * (i32::MIN as int) == c * (i32::MIN as int) + i32::MIN)
                    by (nonlinear_arith);
                assert((c + 1) * (i32::MAX as int) == c * (i32::MAX as int) + i32::MAX)
                    by (nonlinear_arith);
                assert(c * (i32::MIN as int) >= (usize::MAX as int) * (i32::MIN as int))
                    by (nonlinear_arith)
                    requires
                        0 <= c <= usize::MAX,
                ;
                assert(c * (i32::MAX as int) <= (usize::MAX as int) * (i32::MAX as int))
                    by (nonlinear_arith)
                    requires
                        0 <= c <= usize::MAX,
                ;
            }
            acc = acc + (samples[base + c] as i128);
            c = c + 1;
        }
        proof {
            assert(channels * (i32::MIN as int) >= (usize::MAX as int) * (i32::MIN as int))
                by (nonlinear_arith)
                requires
                    0 <= channels <= usize::MAX,
            ;
            assert(channels * (i32::MAX as int) <= (usize::MAX as int) * (i32::MAX as int))
                by (nonlinear_arith)
                requires
                    0 <= channels <= usize::MAX,
            ;
        }
        let mean: i128 = if acc >= 0 {
            ((acc as u128) / (channels as u128)) as i128
        } else {
            -((((-acc) as u128) / (channels as u128)) as i128)
        };
        proof {
            if acc >= 0 {
                lemma_div_is_ordered(acc as int, channels as int * (i32::MAX as int), channels as int);
                lemma_div_multiples_vanish(i32::MAX as int, channels as int);
                assert(channels as int * (i32::MAX as int) == (i32::MAX as int) * (channels as int))
                    by (nonlinear_arith);
                lemma_div_pos_is_pos(acc as int, channels as int);
            } else {
                lemma_div_is_ordered(-(acc as int), channels as int * -(i32::MIN as int), channels as int);
                lemma_div_multiples_vanish(-(i32::MIN as int), channels as int);
                assert(channels as int * (-(i32::MIN as int)) == (-(i32::MIN as int)) * (
                channels as int)) by (nonlinear_arith);
                lemma_div_pos_is_pos(-(acc as int), channels as int);
            }
            assert(mean == spec_div_trunc(acc as int, channels as int));
        }
        mono.push(mean as i32);
        f = f + 1;
        base = base + channels;
    }
    mono
}

} // verus!
