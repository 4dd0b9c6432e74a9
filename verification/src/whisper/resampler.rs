//! Rate conversion bookkeeping around the band-limited sinc filter.
//!
//! The filter itself computes new float samples and is an external
//! collaborator; everything decidable about the conversion is here: the 1:1
//! passthrough, the split of an interleaved buffer into per-channel rows,
//! the expected output frame count for a rate ratio, and the trim that
//! drops the filter's leading delay frames and re-interleaves the rest.

use vstd::prelude::*;
use vstd::arithmetic::div_mod::*;
use vstd::slice::slice_to_vec;

verus! {

/// The engine's fixed input rate in Hz; every buffer is converted to it.
pub const TARGET_SAMPLE_RATE: u32 = 16000;

/// Why a conversion request was refused.
#[derive(Clone, Copy, PartialEq, Eq, Structural, Debug)]
pub enum ResamplingError {
    /// The buffer holds no whole frame for the declared channel count.
    NoFrames,
}

impl ResamplingError {
    /// The cause, worded as it is reported to the caller.
    pub open spec fn spec_message(self) -> Seq<char> {
        "No audio frames to resample"@
    }

    pub fn message(&self) -> (m: String)
        ensures
            m@ == self.spec_message(),
    {
        String::from_str("No audio frames to resample")
    }
}

/// The per-channel rows handed to the sinc filter, with the bookkeeping the
/// trim step needs once the filter returns.
pub struct ResampleJob {
    /// One row per channel, each `frames` samples long.
    pub channels_data: Vec<Vec<i32>>,
    /// The declared source rate in Hz.
    pub source_rate: u32,
    /// How many output frames per channel to keep after the filter's delay.
    pub expected_frames: usize,
}

/// What a conversion request resolves to before any filtering runs.
pub enum ResamplePlan {
    /// The buffer is already at the target rate and is returned unchanged.
    Passthrough(Vec<i32>),
    /// The buffer must run through the sinc filter.
    Filter(ResampleJob),
}

/// Channel `c` of an interleaved buffer, one sample per whole frame.
pub open spec fn spec_channel_row(samples: Seq<i32>, channels: int, c: int) -> Seq<i32> {
    Seq::new((samples.len() / (channels as nat)), |f: int| samples[f * channels + c])
}

/// All channel rows of an interleaved buffer; trailing samples of a partial
/// frame are dropped.
pub open spec fn spec_deinterleaved(samples: Seq<i32>, channels: int) -> Seq<Seq<i32>> {
    Seq::new(channels as nat, |c: int| spec_channel_row(samples, channels, c))
}

/// Rows `start..end` of the per-channel data, re-interleaved frame by frame.
pub open spec fn spec_interleaved_segment(
    data: Seq<Seq<i32>>,
    start: int,
    end: int,
) -> Seq<i32> {
    let channels = data.len() as int;
    Seq::new(
        ((end - start) * channels) as nat,
        |k: int| data[k % channels][start + k / channels],
    )
}

/// Output frames owed for `frames` input frames at the given source rate:
/// the frame count scaled by the exact ratio `16000 / source_rate`, rounded
/// toward zero.
pub open spec fn spec_expected_frames(frames: int, source_rate: u32) -> int {
    frames * (TARGET_SAMPLE_RATE as int) / (source_rate as int)
}

/// Split an interleaved buffer into one row per channel.
pub fn split_into_channels(samples: &[i32], channels: usize) -> (rows: Vec<Vec<i32>>)
    requires
        channels >= 1,
    ensures
        rows@.len() == channels,
        forall|c: int|
            0 <= c < channels ==> rows@[c]@ == spec_channel_row(samples@, channels as int, c),
{
    let frames = samples.len() / channels;
    proof {
        lemma_fundamental_div_mod(samples@.len() as int, channels as int);
        lemma_mod_division_less_than_divisor(samples@.len() as int, channels as int);
    }
    let mut rows: Vec<Vec<i32>> = Vec::new();
    let mut c: usize = 0;
    while c < channels
        invariant
            channels >= 1,
            c <= channels,
            frames == samples@.len() / (channels as nat),
            frames * channels <= samples@.len(),
            samples@.len() <= usize::MAX,
            rows@.len() == c,
            forall|c2: int|
                0 <= c2 < c ==> rows@[c2]@ == spec_channel_row(samples@, channels as int, c2),
        decreases channels - c,
    {
        let mut row: Vec<i32> = Vec::new();
        let mut f: usize = 0;
        let mut pos: usize = c;
        while f < frames
            invariant
                channels >= 1,
                c < channels,
                f <= frames,
                frames * channels <= samples@.len(),
                samples@.len() <= usize::MAX,
                f < frames ==> pos == f * channels + c,
                row@.len() == f,
                forall|f2: int|
                    0 <= f2 < f ==> row@[f2] == samples@[f2 * (channels as int) + c],
            decreases frames - f,
        {
            proof {
                assert(f * channels + c < frames * channels) by (nonlinear_arith)
                    requires
                        f < frames,
                        c < channels,
                        channels >= 1,
                        f >= 0,
                ;
            }
            row.push(samples[pos]);
            f = f + 1;
            if f < frames {
                proof {
                    assert(f * channels + c < frames * channels) by (nonlinear_arith)
                        requires
                            f < frames,
                            c < channels,
                            channels >= 1,
                            f >= 0,
                    ;
                    assert((f - 1) * channels + c + channels == f * channels + c)
                        by (nonlinear_arith);
                }
                pos = pos + channels;
            }
        }
        proof {
            assert(row@ =~= spec_channel_row(samples@, channels as int, c as int));
        }
        rows.push(row);
        c = c + 1;
    }
    rows
}

/// Re-interleave rows `start..end` of per-channel data into one buffer.
/// An empty range (the filter returned fewer rows than the delay) yields an
/// empty buffer.
pub fn interleave_segment(data: &Vec<Vec<i32>>, start: usize, end: usize) -> (out: Vec<i32>)
    requires
        data@.len() >= 1,
        start <= end,
        forall|c: int| 0 <= c < data@.len() ==> #[trigger] data@[c]@.len() >= end,
        (end - start) * data@.len() <= usize::MAX,
    ensures
        out@ == spec_interleaved_segment(data.deep_view(), start as int, end as int),
{
    let channels = data.len();
    let mut out: Vec<i32> = Vec::new();
    let mut f: usize = start;
    while f < end
        invariant
            channels == data@.len(),
            channels >= 1,
            start <= f <= end,
            forall|c: int| 0 <= c < data@.len() ==> #[trigger] data@[c]@.len() >= end,
            (end - start) * channels <= usize::MAX,
            out@.len() == (f - start) * channels,
            forall|k: int|
                0 <= k < out@.len() ==> out@[k] == data@[k % (channels as int)]@[start + k / (
                channels as int)],
        decreases end - f,
    {
        let mut c: usize = 0;
        proof {
            assert((f - start) * channels + channels == (f + 1 - start) * channels)
                by (nonlinear_arith);
            assert((f + 1 - start) * channels <= (end - start) * channels) by (nonlinear_arith)
                requires
                    f + 1 <= end,
                    start <= f,
                    channels >= 1,
            ;
        }
        while c < channels
            invariant
                channels == data@.len(),
                channels >= 1,
                start <= f < end,
                c <= channels,
                forall|c2: int| 0 <= c2 < data@.len() ==> #[trigger] data@[c2]@.len() >= end,
                out@.len() == (f - start) * channels + c,
                (f - start) * channels + channels <= usize::MAX,
                forall|k: int|
                    0 <= k < out@.len() ==> out@[k] == data@[k % (channels as int)]@[start + k / (
                    channels as int)],
            decreases channels - c,
        {
            let ghost k = out@.len() as int;
            proof {
                lemma_fundamental_div_mod_converse_div(
                    k,
                    channels as int,
                    (f - start) as int,
                    c as int,
                );
                lemma_fundamental_div_mod_converse_mod(
                    k,
                    channels as int,
                    (f - start) as int,
                    c as int,
                );
            }
            let row: &Vec<i32> = &data[c];
            out.push(row[f]);
            c = c + 1;
        }
        f = f + 1;
    }
    proof {
        let dv = data.deep_view();
        assert(dv.len() == data@.len());
        assert forall|c: int| 0 <= c < data@.len() implies #[trigger] dv[c] =~= data@[c]@ by {}
        assert(out@ =~= spec_interleaved_segment(dv, start as int, end as int));
    }
    out
}

/// The number of output frames owed for `frames` input frames.
pub fn expected_output_frames(frames: usize, source_rate: u32) -> (n: usize)
    requires
        source_rate >= 1,
        spec_expected_frames(frames as int, source_rate) <= usize::MAX,
    ensures
        n == spec_expected_frames(frames as int, source_rate),
{
    let wide: u128 = (frames as u128) * (TARGET_SAMPLE_RATE as u128);
    let n = wide / (source_rate as u128);
    proof {
        assert(frames * (TARGET_SAMPLE_RATE as int) <= usize::MAX as int * 16000)
            by (nonlinear_arith)
            requires
                0 <= frames <= usize::MAX,
        ;
    }
    n as usize
}

/// Resolve a conversion request: a buffer already at 16 kHz passes through
/// unchanged; otherwise the buffer is split into channel rows for the sinc
/// filter, or refused when it holds no whole frame.
pub fn plan_resample_to_16khz(samples: &[i32], sample_rate: u32, channels: usize) -> (r: Result<
    ResamplePlan,
    ResamplingError,
>)
    requires
        channels >= 1,
        sample_rate >= 1,
        spec_expected_frames(samples@.len() as int / channels as int, sample_rate) <= usize::MAX,
    ensures
        match r {
            Ok(plan) => match plan {
                ResamplePlan::Passthrough(out) => {
                    &&& sample_rate == TARGET_SAMPLE_RATE
                    &&& out@ == samples@
                },
                ResamplePlan::Filter(job) => {
                    &&& sample_rate != TARGET_SAMPLE_RATE
                    &&& samples@.len() / (channels as nat) > 0
                    &&& job.channels_data.deep_view() == spec_deinterleaved(
                        samples@,
                        channels as int,
                    )
                    &&& job.source_rate == sample_rate
                    &&& job.expected_frames == spec_expected_frames(
                        samples@.len() as int / channels as int,
                        sample_rate,
                    )
                },
            },
            Err(e) => {
                &&& e == ResamplingError::NoFrames
                &&& sample_rate != TARGET_SAMPLE_RATE
                &&& samples@.len() / (channels as nat) == 0
            },
        },
{
    if sample_rate == TARGET_SAMPLE_RATE {
        return Ok(ResamplePlan::Passthrough(slice_to_vec(samples)));
    }
    let frames = samples.len() / channels;
    if frames == 0 {
        return Err(ResamplingError::NoFrames);
    }
    let rows = split_into_channels(samples, channels);
    let expected_frames = expected_output_frames(frames, sample_rate);
    proof {
        assert(rows.deep_view() =~~= spec_deinterleaved(samples@, channels as int));
    }
    Ok(
        ResamplePlan::Filter(
            ResampleJob { channels_data: rows, source_rate: sample_rate, expected_frames },
        ),
    )
}

/// Trim the filter's output: drop `delay` leading frames, keep at most
/// `expected_frames`, and re-interleave what remains. All rows must be the
/// same length, as the filter hands them back.
pub fn finish_resample(resampled: &Vec<Vec<i32>>, delay: usize, expected_frames: usize) -> (out:
    Vec<i32>)
    requires
        resampled@.len() >= 1,
        forall|c: int|
            0 <= c < resampled@.len() ==> #[trigger] resampled@[c]@.len() == resampled@[0]@.len(),
        delay + expected_frames <= usize::MAX,
        resampled@[0]@.len() * resampled@.len() <= usize::MAX,
    ensures
        ({
            let avail = resampled@[0]@.len() as int;
            let end = if delay + expected_frames <= avail {
                delay + expected_frames
            } else {
                avail
            };
            let start = if delay as int <= end {
                delay as int
            } else {
                end
            };
            out@ == spec_interleaved_segment(resampled.deep_view(), start, end)
        }),
{
    let avail = resampled[0].len();
    let end = if delay + expected_frames <= avail {
        delay + expected_frames
    } else {
        avail
    };
    let start = if delay <= end {
        delay
    } else {
        end
    };
    proof {
        assert((end - start) * resampled@.len() <= avail * resampled@.len()) by (nonlinear_arith)
            requires
                0 <= end - start <= avail,
                resampled@.len() >= 1,
        ;
    }
    interleave_segment(resampled, start, end)
}

} // verus!
