//! Sample codec: raw PCM byte buffers to quantized integer samples and back.
//!
//! A decoded sample is kept as the exact signed integer read from the wire;
//! the nominal float value in [-1, 1] is that integer divided by the depth's
//! maximum magnitude, a presentation step that callers apply at the very edge.

use vstd::prelude::*;
use vstd::arithmetic::div_mod::*;
use vstd::arithmetic::mul::*;

verus! {

/// Number of bits per PCM sample; decides the byte-to-integer conversion.
#[derive(Clone, Copy, PartialEq, Eq, Structural, Debug)]
pub enum BitDepth {
    B16,
    B24,
    B32,
}

impl BitDepth {
    /// Bytes per sample at this depth.
    pub open spec fn spec_frame_size(self) -> int {
        match self {
            BitDepth::B16 => 2,
            BitDepth::B24 => 3,
            BitDepth::B32 => 4,
        }
    }

    pub fn frame_size(self) -> (n: usize)
        ensures
            n == self.spec_frame_size(),
    {
        match self {
            BitDepth::B16 => 2,
            BitDepth::B24 => 3,
            BitDepth::B32 => 4,
        }
    }

    /// Largest positive sample value at this depth; also the denominator of
    /// the nominal float value of a sample.
    pub open spec fn spec_max_magnitude(self) -> int {
        match self {
            BitDepth::B16 => 32767,
            BitDepth::B24 => 8388607,
            BitDepth::B32 => 2147483647,
        }
    }

    pub fn max_magnitude(self) -> (m: i32)
        ensures
            m == self.spec_max_magnitude(),
    {
        match self {
            BitDepth::B16 => 32767,
            BitDepth::B24 => 8388607,
            BitDepth::B32 => 2147483647,
        }
    }

    /// One more than the maximum magnitude: the magnitude of the most
    /// negative sample, and half the number of representable samples.
    pub open spec fn spec_half_range(self) -> int {
        self.spec_max_magnitude() + 1
    }

    /// The depths accepted on the wire, by their bit count.
    pub fn from_raw(raw: u8) -> (r: Option<BitDepth>)
        ensures
            r == spec_depth_of_raw(raw),
    {
        if raw == 16 {
            Some(BitDepth::B16)
        } else if raw == 24 {
            Some(BitDepth::B24)
        } else if raw == 32 {
            Some(BitDepth::B32)
        } else {
            None
        }
    }
}

/// The depth a raw bit count on the wire stands for, if any.
pub open spec fn spec_depth_of_raw(raw: u8) -> Option<BitDepth> {
    if raw == 16 {
        Some(BitDepth::B16)
    } else if raw == 24 {
        Some(BitDepth::B24)
    } else if raw == 32 {
        Some(BitDepth::B32)
    } else {
        None
    }
}

/// Why a raw PCM byte buffer was rejected.
#[derive(Clone, Copy, PartialEq, Eq, Structural, Debug)]
pub enum DecodeError {
    /// 16-bit data with an odd number of bytes.
    OddByteCount,
    /// 24-bit data whose byte count is not divisible by 3.
    NotMultipleOfThree,
    /// 32-bit data whose byte count is not divisible by 4.
    NotMultipleOfFour,
    /// A declared bit depth other than 16, 24 or 32.
    UnsupportedDepth(u8),
}

impl DecodeError {
    /// The cause, worded as it is reported to the caller.
    pub open spec fn spec_message(self) -> Seq<char> {
        match self {
            DecodeError::OddByteCount => "Invalid 16-bit audio data: odd number of bytes"@,
            DecodeError::NotMultipleOfThree => "Invalid 24-bit audio data: byte count not divisible by 3"@,
            DecodeError::NotMultipleOfFour => "Invalid 32-bit audio data: byte count not divisible by 4"@,
            DecodeError::UnsupportedDepth(d) => "Unsupported bit depth: "@
                + crate::text::spec_u8_decimal(d),
        }
    }

    pub fn message(&self) -> (m: String)
        ensures
            m@ == self.spec_message(),
    {
        match self {
            DecodeError::OddByteCount => String::from_str(
                "Invalid 16-bit audio data: odd number of bytes",
            ),
            DecodeError::NotMultipleOfThree => String::from_str(
                "Invalid 24-bit audio data: byte count not divisible by 3",
            ),
            DecodeError::NotMultipleOfFour => String::from_str(
                "Invalid 32-bit audio data: byte count not divisible by 4",
            ),
            DecodeError::UnsupportedDepth(d) => {
                let mut m = String::from_str("Unsupported bit depth: ");
                let digits = crate::text::u8_to_string(*d);
                m.append(digits.as_str());
                m
            },
        }
    }
}

/// 256 to the `j`th power: the place value of the `j`th little-endian byte.
pub open spec fn pow256(j: nat) -> nat
    decreases j,
{
    if j == 0 {
        1
    } else {
        256 * pow256((j - 1) as nat)
    }
}

/// The unsigned little-endian value of `count` bytes starting at `base`.
pub open spec fn le_acc(bytes: Seq<u8>, base: int, count: nat) -> int
    decreases count,
{
    if count == 0 {
        0
    } else {
        le_acc(bytes, base, (count - 1) as nat) + bytes[base + count - 1] * pow256(
            (count - 1) as nat,
        )
    }
}

/// The unsigned value of the `i`th frame of `bytes` at the given depth.
pub open spec fn spec_sample_unsigned(bytes: Seq<u8>, depth: BitDepth, i: int) -> int {
    le_acc(bytes, depth.spec_frame_size() * i, depth.spec_frame_size() as nat)
}

/// The signed (two's complement) value of the `i`th frame of `bytes`.
pub open spec fn spec_sample_value(bytes: Seq<u8>, depth: BitDepth, i: int) -> int {
    let u = spec_sample_unsigned(bytes, depth, i);
    if u >= depth.spec_half_range() {
        u - 2 * depth.spec_half_range()
    } else {
        u
    }
}

/// The whole decoded sample sequence of a byte buffer at the given depth.
pub open spec fn spec_decoded(bytes: Seq<u8>, depth: BitDepth) -> Seq<i32> {
    Seq::new(
        bytes.len() / (depth.spec_frame_size() as nat),
        |i: int| spec_sample_value(bytes, depth, i) as i32,
    )
}

/// What decoding must return: the samples on a well-formed buffer, and the
/// one specific error naming the cause on any other input.
pub open spec fn spec_decode_result(bytes: Seq<u8>, raw: u8) -> Result<Seq<i32>, DecodeError> {
    match spec_depth_of_raw(raw) {
        Some(depth) => if bytes.len() % (depth.spec_frame_size() as nat) == 0 {
            Ok(spec_decoded(bytes, depth))
        } else {
            Err(spec_length_error(depth))
        },
        None => Err(DecodeError::UnsupportedDepth(raw)),
    }
}

/// The error reported when the byte count does not divide into whole frames.
pub open spec fn spec_length_error(depth: BitDepth) -> DecodeError {
    match depth {
        BitDepth::B16 => DecodeError::OddByteCount,
        BitDepth::B24 => DecodeError::NotMultipleOfThree,
        BitDepth::B32 => DecodeError::NotMultipleOfFour,
    }
}

proof fn lemma_pow256_values()
    ensures
        pow256(0) == 1,
        pow256(1) == 256,
        pow256(2) == 0x10000,
        pow256(3) == 0x1000000,
        pow256(4) == 0x100000000,
{
    reveal_with_fuel(pow256, 5);
}

/// The little-endian value of `count` bytes is below 256^count.
proof fn lemma_le_acc_bound(bytes: Seq<u8>, base: int, count: nat)
    requires
        0 <= base,
        base + count <= bytes.len(),
    ensures
        0 <= le_acc(bytes, base, count) < pow256(count),
    decreases count,
{
    if count == 0 {
    } else {
        let prev = (count - 1) as nat;
        lemma_le_acc_bound(bytes, base, prev);
        let b = bytes[base + count - 1] as int;
        assert(b * pow256(prev) <= 255 * pow256(prev)) by {
            lemma_mul_inequality(b, 255, pow256(prev) as int);
        }
        assert(b * pow256(prev) >= 0) by {
            lemma_mul_nonnegative(b, pow256(prev) as int);
        }
        assert(le_acc(bytes, base, count) < 256 * pow256(prev));
    }
}

/// The full unsigned range of a frame is twice the signed half range.
proof fn lemma_frame_range(depth: BitDepth)
    ensures
        pow256(depth.spec_frame_size() as nat) == 2 * depth.spec_half_range(),
{
    lemma_pow256_values();
}

/// Decode one depth's frames; the byte count must already divide evenly.
fn decode_frames(bytes: &[u8], depth: BitDepth) -> (samples: Vec<i32>)
    requires
        bytes@.len() % (depth.spec_frame_size() as nat) == 0,
    ensures
        samples@ == spec_decoded(bytes@, depth),
{
    let fs = depth.frame_size();
    let half: u64 = depth.max_magnitude() as u64 + 1;
    let n = bytes.len() / fs;
    proof {
        lemma_pow256_values();
        lemma_fundamental_div_mod(bytes@.len() as int, fs as int);
    }
    let mut samples: Vec<i32> = Vec::new();
    let mut i: usize = 0;
    let mut base: usize = 0;
    while i < n
        invariant
            fs == depth.spec_frame_size(),
            half == depth.spec_half_range(),
            n == bytes@.len() / (fs as nat),
            bytes@.len() == fs * n,
            bytes@.len() <= usize::MAX,
            i <= n,
            base == fs * i,
            samples@.len() == i,
            forall|k: int|
                0 <= k < i ==> samples@[k] == spec_sample_value(bytes@, depth, k),
        decreases n - i,
    {
        proof {
            assert(fs * i + fs == fs * (i + 1)) by (nonlinear_arith);
            assert(fs * (i + 1) <= fs * n) by (nonlinear_arith)
                requires
                    i + 1 <= n,
                    fs >= 0,
            ;
        }
        let ghost basei = base as int;
        let mut u: u64 = 0;
        let mut pow: u64 = 1;
        let mut j: usize = 0;
        while j < fs
            invariant
                fs == depth.spec_frame_size(),
                j <= fs,
                base + fs <= bytes@.len(),
                bytes@.len() <= usize::MAX,
                base == basei,
                u == le_acc(bytes@, basei, j as nat),
                pow == pow256(j as nat),
        decreases fs - j,
        {
            proof {
                lemma_pow256_values();
                lemma_le_acc_bound(bytes@, basei, j as nat);
                lemma_le_acc_bound(bytes@, basei, (j + 1) as nat);
                assert(j == 0 || j == 1 || j == 2 || j == 3);
                assert(pow <= 0x1000000);
            }
            u = u + (bytes[base + j] as u64) * pow;
            pow = pow * 256;
            j = j + 1;
        }
        proof {
            lemma_frame_range(depth);
            lemma_le_acc_bound(bytes@, basei, fs as nat);
        }
        let v: i64 = if u >= half {
            u as i64 - 2 * (half as i64)
        } else {
            u as i64
        };
        samples.push(v as i32);
        i = i + 1;
        base = base + fs;
    }
    proof {
        assert(samples@ =~= spec_decoded(bytes@, depth));
    }
    samples
}

/// Decode a raw little-endian PCM byte buffer into its exact integer
/// samples. The nominal float value of each sample is the integer divided by
/// the depth's maximum magnitude; that scaling is left to the caller so the
/// conversion here is exact.
pub fn convert_audio_bytes_to_samples(audio_bytes: &[u8], bit_depth: u8) -> (r: Result<
    Vec<i32>,
    DecodeError,
>)
    ensures
        match r {
            Ok(samples) => spec_decode_result(audio_bytes@, bit_depth) == Ok::<
                Seq<i32>,
                DecodeError,
            >(samples@),
            Err(e) => spec_decode_result(audio_bytes@, bit_depth) == Err::<
                Seq<i32>,
                DecodeError,
            >(e),
        },
{
    match BitDepth::from_raw(bit_depth) {
        None => Err(DecodeError::UnsupportedDepth(bit_depth)),
        Some(depth) => {
            let fs = depth.frame_size();
            if audio_bytes.len() % fs != 0 {
                match depth {
                    BitDepth::B16 => Err(DecodeError::OddByteCount),
                    BitDepth::B24 => Err(DecodeError::NotMultipleOfThree),
                    BitDepth::B32 => Err(DecodeError::NotMultipleOfFour),
                }
            } else {
                Ok(decode_frames(audio_bytes, depth))
            }
        },
    }
}

/// Whether `v` is representable as a signed sample at the given depth.
/// The capture path must keep its samples in this range before encoding.
pub open spec fn spec_sample_in_range(v: int, depth: BitDepth) -> bool {
    -depth.spec_half_range() <= v <= depth.spec_max_magnitude()
}

/// The two's complement image of `v` inside one unsigned frame.
pub open spec fn spec_twos_complement(v: int, depth: BitDepth) -> int {
    if v < 0 {
        v + 2 * depth.spec_half_range()
    } else {
        v
    }
}

/// The `j`th little-endian byte of the encoded sample `v`.
pub open spec fn spec_encoded_byte(v: int, depth: BitDepth, j: int) -> u8 {
    ((spec_twos_complement(v, depth) / (pow256(j as nat) as int)) % 256) as u8
}

/// The whole encoded byte buffer of a sample sequence at the given depth.
pub open spec fn spec_encoded(samples: Seq<i32>, depth: BitDepth) -> Seq<u8> {
    Seq::new(
        samples.len() * (depth.spec_frame_size() as nat),
        |k: int|
            spec_encoded_byte(
                samples[k / depth.spec_frame_size()] as int,
                depth,
                k % depth.spec_frame_size(),
            ),
    )
}

/// Range check at the raw bit count; vacuous for unsupported counts, which
/// encoding rejects anyway.
pub open spec fn spec_sample_in_range_raw(v: int, raw: u8) -> bool {
    match spec_depth_of_raw(raw) {
        Some(depth) => spec_sample_in_range(v, depth),
        None => true,
    }
}

/// Encode one depth's samples into little-endian frames.
fn encode_frames(samples: &[i32], depth: BitDepth) -> (bytes: Vec<u8>)
    requires
        forall|i: int|
            0 <= i < samples@.len() ==> spec_sample_in_range(samples@[i] as int, depth),
        samples@.len() * depth.spec_frame_size() <= usize::MAX,
    ensures
        bytes@ == spec_encoded(samples@, depth),
{
    let fs = depth.frame_size();
    let half: u64 = depth.max_magnitude() as u64 + 1;
    let n = samples.len();
    proof {
        lemma_pow256_values();
    }
    let mut bytes: Vec<u8> = Vec::new();
    let mut i: usize = 0;
    while i < n
        invariant
            fs == depth.spec_frame_size(),
            half == depth.spec_half_range(),
            n == samples@.len(),
            n * fs <= usize::MAX,
            i <= n,
            bytes@.len() == fs * i,
            forall|i2: int|
                0 <= i2 < n ==> spec_sample_in_range(samples@[i2] as int, depth),
            forall|k: int|
                0 <= k < bytes@.len() ==> bytes@[k] == spec_encoded_byte(
                    samples@[k / depth.spec_frame_size()] as int,
                    depth,
                    k % depth.spec_frame_size(),
                ),
        decreases n - i,
    {
        proof {
            assert(fs * i + fs == fs * (i + 1)) by (nonlinear_arith);
            assert(fs * (i + 1) <= fs * n) by (nonlinear_arith)
                requires
                    i + 1 <= n,
                    fs >= 0,
            ;
            assert(fs * n == n * fs) by (nonlinear_arith);
        }
        let v = samples[i];
        let ghost vi = v as int;
        let ghost t = spec_twos_complement(vi, depth);
        let mut u: u64 = if v < 0 {
            ((v as i64) + 2 * (half as i64)) as u64
        } else {
            v as u64
        };
        proof {
            lemma_frame_range(depth);
            lemma_pow256_values();
            assert(u == t / (pow256(0) as int));
        }
        let mut j: usize = 0;
        while j < fs
            invariant
                fs == depth.spec_frame_size(),
                j <= fs,
                0 <= t < 2 * depth.spec_half_range(),
                u == t / (pow256(j as nat) as int),
                bytes@.len() == fs * i + j,
                fs * i + fs <= samples@.len() * fs,
                samples@.len() * fs <= usize::MAX,
                i < samples@.len(),
                vi == samples@[i as int],
                t == spec_twos_complement(vi, depth),
                forall|k: int|
                    0 <= k < bytes@.len() ==> bytes@[k] == spec_encoded_byte(
                        samples@[k / depth.spec_frame_size()] as int,
                        depth,
                        k % depth.spec_frame_size(),
                    ),
            decreases fs - j,
        {
            let ghost k = bytes@.len() as int;
            proof {
                lemma_pow256_values();
                lemma_fundamental_div_mod_converse_div(k, fs as int, i as int, j as int);
                lemma_fundamental_div_mod_converse_mod(k, fs as int, i as int, j as int);
            }
            bytes.push((u % 256) as u8);
            proof {
                let p = pow256(j as nat) as int;
                lemma_div_denominator(t, p, 256);
                assert(pow256((j + 1) as nat) == p * 256) by {
                    assert(pow256((j + 1) as nat) == 256 * pow256(j as nat));
                    lemma_mul_is_commutative(256, p);
                }
                assert((t / p) / 256 == t / (pow256((j + 1) as nat) as int));
            }
            u = u / 256;
            j = j + 1;
        }
        i = i + 1;
    }
    proof {
        assert(bytes@ =~= spec_encoded(samples@, depth));
    }
    bytes
}

/// Encode integer samples into a raw little-endian PCM byte buffer: the
/// inverse of decoding, used by the capture path. Samples must already lie
/// in the depth's range; no clipping is applied.
pub fn convert_samples_to_audio_bytes(samples: &[i32], bit_depth: u8) -> (r: Result<
    Vec<u8>,
    DecodeError,
>)
    requires
        forall|i: int|
            0 <= i < samples@.len() ==> spec_sample_in_range_raw(samples@[i] as int, bit_depth),
        match spec_depth_of_raw(bit_depth) {
            Some(depth) => samples@.len() * depth.spec_frame_size() <= usize::MAX,
            None => true,
        },
    ensures
        match r {
            Ok(bytes) => {
                &&& spec_depth_of_raw(bit_depth) is Some
                &&& bytes@ == spec_encoded(samples@, spec_depth_of_raw(bit_depth)->Some_0)
            },
            Err(e) => {
                &&& spec_depth_of_raw(bit_depth) is None
                &&& e == DecodeError::UnsupportedDepth(bit_depth)
            },
        },
{
    match BitDepth::from_raw(bit_depth) {
        None => Err(DecodeError::UnsupportedDepth(bit_depth)),
        Some(depth) => Ok(encode_frames(samples, depth)),
    }
}

/// The little-endian bytes of `t` reassemble to `t` when `t` fits the frame.
proof fn lemma_le_reassemble(enc: Seq<u8>, base: int, depth: BitDepth, t: int)
    requires
        0 <= t < pow256(depth.spec_frame_size() as nat),
        0 <= base,
        base + depth.spec_frame_size() <= enc.len(),
        forall|j: int|
            0 <= j < depth.spec_frame_size() ==> #[trigger] enc[base + j] == ((t / (pow256(
                j as nat,
            ) as int)) % 256) as u8,
    ensures
        le_acc(enc, base, depth.spec_frame_size() as nat) == t,
{
    lemma_pow256_values();
    let r0 = t % 256;
    let q1 = t / 256;
    lemma_fundamental_div_mod(t, 256);
    assert(enc[base + 0] == (t / (pow256(0) as int) % 256) as u8);
    assert(t / (pow256(0) as int) == t);
    match depth {
        BitDepth::B16 => {
            assert(q1 < 256) by (nonlinear_arith)
                requires
                    0 <= t < 0x10000,
                    q1 == t / 256,
            ;
            lemma_small_mod(q1 as nat, 256);
            assert(le_acc(enc, base, 2) == le_acc(enc, base, 1) + enc[base + 1] * 256);
            assert(le_acc(enc, base, 1) == le_acc(enc, base, 0) + enc[base + 0] * 1);
        },
        BitDepth::B24 => {
            let q2 = t / 0x10000;
            lemma_div_denominator(t, 256, 256);
            assert(q1 / 256 == q2);
            lemma_fundamental_div_mod(q1, 256);
            assert(q2 < 256) by (nonlinear_arith)
                requires
                    0 <= t < 0x1000000,
                    q2 == t / 0x10000,
            ;
            lemma_small_mod(q2 as nat, 256);
            assert(le_acc(enc, base, 3) == le_acc(enc, base, 2) + enc[base + 2] * 0x10000);
            assert(le_acc(enc, base, 2) == le_acc(enc, base, 1) + enc[base + 1] * 256);
            assert(le_acc(enc, base, 1) == le_acc(enc, base, 0) + enc[base + 0] * 1);
        },
        BitDepth::B32 => {
            let q2 = t / 0x10000;
            let q3 = t / 0x1000000;
            lemma_div_denominator(t, 256, 256);
            assert(q1 / 256 == q2);
            lemma_div_denominator(t, 0x10000, 256);
            assert(q2 / 256 == q3);
            lemma_fundamental_div_mod(q1, 256);
            lemma_fundamental_div_mod(q2, 256);
            assert(q3 < 256) by (nonlinear_arith)
                requires
                    0 <= t < 0x100000000,
                    q3 == t / 0x1000000,
            ;
            lemma_small_mod(q3 as nat, 256);
            assert(le_acc(enc, base, 4) == le_acc(enc, base, 3) + enc[base + 3] * 0x1000000);
            assert(le_acc(enc, base, 3) == le_acc(enc, base, 2) + enc[base + 2] * 0x10000);
            assert(le_acc(enc, base, 2) == le_acc(enc, base, 1) + enc[base + 1] * 256);
            assert(le_acc(enc, base, 1) == le_acc(enc, base, 0) + enc[base + 0] * 1);
        },
    }
}

/// One element of the round trip: decoding frame `i` of an encoded buffer
/// yields the sample that was encoded.
proof fn lemma_round_trip_at(samples: Seq<i32>, depth: BitDepth, i: int)
    requires
        forall|k: int|
            0 <= k < samples.len() ==> spec_sample_in_range(samples[k] as int, depth),
        0 <= i < samples.len(),
    ensures
        spec_sample_value(spec_encoded(samples, depth), depth, i) == samples[i] as int,
{
    let fs = depth.spec_frame_size();
    let enc = spec_encoded(samples, depth);
    let v = samples[i] as int;
    let t = spec_twos_complement(v, depth);
    lemma_frame_range(depth);
    assert(fs * i + fs == fs * (i + 1)) by (nonlinear_arith);
    assert(fs * (i + 1) <= fs * samples.len()) by (nonlinear_arith)
        requires
            i + 1 <= samples.len(),
            fs >= 0,
    ;
    assert(fs * samples.len() == samples.len() * fs) by (nonlinear_arith);
    assert(fs * i >= 0) by (nonlinear_arith)
        requires
            fs >= 0,
            i >= 0,
    ;
    assert forall|j: int| 0 <= j < fs implies #[trigger] enc[fs * i + j] == ((t / (pow256(
        j as nat,
    ) as int)) % 256) as u8 by {
        lemma_fundamental_div_mod_converse_div(fs * i + j, fs, i, j);
        lemma_fundamental_div_mod_converse_mod(fs * i + j, fs, i, j);
    }
    lemma_le_reassemble(enc, fs * i, depth, t);
}

/// Decoding inverts encoding: for any in-range sample sequence and any
/// depth, the encoded bytes decode to exactly the original samples. At the
/// nominal float scale this is the round trip within one quantization step.
pub proof fn lemma_codec_round_trip(samples: Seq<i32>, depth: BitDepth)
    requires
        forall|k: int|
            0 <= k < samples.len() ==> spec_sample_in_range(samples[k] as int, depth),
    ensures
        spec_decoded(spec_encoded(samples, depth), depth) == samples,
{
    let fs = depth.spec_frame_size();
    let enc = spec_encoded(samples, depth);
    assert(enc.len() == samples.len() * fs);
    assert(enc.len() / (fs as nat) == samples.len()) by {
        lemma_fundamental_div_mod_converse_div(
            samples.len() * fs,
            fs,
            samples.len() as int,
            0,
        );
        assert(samples.len() * fs == samples.len() as int * fs + 0);
    }
    assert forall|i: int| 0 <= i < samples.len() implies spec_decoded(enc, depth)[i]
        == samples[i] by {
        lemma_round_trip_at(samples, depth, i);
    }
    assert(spec_decoded(enc, depth) =~= samples);
}

} // verus!
