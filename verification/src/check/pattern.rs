//! The deterministic stereo test pattern the checker plays.

use vstd::prelude::*;
use vstd::wrapping::u32_specs;
use crate::check::types::{SampleWidth, sample_bytes};

verus! {

/// Integer division rounding toward zero, as Rust's `/` does.
pub open spec fn trunc_div(a: int, b: int) -> int {
    if a >= 0 {
        a / b
    } else {
        -((-a) / b)
    }
}

/// The 32-bit hash of a (frame, channel) position: a multiplicative seed
/// followed by three xor-shift and multiply rounds.
pub open spec fn position_hash(frame: u32, channel: u32) -> u32 {
    let x0 = u32_specs::wrapping_add(
        u32_specs::wrapping_add(u32_specs::wrapping_mul(frame, 0x9e37_79b9), u32_specs::wrapping_mul(channel, 0x7f4a_7c15)),
        0x1357_2468,
    );
    let x1 = x0 ^ (x0 >> 16u32);
    let x2 = u32_specs::wrapping_mul(x1, 0x7feb_352d);
    let x3 = x2 ^ (x2 >> 15u32);
    let x4 = u32_specs::wrapping_mul(x3, 0x846c_a68b);
    x4 ^ (x4 >> 16u32)
}

/// The sample at a position: for 16 and 24 bits, the hash's low bits as a
/// signed value scaled to three quarters of full scale; for 32 bits, the
/// whole hash reinterpreted as signed.
pub open spec fn pattern_sample(frame: u32, channel: u32, width: SampleWidth) -> int {
    let x = position_hash(frame, channel);
    match width {
        SampleWidth::Bits16 => trunc_div(((x & 0xffffu32) as int - 0x8000) * 3, 4),
        SampleWidth::Bits24 => trunc_div(((x & 0x00ff_ffffu32) as int - 0x0080_0000) * 3, 4),
        SampleWidth::Bits32 => (x as i32) as int,
    }
}

/// Byte `k` of a value's 32-bit two's-complement little-endian form.
pub open spec fn le_byte(v: i32, k: nat) -> u8 {
    (((v as u32) as int / pow256(k)) % 256) as u8
}

pub open spec fn pow256(k: nat) -> int
    decreases k,
{
    if k == 0 {
        1
    } else {
        256 * pow256((k - 1) as nat)
    }
}

/// The little-endian bytes of a sample at the given width.
pub open spec fn sample_le_bytes(sample: i32, width: SampleWidth) -> Seq<u8> {
    Seq::new(sample_bytes(width) as nat, |k: int| le_byte(sample, k as nat))
}

/// One stereo frame of the pattern: left then right.
pub open spec fn frame_bytes(frame: u32, width: SampleWidth) -> Seq<u8> {
    sample_le_bytes(pattern_sample(frame, 0, width) as i32, width) + sample_le_bytes(
        pattern_sample(frame, 1, width) as i32,
        width,
    )
}

/// The first `n` frames of the pattern.
pub open spec fn pattern_bytes(n: nat, width: SampleWidth) -> Seq<u8>
    decreases n,
{
    if n == 0 {
        Seq::empty()
    } else {
        pattern_bytes((n - 1) as nat, width) + frame_bytes((n - 1) as u32, width)
    }
}

proof fn lemma_pattern_len(n: nat, width: SampleWidth)
    ensures
        pattern_bytes(n, width).len() == n * (2 * sample_bytes(width)),
    decreases n,
{
    if n > 0 {
        lemma_pattern_len((n - 1) as nat, width);
        let k = 2 * sample_bytes(width) as int;
        let m = (n - 1) as nat;
        assert(frame_bytes(m as u32, width).len() == k);
        assert(pattern_bytes(n, width) == pattern_bytes(m, width) + frame_bytes(m as u32, width));
        assert(pattern_bytes(m, width).len() == m * k);
        assert(n * k == m * k + k) by (nonlinear_arith)
            requires
                n == m + 1,
        ;
    } else {
        assert(n * (2 * sample_bytes(width)) == 0) by (nonlinear_arith)
            requires
                n == 0,
        ;
    }
}

/// Frame `f` of the pattern is its left-channel sample followed by its
/// right-channel sample, each as little-endian bytes of the sample width:
/// the two channels carry the hash of their own channel index, so a swap
/// or a copy of one channel into the other shows in the bytes.
pub proof fn lemma_pattern_frame_is_left_then_right(n: nat, width: SampleWidth, f: int)
    requires
        0 <= f < n,
        n <= 0x1_0000_0000,
    ensures
        pattern_bytes(n, width).len() == n * (2 * sample_bytes(width)),
        pattern_bytes(n, width).subrange(f * (2 * sample_bytes(width)), f * (2 * sample_bytes(width)) + sample_bytes(width))
            == sample_le_bytes(pattern_sample(f as u32, 0, width) as i32, width),
        pattern_bytes(n, width).subrange(
            f * (2 * sample_bytes(width)) + sample_bytes(width),
            (f + 1) * (2 * sample_bytes(width)),
        ) == sample_le_bytes(pattern_sample(f as u32, 1, width) as i32, width),
    decreases n,
{
    let k = sample_bytes(width) as int;
    lemma_pattern_len(n, width);
    lemma_pattern_len((n - 1) as nat, width);
    let prev = pattern_bytes((n - 1) as nat, width);
    let whole = pattern_bytes(n, width);
    assert(whole == prev + frame_bytes((n - 1) as u32, width));
    assert((f + 1) * (2 * k) == f * (2 * k) + 2 * k) by (nonlinear_arith);
    if f == n - 1 {
        assert(f * (2 * k) == prev.len()) by (nonlinear_arith)
            requires
                prev.len() == (n - 1) * (2 * k),
                f == n - 1,
        ;
        let left = sample_le_bytes(pattern_sample(f as u32, 0, width) as i32, width);
        let right = sample_le_bytes(pattern_sample(f as u32, 1, width) as i32, width);
        assert(frame_bytes((n - 1) as u32, width) == left + right);
        assert(left.len() == k && right.len() == k);
        assert(whole == prev + (left + right));
        assert(whole.subrange(f * (2 * k), f * (2 * k) + k) =~= left);
        assert(whole.subrange(f * (2 * k) + k, (f + 1) * (2 * k)) =~= right);
    } else {
        lemma_pattern_frame_is_left_then_right((n - 1) as nat, width, f);
        assert((f + 1) * (2 * k) <= prev.len()) by (nonlinear_arith)
            requires
                prev.len() == (n - 1) * (2 * k),
                f + 1 <= n - 1,
                k >= 0,
        ;
        assert(whole.subrange(f * (2 * k), f * (2 * k) + k) =~= prev.subrange(f * (2 * k), f * (2 * k) + k));
        assert(whole.subrange(f * (2 * k) + k, (f + 1) * (2 * k)) =~= prev.subrange(f * (2 * k) + k, (f + 1) * (2 * k)));
    }
}

fn sample_value(frame: u32, channel: u32, width: SampleWidth) -> (v: i32)
    ensures
        v as int == pattern_sample(frame, channel, width),
{
    let mut x = frame.wrapping_mul(0x9e37_79b9).wrapping_add(channel.wrapping_mul(0x7f4a_7c15)).wrapping_add(
        0x1357_2468,
    );
    x ^= x >> 16;
    x = x.wrapping_mul(0x7feb_352d);
    x ^= x >> 15;
    x = x.wrapping_mul(0x846c_a68b);
    x ^= x >> 16;
    match width {
        SampleWidth::Bits16 => {
            let low: u32 = x & 0xffff;
            assert(low <= 0xffff) by (bit_vector)
                requires
                    low == x & 0xffff,
            ;
            let value = low as i32 - 0x8000;
            value * 3 / 4
        },
        SampleWidth::Bits24 => {
            let low: u32 = x & 0x00ff_ffff;
            assert(low <= 0x00ff_ffff) by (bit_vector)
                requires
                    low == x & 0x00ff_ffff,
            ;
            let value = low as i32 - 0x0080_0000;
            value * 3 / 4
        },
        SampleWidth::Bits32 => x as i32,
    }
}

proof fn lemma_le_bytes(v: i32)
    ensures
        ((v as u32) as u8) == le_byte(v, 0),
        (((v as u32) >> 8u32) as u8) == le_byte(v, 1),
        (((v as u32) >> 16u32) as u8) == le_byte(v, 2),
        (((v as u32) >> 24u32) as u8) == le_byte(v, 3),
{
    let u = v as u32;
    reveal_with_fuel(pow256, 4);
    assert((u as u8) == ((u as int / 1) % 256) as u8) by (bit_vector);
    assert(((u >> 8u32) as u8) == ((u as int / 256) % 256) as u8) by (bit_vector);
    assert(((u >> 16u32) as u8) == ((u as int / 65536) % 256) as u8) by (bit_vector);
    assert(((u >> 24u32) as u8) == ((u as int / 16777216) % 256) as u8) by (bit_vector);
}

/// Appends a sample's little-endian bytes at the given width.
fn push_sample(bytes: &mut Vec<u8>, sample: i32, width: SampleWidth)
    ensures
        final(bytes)@ == old(bytes)@ + sample_le_bytes(sample, width),
{
    proof {
        lemma_le_bytes(sample);
    }
    let u = sample as u32;
    bytes.push(u as u8);
    bytes.push((u >> 8) as u8);
    match width {
        SampleWidth::Bits16 => {},
        SampleWidth::Bits24 => {
            bytes.push((u >> 16) as u8);
        },
        SampleWidth::Bits32 => {
            bytes.push((u >> 16) as u8);
            bytes.push((u >> 24) as u8);
        },
    }
    assert(final(bytes)@ =~= old(bytes)@ + sample_le_bytes(sample, width));
}

/// The pattern for a test of `payload_frames` frames (a count past `u32`
/// wraps, as the frame counter does).
pub fn generate_pattern(payload_frames: usize, sample_width: SampleWidth) -> (bytes: Vec<u8>)
    requires
        payload_frames * 2 * sample_bytes(sample_width) <= usize::MAX,
    ensures
        bytes@ == pattern_bytes((payload_frames as u32) as nat, sample_width),
{
    let mut bytes: Vec<u8> = Vec::new();
    let n: u32 = payload_frames as u32;
    let mut frame: u32 = 0;
    while frame < n
        invariant
            frame <= n,
            bytes@ == pattern_bytes(frame as nat, sample_width),
        decreases n - frame,
    {
        let left = sample_value(frame, 0, sample_width);
        let right = sample_value(frame, 1, sample_width);
        push_sample(&mut bytes, left, sample_width);
        push_sample(&mut bytes, right, sample_width);
        proof {
            assert(bytes@ =~= pattern_bytes(frame as nat + 1, sample_width));
        }
        frame += 1;
    }
    bytes
}

} // verus!
