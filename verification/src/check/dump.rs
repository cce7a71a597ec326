//! Turning raw little-endian PCM back into samples for WAV dumps.

use vstd::prelude::*;
use crate::check::types::{SampleWidth, sample_bytes};

verus! {

/// A 24-bit little-endian two's-complement sample, sign-extended.
pub open spec fn i24_value(b0: u8, b1: u8, b2: u8) -> int {
    let v = b0 + 256 * b1 + 65536 * b2;
    if v >= 0x80_0000 {
        v - 0x100_0000
    } else {
        v
    }
}

/// A little-endian two's-complement value of `n` bytes.
pub open spec fn le_signed(bytes: Seq<u8>, width: SampleWidth) -> int {
    match width {
        SampleWidth::Bits16 => {
            let v = bytes[0] + 256 * bytes[1];
            if v >= 0x8000 { v - 0x1_0000 } else { v }
        },
        SampleWidth::Bits24 => i24_value(bytes[0], bytes[1], bytes[2]),
        SampleWidth::Bits32 => {
            let v = bytes[0] + 256 * bytes[1] + 65536 * bytes[2] + 16777216 * bytes[3];
            if v >= 0x8000_0000 { v - 0x1_0000_0000 } else { v }
        },
    }
}

pub fn read_i24(sample: &[u8]) -> (v: i32)
    requires
        sample@.len() >= 3,
    ensures
        v as int == i24_value(sample@[0], sample@[1], sample@[2]),
{
    let b0 = sample[0];
    let b1 = sample[1];
    let b2 = sample[2];
    let value: i32 = (b0 as i32) | ((b1 as i32) << 8) | ((b2 as i32) << 16);
    assert(value == (b0 as i32) + 256 * (b1 as i32) + 65536 * (b2 as i32)) by (bit_vector)
        requires
            value == (b0 as i32) | ((b1 as i32) << 8) | ((b2 as i32) << 16),
    ;
    if value & 0x0080_0000 != 0 {
        assert(value & 0x0080_0000 != 0 ==> value >= 0x80_0000) by (bit_vector)
            requires
                0 <= value < 0x100_0000,
        ;
        let r = value | !0x00ff_ffff;
        assert(r == value - 0x100_0000) by (bit_vector)
            requires
                r == value | !0x00ff_ffffi32,
                0x80_0000 <= value < 0x100_0000,
        ;
        r
    } else {
        assert(value & 0x0080_0000 == 0 ==> value < 0x80_0000) by (bit_vector)
            requires
                0 <= value < 0x100_0000,
        ;
        value
    }
}

/// The samples of a stream of whole little-endian samples; a trailing
/// partial sample is left out.
pub open spec fn decoded_samples(bytes: Seq<u8>, width: SampleWidth) -> Seq<int> {
    let n = sample_bytes(width) as int;
    Seq::new(((bytes.len() as int) / n) as nat, |i: int| le_signed(bytes.subrange(n * i, n * i + n), width))
}

pub fn decode_samples(bytes: &[u8], width: SampleWidth) -> (samples: Vec<i32>)
    ensures
        samples@.len() == decoded_samples(bytes@, width).len(),
        forall|i: int| 0 <= i < samples@.len() ==> samples@[i] as int == #[trigger] decoded_samples(bytes@, width)[i],
{
    let n = width.bytes_per_sample();
    let total = bytes.len();
    let count = total / n;
    let mut samples: Vec<i32> = Vec::new();
    let mut i: usize = 0;
    while i < count
        invariant
            n == sample_bytes(width),
            total == bytes@.len(),
            count == (bytes@.len() as int) / (n as int),
            i <= count,
            samples@.len() == i,
            forall|k: int| 0 <= k < i ==> samples@[k] as int == #[trigger] decoded_samples(bytes@, width)[k],
        decreases count - i,
    {
        assert(n * i + n <= bytes@.len()) by (nonlinear_arith)
            requires
                i < count,
                count == (bytes@.len() as int) / (n as int),
                n > 0,
        ;
        let start = n * i;
        let chunk = vstd::slice::slice_subrange(bytes, start, start + n);
        let value: i32 = match width {
            SampleWidth::Bits16 => {
                let c0 = chunk[0];
                let c1 = chunk[1];
                let v: i32 = (c0 as i32) | ((c1 as i32) << 8);
                assert(v == (c0 as i32) + 256 * (c1 as i32)) by (bit_vector)
                    requires
                        v == (c0 as i32) | ((c1 as i32) << 8),
                ;
                if v >= 0x8000 { v - 0x1_0000 } else { v }
            },
            SampleWidth::Bits24 => read_i24(chunk),
            SampleWidth::Bits32 => {
                let c0 = chunk[0];
                let c1 = chunk[1];
                let c2 = chunk[2];
                let c3 = chunk[3];
                let u: u32 = (c0 as u32) | ((c1 as u32) << 8) | ((c2 as u32) << 16) | ((c3 as u32) << 24);
                assert(u == (c0 as u32) + 256 * (c1 as u32) + 65536 * (c2 as u32) + 16777216 * (c3 as u32)) by (bit_vector)
                    requires
                        u == (c0 as u32) | ((c1 as u32) << 8) | ((c2 as u32) << 16) | ((c3 as u32) << 24),
                ;
                let v = u as i32;
                assert(v as int == if u >= 0x8000_0000 { u - 0x1_0000_0000 } else { u as int }) by (bit_vector)
                    requires
                        v == u as i32,
                ;
                v
            },
        };
        assert(chunk@ == bytes@.subrange(n * i, n * i + n));
        samples.push(value);
        i += 1;
    }
    samples
}


/// A sample fits a width when its two's-complement form has that many bytes.
pub open spec fn fits_width(v: int, width: SampleWidth) -> bool {
    match width {
        SampleWidth::Bits16 => -0x8000 <= v < 0x8000,
        SampleWidth::Bits24 => -0x80_0000 <= v < 0x80_0000,
        SampleWidth::Bits32 => -0x8000_0000 <= v < 0x8000_0000,
    }
}

proof fn lemma_low_bytes(u: u32)
    ensures
        u % 256 + 256 * ((u / 256) % 256) == u % 0x1_0000,
        u % 256 + 256 * ((u / 256) % 256) + 65536 * ((u / 65536) % 256) == u % 0x100_0000,
        u % 256 + 256 * ((u / 256) % 256) + 65536 * ((u / 65536) % 256) + 16777216 * ((u / 16777216) % 256) == u,
{
    assert(u % 256 + 256 * ((u / 256) % 256) == u % 0x1_0000) by (bit_vector);
    assert(u % 256 + 256 * ((u / 256) % 256) + 65536 * ((u / 65536) % 256) == u % 0x100_0000) by (bit_vector);
    assert(u % 256 + 256 * ((u / 256) % 256) + 65536 * ((u / 65536) % 256) + 16777216 * ((u / 16777216) % 256) == u) by (bit_vector);
}

proof fn lemma_twos_complement(v: i32)
    ensures
        v >= 0 ==> (v as u32) as int == v as int,
        v < 0 ==> (v as u32) as int == v as int + 0x1_0000_0000,
{
    let u = v as u32;
    assert(v >= 0 ==> (u as i64) == (v as i64)) by (bit_vector)
        requires
            u == v as u32,
    ;
    assert(v < 0 ==> (u as i64) == (v as i64) + 0x1_0000_0000i64) by (bit_vector)
        requires
            u == v as u32,
    ;
}

/// Reading back the bytes a sample is written as gives the sample: the
/// dump decodes exactly what the pattern encodes.
pub proof fn lemma_sample_bytes_roundtrip(v: i32, width: SampleWidth)
    requires
        fits_width(v as int, width),
    ensures
        le_signed(crate::check::pattern::sample_le_bytes(v, width), width) == v,
{
    let u = v as u32;
    reveal_with_fuel(crate::check::pattern::pow256, 4);
    lemma_low_bytes(u);
    lemma_twos_complement(v);
    let ui = u as int;
    if v < 0 {
        assert(ui % 0x1_0000 == v + 0x1_0000 || !(-0x8000 <= v)) by {
            if -0x8000 <= v {
                assert(ui == 0xffff_0000 + (v + 0x1_0000));
            }
        }
        assert(ui % 0x100_0000 == v + 0x100_0000 || !(-0x80_0000 <= v)) by {
            if -0x80_0000 <= v {
                assert(ui == 0xff00_0000 + (v + 0x100_0000));
            }
        }
    } else {
        assert(v < 0x8000 ==> ui % 0x1_0000 == v);
        assert(v < 0x80_0000 ==> ui % 0x100_0000 == v);
    }
}


/// Every sample of the test pattern fits its width, so a dump of the
/// pattern decodes back to the pattern's samples.
pub proof fn lemma_dump_reads_back_pattern(frame: u32, channel: u32, width: SampleWidth)
    ensures
        fits_width(crate::check::pattern::pattern_sample(frame, channel, width), width),
        le_signed(
            crate::check::pattern::sample_le_bytes(crate::check::pattern::pattern_sample(frame, channel, width) as i32, width),
            width,
        ) == crate::check::pattern::pattern_sample(frame, channel, width),
{
    let x = crate::check::pattern::position_hash(frame, channel);
    assert(x & 0xffffu32 <= 0xffff) by (bit_vector);
    assert(x & 0x00ff_ffffu32 <= 0x00ff_ffff) by (bit_vector);
    let v = crate::check::pattern::pattern_sample(frame, channel, width);
    assert(fits_width(v, width));
    lemma_sample_bytes_roundtrip(v as i32, width);
}

} // verus!
