//! The WAVEFORMATEXTENSIBLE blob of a capture endpoint's shared-mode format,
//! and the decisions around switching and restoring it.

use vstd::prelude::*;
use crate::check::types::{CaptureMode, SampleRate, SampleWidth, SharedFormatMode, bits_of, hz_of};
use crate::descriptors::le16_bytes;

verus! {

pub const CHANNELS: u16 = 2;
pub const CHANNEL_MASK_STEREO: u32 = 0x3;
pub const WAVE_FORMAT_EXTENSIBLE: u16 = 0xfffe;
pub const WAVEFORMATEXTENSIBLE_CB_SIZE: u16 = 22;

/// KSDATAFORMAT_SUBTYPE_PCM as stored in the blob.
pub open spec fn subtype_pcm_spec() -> Seq<u8> {
    seq![0x01u8, 0x00, 0x00, 0x00, 0x00, 0x00, 0x10, 0x00, 0x80, 0x00, 0x00, 0xaa, 0x00, 0x38, 0x9b, 0x71]
}

pub fn subtype_pcm_bytes() -> (b: [u8; 16])
    ensures
        b@ == subtype_pcm_spec(),
{
    let b = [0x01u8, 0x00, 0x00, 0x00, 0x00, 0x00, 0x10, 0x00, 0x80, 0x00, 0x00, 0xaa, 0x00, 0x38, 0x9b, 0x71];
    assert(b@ =~= subtype_pcm_spec());
    b
}

/// The four little-endian bytes of a 32-bit value.
pub open spec fn le32_bytes(v: u32) -> Seq<u8> {
    seq![(v % 256) as u8, ((v / 256) % 256) as u8, ((v / 65536) % 256) as u8, (v / 16777216) as u8]
}

pub fn push_u16(blob: &mut Vec<u8>, value: u16)
    ensures
        final(blob)@ == old(blob)@ + le16_bytes(value),
{
    assert((value & 0xff) as u8 == (value % 256) as u8) by (bit_vector);
    assert((value >> 8) as u8 == (value / 256) as u8) by (bit_vector);
    blob.push((value & 0xff) as u8);
    blob.push((value >> 8) as u8);
    assert(final(blob)@ =~= old(blob)@ + le16_bytes(value));
}

pub fn push_u32(blob: &mut Vec<u8>, value: u32)
    ensures
        final(blob)@ == old(blob)@ + le32_bytes(value),
{
    assert((value & 0xff) as u8 == (value % 256) as u8) by (bit_vector);
    assert(((value >> 8) & 0xff) as u8 == ((value / 256) % 256) as u8) by (bit_vector);
    assert(((value >> 16) & 0xff) as u8 == ((value / 65536) % 256) as u8) by (bit_vector);
    assert((value >> 24) as u8 == (value / 16777216) as u8) by (bit_vector);
    blob.push((value & 0xff) as u8);
    blob.push(((value >> 8) & 0xff) as u8);
    blob.push(((value >> 16) & 0xff) as u8);
    blob.push((value >> 24) as u8);
    assert(final(blob)@ =~= old(blob)@ + le32_bytes(value));
}

/// A stereo integer-PCM WAVEFORMATEXTENSIBLE: tag, channels, rate, average
/// byte rate, block alignment, container bits, extension size, valid bits,
/// channel mask and the PCM subtype GUID.
pub open spec fn waveformat_blob(rate: SampleRate, width: SampleWidth) -> Seq<u8> {
    let bits = bits_of(width);
    let block_align = (2 * (bits / 8)) as u16;
    let avg = (hz_of(rate) * block_align) as u32;
    le16_bytes(WAVE_FORMAT_EXTENSIBLE) + le16_bytes(CHANNELS) + le32_bytes(hz_of(rate)) + le32_bytes(avg)
        + le16_bytes(block_align) + le16_bytes(bits) + le16_bytes(WAVEFORMATEXTENSIBLE_CB_SIZE) + le16_bytes(bits)
        + le32_bytes(CHANNEL_MASK_STEREO) + subtype_pcm_spec()
}

/// The little-endian 16-bit value stored at byte `i`.
pub open spec fn le16_at(b: Seq<u8>, i: int) -> int {
    b[i] + 256 * b[i + 1]
}

/// The little-endian 32-bit value stored at byte `i`.
pub open spec fn le32_at(b: Seq<u8>, i: int) -> int {
    b[i] + 256 * b[i + 1] + 65536 * b[i + 2] + 16777216 * b[i + 3]
}

proof fn lemma_le32_reads_back(v: u32)
    ensures
        le32_at(le32_bytes(v), 0) == v,
        le32_bytes(v).len() == 4,
{
    let b = le32_bytes(v);
    let q1 = v / 256;
    let q2 = v / 65536;
    let q3 = v / 16777216;
    assert(v == 256 * q1 + v % 256 && q1 == 256 * (q1 / 256) + q1 % 256 && q1 / 256 == q2 && q2 == 256 * (q2 / 256) + q2 % 256 && q2 / 256 == q3 && q3 < 256)
        by (nonlinear_arith)
        requires
            q1 == v / 256,
            q2 == v / 65536,
            q3 == v / 16777216,
            0 <= v < 0x1_0000_0000,
    ;
    assert(b[0] == v % 256);
    assert(b[1] == q1 % 256);
    assert(b[2] == q2 % 256);
    assert(b[3] == q3);
}

proof fn lemma_le16_reads_back(v: u16)
    ensures
        le16_at(le16_bytes(v), 0) == v,
        le16_bytes(v).len() == 2,
{
    let b = le16_bytes(v);
    assert(v == 256 * (v / 256) + v % 256 && v / 256 < 256) by (nonlinear_arith)
        requires
            0 <= v < 0x1_0000,
    ;
    assert(b[0] == v % 256);
    assert(b[1] == v / 256);
}

/// Reading the blob's fields back as the little-endian integers they are
/// stored as gives the requested stereo format: WAVE_FORMAT_EXTENSIBLE, two
/// channels, the rate in Hz, the matching byte rate and block alignment,
/// the width as container and valid bits, a 22-byte extension, the stereo
/// channel mask and the PCM subtype.
pub proof fn lemma_waveformat_blob_fields(rate: SampleRate, width: SampleWidth)
    ensures
        ({
            let b = waveformat_blob(rate, width);
            let bytes_per_sample = bits_of(width) / 8;
            &&& b.len() == 40
            &&& le16_at(b, 0) == 0xfffe
            &&& le16_at(b, 2) == 2
            &&& le32_at(b, 4) == hz_of(rate)
            &&& le32_at(b, 8) == hz_of(rate) * 2 * bytes_per_sample
            &&& le16_at(b, 12) == 2 * bytes_per_sample
            &&& le16_at(b, 14) == bits_of(width)
            &&& le16_at(b, 16) == 22
            &&& le16_at(b, 18) == bits_of(width)
            &&& le32_at(b, 20) == 3
            &&& b.subrange(24, 40) == subtype_pcm_spec()
        }),
{
    let bits = bits_of(width);
    let block_align = (2 * (bits / 8)) as u16;
    let avg = (hz_of(rate) * block_align) as u32;
    let hz = hz_of(rate);
    assert(2 * (bits / 8) <= 8);
    assert(block_align == 2 * (bits / 8));
    assert(hz * block_align <= 96_000 * 8 && hz * block_align == hz * 2 * (bits / 8) && hz * block_align >= 0) by (nonlinear_arith)
        requires
            0 <= hz <= 96_000,
            0 <= block_align <= 8,
            block_align == 2 * (bits / 8),
    ;
    assert(avg == hz * block_align);
    let parts = seq![
        le16_bytes(WAVE_FORMAT_EXTENSIBLE), le16_bytes(CHANNELS), le32_bytes(hz_of(rate)), le32_bytes(avg),
        le16_bytes(block_align), le16_bytes(bits), le16_bytes(WAVEFORMATEXTENSIBLE_CB_SIZE), le16_bytes(bits),
        le32_bytes(CHANNEL_MASK_STEREO),
    ];
    lemma_le16_reads_back(WAVE_FORMAT_EXTENSIBLE);
    lemma_le16_reads_back(CHANNELS);
    lemma_le32_reads_back(hz_of(rate));
    lemma_le32_reads_back(avg);
    lemma_le16_reads_back(block_align);
    lemma_le16_reads_back(bits);
    lemma_le16_reads_back(WAVEFORMATEXTENSIBLE_CB_SIZE);
    lemma_le32_reads_back(CHANNEL_MASK_STEREO);
    let b = waveformat_blob(rate, width);
    assert(b.subrange(0, 2) =~= le16_bytes(WAVE_FORMAT_EXTENSIBLE));
    assert(b.subrange(2, 4) =~= le16_bytes(CHANNELS));
    assert(b.subrange(4, 8) =~= le32_bytes(hz_of(rate)));
    assert(b.subrange(8, 12) =~= le32_bytes(avg));
    assert(b.subrange(12, 14) =~= le16_bytes(block_align));
    assert(b.subrange(14, 16) =~= le16_bytes(bits));
    assert(b.subrange(16, 18) =~= le16_bytes(WAVEFORMATEXTENSIBLE_CB_SIZE));
    assert(b.subrange(18, 20) =~= le16_bytes(bits));
    assert(b.subrange(20, 24) =~= le32_bytes(CHANNEL_MASK_STEREO));
    assert(b.subrange(24, 40) =~= subtype_pcm_spec());
    assert(le32_at(b, 8) == le32_at(b.subrange(8, 12), 0));
    assert(le32_at(b, 4) == le32_at(b.subrange(4, 8), 0));
    assert(le32_at(b, 20) == le32_at(b.subrange(20, 24), 0));
    assert(le16_at(b, 0) == le16_at(b.subrange(0, 2), 0));
    assert(le16_at(b, 2) == le16_at(b.subrange(2, 4), 0));
    assert(le16_at(b, 12) == le16_at(b.subrange(12, 14), 0));
    assert(le16_at(b, 14) == le16_at(b.subrange(14, 16), 0));
    assert(le16_at(b, 16) == le16_at(b.subrange(16, 18), 0));
    assert(le16_at(b, 18) == le16_at(b.subrange(18, 20), 0));
}

pub fn make_waveformat_extensible_blob(rate: SampleRate, width: SampleWidth) -> (blob: Vec<u8>)
    ensures
        blob@ == waveformat_blob(rate, width),
        blob@.len() == 40,
{
    let rate_hz = rate.hz();
    let bits = width.bits();
    let block_align: u16 = CHANNELS * (bits / 8);
    let avg_bytes_per_sec: u32 = rate_hz * (block_align as u32);
    let mut blob: Vec<u8> = Vec::new();
    push_u16(&mut blob, WAVE_FORMAT_EXTENSIBLE);
    push_u16(&mut blob, CHANNELS);
    push_u32(&mut blob, rate_hz);
    push_u32(&mut blob, avg_bytes_per_sec);
    push_u16(&mut blob, block_align);
    push_u16(&mut blob, bits);
    push_u16(&mut blob, WAVEFORMATEXTENSIBLE_CB_SIZE);
    push_u16(&mut blob, bits);
    push_u32(&mut blob, CHANNEL_MASK_STEREO);
    let subtype = subtype_pcm_bytes();
    let mut i: usize = 0;
    let ghost head = blob@;
    while i < 16
        invariant
            i <= 16,
            subtype@ == subtype_pcm_spec(),
            blob@ == head + subtype@.take(i as int),
        decreases 16 - i,
    {
        blob.push(subtype[i]);
        assert(subtype@.take(i as int + 1) =~= subtype@.take(i as int).push(subtype@[i as int]));
        i += 1;
    }
    assert(subtype@.take(16) =~= subtype@);
    assert(blob@ =~= waveformat_blob(rate, width));
    blob
}

/// The fields of an endpoint's current device format that the checker reads.
#[derive(Clone, Copy, Debug, PartialEq, Eq, Structural)]
pub struct DeviceFormat {
    pub samples_per_sec: u32,
    pub channels: u16,
    pub bits_per_sample: u16,
    /// Zero when the format does not state valid bits separately.
    pub valid_bits_per_sample: u16,
}

/// A device format carries the requested stereo format exactly.
pub open spec fn format_matches(format: DeviceFormat, rate_hz: u32, bits: u16) -> bool {
    &&& format.samples_per_sec == rate_hz
    &&& format.channels == CHANNELS
    &&& format.bits_per_sample == bits
    &&& (format.valid_bits_per_sample == 0 || format.valid_bits_per_sample == bits)
}

pub fn device_format_matches_config(format: &DeviceFormat, rate_hz: u32, bits_per_sample: u16) -> (b: bool)
    ensures
        b == format_matches(*format, rate_hz, bits_per_sample),
{
    let valid_bits = format.valid_bits_per_sample;
    format.samples_per_sec == rate_hz && format.channels == CHANNELS && format.bits_per_sample == bits_per_sample
        && (valid_bits == 0 || valid_bits == bits_per_sample)
}

/// The capture endpoint's shared-mode format is switched only for a shared
/// capture, and not when the user asked to leave it.
pub fn shared_format_change_needed(capture_mode: CaptureMode, mode: SharedFormatMode) -> (b: bool)
    ensures
        b == (capture_mode == CaptureMode::Shared && mode != SharedFormatMode::Leave),
{
    !(capture_mode != CaptureMode::Shared || mode == SharedFormatMode::Leave)
}

/// What must be written back once a test that switched the capture format
/// is done: the endpoint and its original blob, kept only in the
/// set-and-restore mode.
pub struct SharedFormatGuard {
    pub endpoint_id: String,
    pub original_blob: Option<Vec<u8>>,
}

impl SharedFormatGuard {
    /// The guard after switching `endpoint_id` away from `original_blob`.
    pub fn after_switch(endpoint_id: String, original_blob: Vec<u8>, mode: SharedFormatMode) -> (g: Self)
        ensures
            g.endpoint_id == endpoint_id,
            mode == SharedFormatMode::SetRestore ==> g.original_blob == Some(original_blob),
            mode != SharedFormatMode::SetRestore ==> g.original_blob is None,
    {
        let original_blob = if mode == SharedFormatMode::SetRestore {
            Some(original_blob)
        } else {
            None
        };
        SharedFormatGuard { endpoint_id, original_blob }
    }

    /// The write that restores the original format, if one is owed: the
    /// endpoint and the blob to put back.
    pub fn restore(self) -> (w: Option<(String, Vec<u8>)>)
        ensures
            match self.original_blob {
                Some(blob) => w == Some((self.endpoint_id, blob)),
                None => w is None,
            },
    {
        match self.original_blob {
            Some(blob) => Some((self.endpoint_id, blob)),
            None => None,
        }
    }
}

/// After a switch that did not take effect, the original format is put
/// back right away only in the set-and-restore mode.
pub fn restore_after_failed_switch(mode: SharedFormatMode) -> (b: bool)
    ensures
        b == (mode == SharedFormatMode::SetRestore),
{
    mode == SharedFormatMode::SetRestore
}

} // verus!
