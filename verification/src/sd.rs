//! WAV container logic, the storage sink model, and the storage task policy.
//!
//! The sink follows the reserve-and-patch strategy for indefinite-duration
//! capture: `open` emits a 44-byte header with a zero data length, `append`
//! accounts raw sample bytes as the storage layer writes them, and
//! `finalize` emits the same header with both length fields patched to the
//! actual data length, to be rewritten over the file's first 44 bytes.
//! A ghost byte sequence models the file contents end to end.
//!
//! Captured words carry 24 significant bits; the persisted depth is 16 bits.
//! Repacking keeps the top 16 of the 24 significant bits and truncates the
//! low 8 (no rounding): see `spec_repack16`.

use vstd::arithmetic::div_mod::lemma_fundamental_div_mod_converse;
use vstd::prelude::*;

use crate::StorageError;

verus! {

/// The two bytes of a 16-bit value, least significant first.
pub open spec fn u16_le(x: u16) -> Seq<u8> {
    seq![(x & 0xFF) as u8, ((x >> 8) & 0xFF) as u8]
}

/// The four bytes of a 32-bit value, least significant first.
pub open spec fn u32_le(x: u32) -> Seq<u8> {
    seq![
        (x & 0xFF) as u8,
        ((x >> 8) & 0xFF) as u8,
        ((x >> 16) & 0xFF) as u8,
        ((x >> 24) & 0xFF) as u8,
    ]
}

/// The value of two little-endian bytes.
pub open spec fn le_u16(b: Seq<u8>) -> int
    recommends
        b.len() == 2,
{
    b[0] + 256 * b[1]
}

/// The value of four little-endian bytes.
pub open spec fn le_u32(b: Seq<u8>) -> int
    recommends
        b.len() == 4,
{
    b[0] + 256 * b[1] + 65536 * b[2] + 16777216 * b[3]
}

/// Reading back the two little-endian bytes gives the value.
pub proof fn lemma_u16_le_roundtrip(x: u16)
    ensures
        le_u16(u16_le(x)) == x,
{
    assert(x & 0xFF < 256) by (bit_vector);
    assert((x >> 8) & 0xFF < 256) by (bit_vector);
    assert((x & 0xFF) + 256 * ((x >> 8) & 0xFF) == x) by (bit_vector);
}

/// Reading back the four little-endian bytes gives the value.
pub proof fn lemma_u32_le_roundtrip(x: u32)
    ensures
        le_u32(u32_le(x)) == x,
{
    assert(x & 0xFF < 256) by (bit_vector);
    assert((x >> 8) & 0xFF < 256) by (bit_vector);
    assert((x >> 16) & 0xFF < 256) by (bit_vector);
    assert((x >> 24) & 0xFF < 256) by (bit_vector);
    assert((x & 0xFF) + 256 * ((x >> 8) & 0xFF) + 65536 * ((x >> 16) & 0xFF) + 16777216 * ((x
        >> 24) & 0xFF) == x) by (bit_vector);
}

/// Average bytes per second of the stream: `sample_rate * channels * bits / 8`.
pub open spec fn spec_byte_rate(sample_rate: u32, channels: u16, bits_per_sample: u16) -> int {
    (sample_rate * channels * bits_per_sample) / 8
}

/// Bytes per frame across all channels: `channels * (bits / 8)`.
pub open spec fn spec_block_align(channels: u16, bits_per_sample: u16) -> int {
    channels * (bits_per_sample / 8)
}

/// The format values a 44-byte WAV header can describe: the derived fields
/// fit their fixed-width slots and the data length leaves room for the
/// 36 bytes of header bookkeeping in the RIFF chunk size.
pub open spec fn wav_args_wf(
    sample_rate: u32,
    channels: u16,
    bits_per_sample: u16,
    data_len: u32,
) -> bool {
    &&& sample_rate * channels <= u32::MAX
    &&& sample_rate * channels * bits_per_sample <= u32::MAX
    &&& spec_block_align(channels, bits_per_sample) <= u16::MAX
    &&& data_len <= u32::MAX - 36
}

/// The canonical 44-byte PCM WAV header, field by field, little-endian:
/// `RIFF` tag, chunk size `36 + data_len`, `WAVE` tag, `fmt ` subchunk of
/// size 16 with audio format 1 (PCM), channel count, sample rate, byte
/// rate, block align and bits per sample, then the `data` tag and the data
/// length.
pub open spec fn spec_wav_header(
    sample_rate: u32,
    channels: u16,
    bits_per_sample: u16,
    data_len: u32,
) -> Seq<u8> {
    seq![0x52u8, 0x49u8, 0x46u8, 0x46u8] + u32_le((data_len + 36) as u32) + seq![
        0x57u8,
        0x41u8,
        0x56u8,
        0x45u8,
    ] + seq![0x66u8, 0x6Du8, 0x74u8, 0x20u8] + u32_le(16u32) + u16_le(1u16) + u16_le(channels)
        + u32_le(sample_rate) + u32_le(spec_byte_rate(sample_rate, channels, bits_per_sample) as u32)
        + u16_le(spec_block_align(channels, bits_per_sample) as u16) + u16_le(bits_per_sample)
        + seq![0x64u8, 0x61u8, 0x74u8, 0x61u8] + u32_le(data_len)
}

/// Append the two little-endian bytes of the value.
fn push_u16_le(v: &mut Vec<u8>, x: u16)
    ensures
        final(v)@ == old(v)@ + u16_le(x),
{
    v.push((x & 0xFF) as u8);
    v.push(((x >> 8) & 0xFF) as u8);
    proof {
        assert(final(v)@ =~= old(v)@ + u16_le(x));
    }
}

/// Append the four little-endian bytes of the value.
fn push_u32_le(v: &mut Vec<u8>, x: u32)
    ensures
        final(v)@ == old(v)@ + u32_le(x),
{
    v.push((x & 0xFF) as u8);
    v.push(((x >> 8) & 0xFF) as u8);
    v.push(((x >> 16) & 0xFF) as u8);
    v.push(((x >> 24) & 0xFF) as u8);
    proof {
        assert(final(v)@ =~= old(v)@ + u32_le(x));
    }
}

/// Build the canonical 44-byte PCM WAV header for the given format.
pub fn create_wav_header(
    sample_rate: u32,
    channels: u16,
    bits_per_sample: u16,
    data_len: u32,
) -> (r: Vec<u8>)
    requires
        wav_args_wf(sample_rate, channels, bits_per_sample, data_len),
    ensures
        r@ == spec_wav_header(sample_rate, channels, bits_per_sample, data_len),
        r@.len() == 44,
{
    let byte_rate: u32 = sample_rate * (channels as u32) * (bits_per_sample as u32) / 8;
    let block_align: u16 = channels * (bits_per_sample / 8);
    let chunk_size: u32 = 36 + data_len;
    let mut header: Vec<u8> = Vec::new();
    header.push(0x52);
    header.push(0x49);
    header.push(0x46);
    header.push(0x46);
    push_u32_le(&mut header, chunk_size);
    header.push(0x57);
    header.push(0x41);
    header.push(0x56);
    header.push(0x45);
    header.push(0x66);
    header.push(0x6D);
    header.push(0x74);
    header.push(0x20);
    push_u32_le(&mut header, 16);
    push_u16_le(&mut header, 1);
    push_u16_le(&mut header, channels);
    push_u32_le(&mut header, sample_rate);
    push_u32_le(&mut header, byte_rate);
    push_u16_le(&mut header, block_align);
    push_u16_le(&mut header, bits_per_sample);
    header.push(0x64);
    header.push(0x61);
    header.push(0x74);
    header.push(0x61);
    push_u32_le(&mut header, data_len);
    proof {
        assert(header@ =~= spec_wav_header(sample_rate, channels, bits_per_sample, data_len));
    }
    header
}

/// What a 44-byte sequence means as a WAV header: the four field values, if
/// and only if every tag, constant and derived field is consistent.
pub open spec fn spec_parse_wav_header(h: Seq<u8>) -> Option<(u32, u16, u16, u32)> {
    if h.len() == 44 {
        let sr = le_u32(h.subrange(24, 28));
        let ch = le_u16(h.subrange(22, 24));
        let bps = le_u16(h.subrange(34, 36));
        let dl = le_u32(h.subrange(40, 44));
        if h.subrange(0, 4) == seq![0x52u8, 0x49u8, 0x46u8, 0x46u8] && h.subrange(8, 12) == seq![
            0x57u8,
            0x41u8,
            0x56u8,
            0x45u8,
        ] && h.subrange(12, 16) == seq![0x66u8, 0x6Du8, 0x74u8, 0x20u8] && h.subrange(36, 40)
            == seq![0x64u8, 0x61u8, 0x74u8, 0x61u8] && le_u32(h.subrange(16, 20)) == 16 && le_u16(
            h.subrange(20, 22),
        ) == 1 && le_u32(h.subrange(4, 8)) == 36 + dl && le_u32(h.subrange(28, 32)) == (sr * ch
            * bps) / 8 && le_u16(h.subrange(32, 34)) == ch * (bps / 8) {
            Some(((sr as u32), (ch as u16), (bps as u16), (dl as u32)))
        } else {
            None
        }
    } else {
        None
    }
}

/// Read two little-endian bytes at the offset.
fn read_u16_le(v: &Vec<u8>, i: usize) -> (r: u16)
    requires
        i + 2 <= v@.len(),
    ensures
        r == le_u16(v@.subrange(i as int, i + 2)),
{
    let n = v.len();
    let r = (v[i] as u16) + 256 * (v[i + 1] as u16);
    proof {
        assert(i + 2 <= n);
        let b = v@.subrange(i as int, i + 2);
        assert(b[0] == v@[i as int] && b[1] == v@[i as int + 1]);
    }
    r
}

/// Read four little-endian bytes at the offset.
fn read_u32_le(v: &Vec<u8>, i: usize) -> (r: u32)
    requires
        i + 4 <= v@.len(),
    ensures
        r == le_u32(v@.subrange(i as int, i + 4)),
{
    let n = v.len();
    let r = (v[i] as u32) + 256 * (v[i + 1] as u32) + 65536 * (v[i + 2] as u32) + 16777216 * (v[i
        + 3] as u32);
    proof {
        assert(i + 4 <= n);
        let b = v@.subrange(i as int, i + 4);
        assert(b[0] == v@[i as int] && b[1] == v@[i as int + 1] && b[2] == v@[i as int + 2] && b[3]
            == v@[i as int + 3]);
    }
    r
}

/// Decode a 44-byte WAV header back into its four field values, exactly as
/// `spec_parse_wav_header` describes: tags, constants and derived fields
/// are all checked.
pub fn parse_wav_header(h: &Vec<u8>) -> (r: Option<(u32, u16, u16, u32)>)
    ensures
        r == spec_parse_wav_header(h@),
{
    if h.len() != 44 {
        return None;
    }
    let sr = read_u32_le(h, 24);
    let ch = read_u16_le(h, 22);
    let bps = read_u16_le(h, 34);
    let dl = read_u32_le(h, 40);
    let chunk = read_u32_le(h, 4);
    let fmt_size = read_u32_le(h, 16);
    let audio_fmt = read_u16_le(h, 20);
    let byte_rate = read_u32_le(h, 28);
    let block_align = read_u16_le(h, 32);
    let tags_ok = h[0] == 0x52 && h[1] == 0x49 && h[2] == 0x46 && h[3] == 0x46 && h[8] == 0x57
        && h[9] == 0x41 && h[10] == 0x56 && h[11] == 0x45 && h[12] == 0x66 && h[13] == 0x6D
        && h[14] == 0x74 && h[15] == 0x20 && h[36] == 0x64 && h[37] == 0x61 && h[38] == 0x74
        && h[39] == 0x61;
    proof {
        assert(tags_ok <==> (h@.subrange(0, 4) =~= seq![0x52u8, 0x49u8, 0x46u8, 0x46u8]
            && h@.subrange(8, 12) =~= seq![0x57u8, 0x41u8, 0x56u8, 0x45u8] && h@.subrange(12, 16)
            =~= seq![0x66u8, 0x6Du8, 0x74u8, 0x20u8] && h@.subrange(36, 40) =~= seq![
            0x64u8,
            0x61u8,
            0x74u8,
            0x61u8,
        ]));
    }
    proof {
        assert((sr as int) * (ch as int) <= 0xFFFF_FFFF * 0xFFFF) by (nonlinear_arith)
            requires
                sr as int <= 0xFFFF_FFFF,
                ch as int <= 0xFFFF,
        ;
    }
    let prod01: u64 = (sr as u64) * (ch as u64);
    proof {
        assert((prod01 as int) * (bps as int) <= 0x1_0000_0000_0000 * 0xFFFF) by (nonlinear_arith)
            requires
                prod01 as int <= 0x1_0000_0000_0000,
                bps as int <= 0xFFFF,
        ;
    }
    let prod: u64 = prod01 * (bps as u64);
    proof {
        assert(prod == (sr as int) * (ch as int) * (bps as int));
    }
    proof {
        assert((ch as int) * ((bps / 8) as int) <= 0xFFFF * 0x1FFF) by (nonlinear_arith)
            requires
                ch as int <= 0xFFFF,
                (bps / 8) as int <= 0x1FFF,
        ;
    }
    let expect_align: u32 = (ch as u32) * ((bps / 8) as u32);
    let consistent = tags_ok && fmt_size == 16 && audio_fmt == 1 && (chunk as u64) == 36 + (
    dl as u64) && (byte_rate as u64) == prod / 8 && (block_align as u32) == expect_align;
    if consistent {
        Some((sr, ch, bps, dl))
    } else {
        None
    }
}

/// Building a header and decoding it gives back exactly the four values it
/// was built from, for every format a header can describe.
pub proof fn lemma_wav_header_roundtrip(
    sample_rate: u32,
    channels: u16,
    bits_per_sample: u16,
    data_len: u32,
)
    requires
        wav_args_wf(sample_rate, channels, bits_per_sample, data_len),
    ensures
        spec_parse_wav_header(spec_wav_header(sample_rate, channels, bits_per_sample, data_len))
            == Some((sample_rate, channels, bits_per_sample, data_len)),
{
    let h = spec_wav_header(sample_rate, channels, bits_per_sample, data_len);
    assert(h.len() == 44);
    assert(h.subrange(0, 4) =~= seq![0x52u8, 0x49u8, 0x46u8, 0x46u8]);
    assert(h.subrange(4, 8) =~= u32_le((data_len + 36) as u32));
    assert(h.subrange(8, 12) =~= seq![0x57u8, 0x41u8, 0x56u8, 0x45u8]);
    assert(h.subrange(12, 16) =~= seq![0x66u8, 0x6Du8, 0x74u8, 0x20u8]);
    assert(h.subrange(16, 20) =~= u32_le(16u32));
    assert(h.subrange(20, 22) =~= u16_le(1u16));
    assert(h.subrange(22, 24) =~= u16_le(channels));
    assert(h.subrange(24, 28) =~= u32_le(sample_rate));
    assert(h.subrange(28, 32) =~= u32_le(
        spec_byte_rate(sample_rate, channels, bits_per_sample) as u32,
    ));
    assert(h.subrange(32, 34) =~= u16_le(spec_block_align(channels, bits_per_sample) as u16));
    assert(h.subrange(34, 36) =~= u16_le(bits_per_sample));
    assert(h.subrange(36, 40) =~= seq![0x64u8, 0x61u8, 0x74u8, 0x61u8]);
    assert(h.subrange(40, 44) =~= u32_le(data_len));
    lemma_u32_le_roundtrip((data_len + 36) as u32);
    lemma_u32_le_roundtrip(16u32);
    lemma_u16_le_roundtrip(1u16);
    lemma_u16_le_roundtrip(channels);
    lemma_u32_le_roundtrip(sample_rate);
    lemma_u32_le_roundtrip(spec_byte_rate(sample_rate, channels, bits_per_sample) as u32);
    lemma_u16_le_roundtrip(spec_block_align(channels, bits_per_sample) as u16);
    lemma_u16_le_roundtrip(bits_per_sample);
    lemma_u32_le_roundtrip(data_len);
}


/// Two little-endian bytes are determined by their value: any two-byte
/// sequence whose value is `x` is exactly `u16_le(x)`.
proof fn lemma_le_u16_determines(b: Seq<u8>, x: u16)
    requires
        b.len() == 2,
        le_u16(b) == x,
    ensures
        b =~= u16_le(x),
{
    let b0 = b[0] as int;
    let b1 = b[1] as int;
    lemma_fundamental_div_mod_converse(x as int, 256, b1, b0);
    assert(x & 0xFF == x % 256) by (bit_vector);
    assert((x >> 8) & 0xFF == (x / 256) % 256) by (bit_vector);
    assert(x / 256 < 256) by (bit_vector);
    assert((x / 256) % 256 == x / 256);
}

/// Four little-endian bytes are determined by their value: any four-byte
/// sequence whose value is `x` is exactly `u32_le(x)`.
proof fn lemma_le_u32_determines(b: Seq<u8>, x: u32)
    requires
        b.len() == 4,
        le_u32(b) == x,
    ensures
        b =~= u32_le(x),
{
    let b0 = b[0] as int;
    let b1 = b[1] as int;
    let b2 = b[2] as int;
    let b3 = b[3] as int;
    let m1 = b1 + 256 * b2 + 65536 * b3;
    let m2 = b2 + 256 * b3;
    lemma_fundamental_div_mod_converse(x as int, 256, m1, b0);
    lemma_fundamental_div_mod_converse(m1, 256, m2, b1);
    lemma_fundamental_div_mod_converse(m2, 256, b3, b2);
    assert(x & 0xFF == x % 256) by (bit_vector);
    assert((x >> 8) & 0xFF == (x / 256) % 256) by (bit_vector);
    assert((x >> 16) & 0xFF == ((x / 256) / 256) % 256) by (bit_vector);
    assert((x >> 24) & 0xFF == ((x / 256) / 256) / 256) by (bit_vector);
}

/// Parsing is sound as well as complete: a 44-byte sequence decodes to
/// field values only if it is, byte for byte, the header built from those
/// values. Together with `lemma_wav_header_roundtrip` this makes the
/// header format a bijection between decodable headers and their fields.
pub proof fn lemma_wav_header_parse_sound(h: Seq<u8>, sr: u32, ch: u16, bps: u16, dl: u32)
    requires
        spec_parse_wav_header(h) == Some((sr, ch, bps, dl)),
    ensures
        h == spec_wav_header(sr, ch, bps, dl),
{
    assert(h.len() == 44);
    lemma_le_u32_determines(h.subrange(24, 28), sr);
    lemma_le_u16_determines(h.subrange(22, 24), ch);
    lemma_le_u16_determines(h.subrange(34, 36), bps);
    lemma_le_u32_determines(h.subrange(40, 44), dl);
    lemma_le_u32_determines(h.subrange(4, 8), (dl + 36) as u32);
    lemma_le_u32_determines(h.subrange(16, 20), 16u32);
    lemma_le_u16_determines(h.subrange(20, 22), 1u16);
    lemma_le_u32_determines(
        h.subrange(28, 32),
        spec_byte_rate(sr, ch, bps) as u32,
    );
    lemma_le_u16_determines(
        h.subrange(32, 34),
        spec_block_align(ch, bps) as u16,
    );
    assert(h =~= spec_wav_header(sr, ch, bps, dl));
}

/// 16-bit repacking of one captured word: the 24 significant bits sit in
/// the word's low 24 bits; the top 16 of them are kept and the low 8
/// truncated (no rounding).
pub open spec fn spec_repack16(w: u32) -> u16 {
    ((w >> 8) & 0xFFFF) as u16
}

/// A whole buffer repacked to the persisted depth: two little-endian bytes
/// per captured word, in capture order.
pub open spec fn spec_repacked(ws: Seq<u32>) -> Seq<u8>
    decreases ws.len(),
{
    if ws.len() == 0 {
        Seq::empty()
    } else {
        spec_repacked(ws.drop_last()) + u16_le(spec_repack16(ws.last()))
    }
}

/// Each word contributes exactly two bytes.
pub proof fn lemma_repacked_len(ws: Seq<u32>)
    ensures
        spec_repacked(ws).len() == 2 * ws.len(),
    decreases ws.len(),
{
    if ws.len() > 0 {
        lemma_repacked_len(ws.drop_last());
    }
}

/// Repack one buffer of captured words for persistence.
pub fn repack_buffer(words: &Vec<u32>) -> (r: Vec<u8>)
    ensures
        r@ == spec_repacked(words@),
        r@.len() == 2 * words@.len(),
{
    let mut out: Vec<u8> = Vec::new();
    let mut k: usize = 0;
    while k < words.len()
        invariant
            k <= words@.len(),
            out@ == spec_repacked(words@.take(k as int)),
            out@.len() == 2 * k,
        decreases words@.len() - k,
    {
        let w = words[k];
        let s: u16 = ((w >> 8) & 0xFFFF) as u16;
        push_u16_le(&mut out, s);
        proof {
            let t = words@.take(k as int + 1);
            assert(t.drop_last() =~= words@.take(k as int));
            assert(t.last() == words@[k as int]);
        }
        k += 1;
    }
    proof {
        assert(words@.take(words@.len() as int) =~= words@);
    }
    out
}

/// The file contents after a run of appends, one repacked buffer each.
pub open spec fn spec_appended(file: Seq<u8>, bufs: Seq<Seq<u32>>) -> Seq<u8>
    decreases bufs.len(),
{
    if bufs.len() == 0 {
        file
    } else {
        spec_appended(file + spec_repacked(bufs.first()), bufs.drop_first())
    }
}

/// End-to-end size law: a capture of `n` buffers of `w` words each, opened
/// with the 44-byte header and appended buffer by buffer, yields a file of
/// exactly `44 + n * w * 2` bytes — `bits_per_sample / 8` is 2 at the
/// persisted 16-bit depth.
pub proof fn lemma_capture_file_size(file: Seq<u8>, bufs: Seq<Seq<u32>>, w: nat)
    requires
        file.len() == 44,
        forall|i: int| 0 <= i < bufs.len() ==> #[trigger] bufs[i].len() == w,
    ensures
        spec_appended(file, bufs).len() == 44 + bufs.len() * (w * 2),
{
    lemma_appended_len(file, bufs, w);
}

/// Induction behind `lemma_capture_file_size`, for any starting length.
proof fn lemma_appended_len(file: Seq<u8>, bufs: Seq<Seq<u32>>, w: nat)
    requires
        forall|i: int| 0 <= i < bufs.len() ==> #[trigger] bufs[i].len() == w,
    ensures
        spec_appended(file, bufs).len() == file.len() + bufs.len() * (w * 2),
    decreases bufs.len(),
{
    if bufs.len() == 0 {
    } else {
        lemma_repacked_len(bufs.first());
        let file2 = file + spec_repacked(bufs.first());
        assert(file2.len() == file.len() + 2 * w);
        lemma_appended_len(file2, bufs.drop_first(), w);
        assert(bufs.drop_first().len() * (w * 2) + (w * 2) == bufs.len() * (w * 2))
            by (nonlinear_arith)
            requires
                bufs.len() >= 1,
                bufs.drop_first().len() == bufs.len() - 1,
        ;
    }
}

/// Storage sink for one recording session: accounts what the storage layer
/// writes and keeps the header's bookkeeping exact. The ghost `file` is the
/// byte-for-byte model of the output file.
pub struct StorageSink {
    opened: bool,
    finalized: bool,
    sample_rate: u32,
    channels: u16,
    bits_per_sample: u16,
    data_len: u32,
    file: Ghost<Seq<u8>>,
}

impl StorageSink {
    /// The sink accepts appends.
    pub closed spec fn opened_spec(&self) -> bool {
        self.opened
    }

    /// The length fields were patched; the session is over.
    pub closed spec fn finalized_spec(&self) -> bool {
        self.finalized
    }

    /// Sample rate of the session.
    pub closed spec fn sample_rate_spec(&self) -> u32 {
        self.sample_rate
    }

    /// Channel count of the session.
    pub closed spec fn channels_spec(&self) -> u16 {
        self.channels
    }

    /// Persisted bits per sample.
    pub closed spec fn bits_per_sample_spec(&self) -> u16 {
        self.bits_per_sample
    }

    /// Raw sample bytes appended so far.
    pub closed spec fn data_len_spec(&self) -> u32 {
        self.data_len
    }

    /// Byte-for-byte model of the output file.
    pub closed spec fn file_spec(&self) -> Seq<u8> {
        self.file@
    }

    /// Sink invariant: the modelled file is always the 44-byte header plus
    /// exactly `data_len` sample bytes, and the format stays describable.
    pub open spec fn wf(&self) -> bool {
        self.opened_spec() ==> {
            &&& wav_args_wf(
                self.sample_rate_spec(),
                self.channels_spec(),
                self.bits_per_sample_spec(),
                self.data_len_spec(),
            )
            &&& self.file_spec().len() == 44 + self.data_len_spec()
            &&& self.finalized_spec() ==> self.file_spec() == spec_wav_header(
                self.sample_rate_spec(),
                self.channels_spec(),
                self.bits_per_sample_spec(),
                self.data_len_spec(),
            ) + self.file_spec().skip(44)
        }
    }

    /// Open a recording session on the storage medium's single volume,
    /// index 0. Succeeds exactly there and on formats a WAV header can
    /// describe, and hands back the provisional header (zero data length)
    /// for the storage layer to write at the start of the file.
    pub fn open(volume_index: usize, sample_rate: u32, channels: u16, bits_per_sample: u16) -> (r:
        Result<(StorageSink, Vec<u8>), StorageError>)
        ensures
            r is Ok <==> (volume_index == 0 && wav_args_wf(sample_rate, channels, bits_per_sample, 0)),
            volume_index != 0 ==> r == Err::<(StorageSink, Vec<u8>), StorageError>(
                StorageError::MountFailed,
            ),
            r matches Ok((s, hdr)) ==> {
                &&& s.wf()
                &&& s.opened_spec()
                &&& !s.finalized_spec()
                &&& s.data_len_spec() == 0
                &&& s.sample_rate_spec() == sample_rate
                &&& s.channels_spec() == channels
                &&& s.bits_per_sample_spec() == bits_per_sample
                &&& hdr@ == spec_wav_header(sample_rate, channels, bits_per_sample, 0)
                &&& s.file_spec() == hdr@
            },
            volume_index == 0 && r is Err ==> r == Err::<(StorageSink, Vec<u8>), StorageError>(
                StorageError::InvalidFormat,
            ),
    {
        if volume_index != 0 {
            return Err(StorageError::MountFailed);
        }
        proof {
            assert((sample_rate as int) * (channels as int) <= 0xFFFF_FFFF * 0xFFFF)
                by (nonlinear_arith)
                requires
                    sample_rate as int <= 0xFFFF_FFFF,
                    channels as int <= 0xFFFF,
            ;
        }
        let prod01: u64 = (sample_rate as u64) * (channels as u64);
        proof {
            assert((prod01 as int) * (bits_per_sample as int) <= 0x1_0000_0000_0000 * 0xFFFF)
                by (nonlinear_arith)
                requires
                    prod01 as int <= 0x1_0000_0000_0000,
                    bits_per_sample as int <= 0xFFFF,
            ;
        }
        let prod: u64 = prod01 * (bits_per_sample as u64);
        proof {
            assert(prod == (sample_rate as int) * (channels as int) * (bits_per_sample as int));
            assert((channels as int) * ((bits_per_sample / 8) as int) <= 0xFFFF * 0x1FFF)
                by (nonlinear_arith)
                requires
                    channels as int <= 0xFFFF,
                    (bits_per_sample / 8) as int <= 0x1FFF,
            ;
        }
        let block_align: u32 = (channels as u32) * ((bits_per_sample / 8) as u32);
        if prod01 > 0xFFFF_FFFFu64 || prod > 0xFFFF_FFFFu64 || block_align > 0xFFFFu32 {
            return Err(StorageError::InvalidFormat);
        }
        let hdr = create_wav_header(sample_rate, channels, bits_per_sample, 0);
        let ghost file = hdr@;
        Ok(
            (
                StorageSink {
                    opened: true,
                    finalized: false,
                    sample_rate,
                    channels,
                    bits_per_sample,
                    data_len: 0,
                    file: Ghost(file),
                },
                hdr,
            ),
        )
    }

    /// Account one chunk of raw sample bytes that the storage layer has
    /// appended to the file. Fails fast, changing nothing, when the sink is
    /// not open for writing or the 32-bit length fields would overflow.
    pub fn append(&mut self, bytes: &Vec<u8>) -> (r: Result<(), StorageError>)
        requires
            old(self).wf(),
        ensures
            final(self).wf(),
            !old(self).opened_spec() ==> r == Err::<(), StorageError>(StorageError::NotOpen)
                && *final(self) == *old(self),
            old(self).opened_spec() && old(self).finalized_spec() ==> r == Err::<(), StorageError>(
                StorageError::AlreadyFinalized,
            ) && *final(self) == *old(self),
            old(self).opened_spec() && !old(self).finalized_spec() && old(self).data_len_spec()
                + bytes@.len() > u32::MAX - 36 ==> r == Err::<(), StorageError>(
                StorageError::FileTooLarge,
            ) && *final(self) == *old(self),
            old(self).opened_spec() && !old(self).finalized_spec() && old(self).data_len_spec()
                + bytes@.len() <= u32::MAX - 36 ==> {
                &&& r == Ok::<(), StorageError>(())
                &&& final(self).data_len_spec() == old(self).data_len_spec() + bytes@.len()
                &&& final(self).file_spec() == old(self).file_spec() + bytes@
                &&& final(self).opened_spec() && !final(self).finalized_spec()
                &&& final(self).sample_rate_spec() == old(self).sample_rate_spec()
                &&& final(self).channels_spec() == old(self).channels_spec()
                &&& final(self).bits_per_sample_spec() == old(self).bits_per_sample_spec()
            },
    {
        if !self.opened {
            return Err(StorageError::NotOpen);
        }
        if self.finalized {
            return Err(StorageError::AlreadyFinalized);
        }
        let len = bytes.len();
        if (len as u64) > (0xFFFF_FFFFu64 - 36) - (self.data_len as u64) {
            return Err(StorageError::FileTooLarge);
        }
        self.data_len = self.data_len + (len as u32);
        let ghost file = self.file@ + bytes@;
        self.file = Ghost(file);
        Ok(())
    }

    /// Close the session: emits the header with both length fields patched
    /// to the actual data length, which the storage layer writes back over
    /// the file's first 44 bytes before flushing and closing.
    pub fn finalize(&mut self) -> (r: Result<Vec<u8>, StorageError>)
        requires
            old(self).wf(),
        ensures
            final(self).wf(),
            !old(self).opened_spec() ==> r == Err::<Vec<u8>, StorageError>(StorageError::NotOpen)
                && *final(self) == *old(self),
            old(self).opened_spec() && old(self).finalized_spec() ==> r == Err::<
                Vec<u8>,
                StorageError,
            >(StorageError::AlreadyFinalized) && *final(self) == *old(self),
            old(self).opened_spec() && !old(self).finalized_spec() ==> {
                &&& r matches Ok(hdr) && hdr@ == spec_wav_header(
                    old(self).sample_rate_spec(),
                    old(self).channels_spec(),
                    old(self).bits_per_sample_spec(),
                    old(self).data_len_spec(),
                )
                &&& final(self).finalized_spec() && final(self).opened_spec()
                &&& final(self).data_len_spec() == old(self).data_len_spec()
                &&& final(self).file_spec() == spec_wav_header(
                    old(self).sample_rate_spec(),
                    old(self).channels_spec(),
                    old(self).bits_per_sample_spec(),
                    old(self).data_len_spec(),
                ) + old(self).file_spec().skip(44)
                &&& final(self).file_spec().len() == old(self).file_spec().len()
            },
    {
        if !self.opened {
            return Err(StorageError::NotOpen);
        }
        if self.finalized {
            return Err(StorageError::AlreadyFinalized);
        }
        let hdr = create_wav_header(
            self.sample_rate,
            self.channels,
            self.bits_per_sample,
            self.data_len,
        );
        self.finalized = true;
        let ghost file = hdr@ + self.file@.skip(44);
        self.file = Ghost(file);
        proof {
            assert(final(self).file_spec().skip(44) =~= old(self).file_spec().skip(44));
        }
        Ok(hdr)
    }
}

/// States of the storage task.
#[derive(Clone, Copy, Debug, PartialEq, Eq, Structural)]
pub enum StorageTaskState {
    /// Waiting for the volume mount and file open.
    AwaitingMount,
    /// Writing buffers as they arrive.
    Recording,
    /// Halted on a fatal error, after surfacing it. Terminal.
    Halted,
    /// Finalized normally. Terminal.
    Finished,
}

/// What the outside world reports to the storage task.
#[derive(Clone, Copy, Debug, PartialEq, Eq, Structural)]
pub enum StorageTaskEvent {
    /// Volume mounted and file opened.
    MountOk,
    /// Mount or open failed.
    MountFailed,
    /// A buffer arrived on the channel.
    BufferReceived,
    /// Appending to the file failed.
    WriteFailed,
    /// The session is being ended.
    SessionEnd,
}

/// What the storage task asks the outside world to do next.
#[derive(Clone, Copy, Debug, PartialEq, Eq, Structural)]
pub enum StorageAction {
    /// Write the provisional header and start receiving.
    WriteHeader,
    /// Repack and append the received buffer.
    WriteBuffer,
    /// Surface the fatal error; do not retry, do not continue.
    ReportError,
    /// Patch the length fields, flush and close.
    Finalize,
    /// Nothing: the task is over.
    Nothing,
}

/// The storage task's whole decision table. Every fatal error halts the
/// task for good — the chosen policy is to halt the pipeline rather than
/// buffer without bound or drop data silently.
pub open spec fn spec_storage_task_step(s: StorageTaskState, e: StorageTaskEvent) -> (
    StorageTaskState,
    StorageAction,
) {
    match (s, e) {
        (StorageTaskState::AwaitingMount, StorageTaskEvent::MountOk) => (
            StorageTaskState::Recording,
            StorageAction::WriteHeader,
        ),
        (StorageTaskState::AwaitingMount, StorageTaskEvent::MountFailed) => (
            StorageTaskState::Halted,
            StorageAction::ReportError,
        ),
        (StorageTaskState::AwaitingMount, _) => (StorageTaskState::Halted, StorageAction::ReportError),
        (StorageTaskState::Recording, StorageTaskEvent::BufferReceived) => (
            StorageTaskState::Recording,
            StorageAction::WriteBuffer,
        ),
        (StorageTaskState::Recording, StorageTaskEvent::WriteFailed) => (
            StorageTaskState::Halted,
            StorageAction::ReportError,
        ),
        (StorageTaskState::Recording, StorageTaskEvent::SessionEnd) => (
            StorageTaskState::Finished,
            StorageAction::Finalize,
        ),
        (StorageTaskState::Recording, _) => (StorageTaskState::Halted, StorageAction::ReportError),
        (StorageTaskState::Halted, _) => (StorageTaskState::Halted, StorageAction::Nothing),
        (StorageTaskState::Finished, _) => (StorageTaskState::Finished, StorageAction::Nothing),
    }
}

/// Decide the storage task's next state and action for an event.
pub fn storage_task_step(s: StorageTaskState, e: StorageTaskEvent) -> (r: (
    StorageTaskState,
    StorageAction,
))
    ensures
        r == spec_storage_task_step(s, e),
{
    match (s, e) {
        (StorageTaskState::AwaitingMount, StorageTaskEvent::MountOk) => (
            StorageTaskState::Recording,
            StorageAction::WriteHeader,
        ),
        (StorageTaskState::AwaitingMount, _) => (StorageTaskState::Halted, StorageAction::ReportError),
        (StorageTaskState::Recording, StorageTaskEvent::BufferReceived) => (
            StorageTaskState::Recording,
            StorageAction::WriteBuffer,
        ),
        (StorageTaskState::Recording, StorageTaskEvent::SessionEnd) => (
            StorageTaskState::Finished,
            StorageAction::Finalize,
        ),
        (StorageTaskState::Recording, _) => (StorageTaskState::Halted, StorageAction::ReportError),
        (StorageTaskState::Halted, _) => (StorageTaskState::Halted, StorageAction::Nothing),
        (StorageTaskState::Finished, _) => (StorageTaskState::Finished, StorageAction::Nothing),
    }
}

/// A failed mount makes `open` fail with a storage error and the storage
/// task halt at once, surfacing the error; a halted task never acts again,
/// whatever else happens — termination is observable and nothing is
/// swallowed. Halting the whole pipeline is the chosen failure policy:
/// there is no fallback sink for captured buffers.
pub proof fn lemma_mount_failure_halts(e: StorageTaskEvent)
    ensures
        spec_storage_task_step(StorageTaskState::AwaitingMount, StorageTaskEvent::MountFailed) == (
            StorageTaskState::Halted,
            StorageAction::ReportError,
        ),
        spec_storage_task_step(StorageTaskState::Halted, e) == (
            StorageTaskState::Halted,
            StorageAction::Nothing,
        ),
{
}

/// Fields of a FAT filesystem timestamp, as plain values.
#[derive(Clone, Copy, Debug, PartialEq, Eq, Structural)]
pub struct Timestamp {
    pub year_since_1970: u8,
    pub zero_indexed_month: u8,
    pub zero_indexed_day: u8,
    pub hours: u8,
    pub minutes: u8,
    pub seconds: u8,
}

/// Fixed time source for the filesystem layer: the board has no clock, so
/// every directory entry carries the same timestamp.
pub struct DummyTime;

impl DummyTime {
    /// The constant timestamp: first day of 2025, midnight.
    pub fn get_timestamp(&self) -> (t: Timestamp)
        ensures
            t == (Timestamp {
                year_since_1970: 55,
                zero_indexed_month: 0,
                zero_indexed_day: 0,
                hours: 0,
                minutes: 0,
                seconds: 0,
            }),
    {
        Timestamp {
            year_since_1970: 55,
            zero_indexed_month: 0,
            zero_indexed_day: 0,
            hours: 0,
            minutes: 0,
            seconds: 0,
        }
    }
}

} // verus!
