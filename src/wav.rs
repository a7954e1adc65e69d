use vstd::prelude::*;

use crate::error::AppError;

verus! {

/// Length of the canonical RIFF/WAVE header this system writes.
pub const WAV_HEADER_LEN: usize = 44;

/// Format code of IEEE-float PCM; every file written here carries it.
pub const WAVE_FORMAT_IEEE_FLOAT: u16 = 3;

/// Bytes per persisted sample (32-bit float).
pub const BYTES_PER_SAMPLE: u16 = 4;

/// Little-endian bytes of a 16-bit value.
pub open spec fn le16(v: u16) -> Seq<u8> {
    seq![(v & 0xff) as u8, ((v >> 8u16) & 0xff) as u8]
}

/// Little-endian bytes of a 32-bit value.
pub open spec fn le32(v: u32) -> Seq<u8> {
    seq![
        (v & 0xff) as u8,
        ((v >> 8u32) & 0xff) as u8,
        ((v >> 16u32) & 0xff) as u8,
        ((v >> 24u32) & 0xff) as u8,
    ]
}

/// The 16-bit little-endian value stored at `i`.
pub open spec fn read_le16(b: Seq<u8>, i: int) -> u16 {
    ((b[i] as u16) | ((b[i + 1] as u16) << 8u16)) as u16
}

/// The 32-bit little-endian value stored at `i`.
pub open spec fn read_le32(b: Seq<u8>, i: int) -> u32 {
    ((b[i] as u32) | ((b[i + 1] as u32) << 8u32) | ((b[i + 2] as u32) << 16u32) | ((b[i + 3]
        as u32) << 24u32)) as u32
}

pub open spec fn tag_riff() -> Seq<u8> {
    seq![0x52u8, 0x49u8, 0x46u8, 0x46u8]
}

pub open spec fn tag_wave() -> Seq<u8> {
    seq![0x57u8, 0x41u8, 0x56u8, 0x45u8]
}

pub open spec fn tag_fmt() -> Seq<u8> {
    seq![0x66u8, 0x6du8, 0x74u8, 0x20u8]
}

pub open spec fn tag_data() -> Seq<u8> {
    seq![0x64u8, 0x61u8, 0x74u8, 0x61u8]
}

/// Channel counts and rates for which the float header fields fit their widths.
pub open spec fn header_fits(channels: u16, sample_rate: u32) -> bool {
    channels * 4 <= u16::MAX && sample_rate * (channels * 4) <= u32::MAX
}

/// RIFF chunk size for a given data size (saturating at the 32-bit limit).
pub open spec fn riff_size(data_size: u32) -> u32 {
    if data_size + 36 <= u32::MAX {
        (data_size + 36) as u32
    } else {
        u32::MAX
    }
}

/// The 44-byte IEEE-float header for `channels` × `sample_rate` and a data
/// chunk of `data_size` bytes.
pub open spec fn float_header(channels: u16, sample_rate: u32, data_size: u32) -> Seq<u8> {
    tag_riff() + le32(riff_size(data_size)) + tag_wave() + tag_fmt() + le32(16) + le16(
        WAVE_FORMAT_IEEE_FLOAT,
    ) + le16(channels) + le32(sample_rate) + le32((sample_rate * (channels * 4)) as u32) + le16(
        (channels * 4) as u16,
    ) + le16(32) + tag_data() + le32(data_size)
}

fn push_le16(out: &mut Vec<u8>, v: u16)
    ensures
        final(out)@ == old(out)@ + le16(v),
{
    out.push((v & 0xff) as u8);
    out.push(((v >> 8u16) & 0xff) as u8);
    assert(final(out)@ =~= old(out)@ + le16(v));
}

fn push_le32(out: &mut Vec<u8>, v: u32)
    ensures
        final(out)@ == old(out)@ + le32(v),
{
    out.push((v & 0xff) as u8);
    out.push(((v >> 8u32) & 0xff) as u8);
    out.push(((v >> 16u32) & 0xff) as u8);
    out.push(((v >> 24u32) & 0xff) as u8);
    assert(final(out)@ =~= old(out)@ + le32(v));
}

fn push_tag(out: &mut Vec<u8>, t: [u8; 4])
    ensures
        final(out)@ == old(out)@ + t@,
{
    out.push(t[0]);
    out.push(t[1]);
    out.push(t[2]);
    out.push(t[3]);
    assert(final(out)@ =~= old(out)@ + t@);
}

/// Encode the 44-byte header of an IEEE-float, 32-bit file.
pub fn encode_float_header(channels: u16, sample_rate: u32, data_size: u32) -> (r: Vec<u8>)
    requires
        header_fits(channels, sample_rate),
    ensures
        r@ == float_header(channels, sample_rate, data_size),
        r@.len() == WAV_HEADER_LEN,
{
    let block_align: u16 = channels * BYTES_PER_SAMPLE;
    let byte_rate: u32 = sample_rate * (block_align as u32);
    let chunk_size: u32 = if data_size <= u32::MAX - 36 {
        data_size + 36
    } else {
        u32::MAX
    };
    let riff: [u8; 4] = [0x52u8, 0x49u8, 0x46u8, 0x46u8];
    let wave: [u8; 4] = [0x57u8, 0x41u8, 0x56u8, 0x45u8];
    let fmt: [u8; 4] = [0x66u8, 0x6du8, 0x74u8, 0x20u8];
    let data: [u8; 4] = [0x64u8, 0x61u8, 0x74u8, 0x61u8];
    assert(riff@ =~= tag_riff());
    assert(wave@ =~= tag_wave());
    assert(fmt@ =~= tag_fmt());
    assert(data@ =~= tag_data());
    let mut out: Vec<u8> = Vec::new();
    push_tag(&mut out, riff);
    assert(out@ =~= tag_riff());
    push_le32(&mut out, chunk_size);
    push_tag(&mut out, wave);
    push_tag(&mut out, fmt);
    push_le32(&mut out, 16);
    push_le16(&mut out, WAVE_FORMAT_IEEE_FLOAT);
    push_le16(&mut out, channels);
    push_le32(&mut out, sample_rate);
    push_le32(&mut out, byte_rate);
    push_le16(&mut out, block_align);
    push_le16(&mut out, 32);
    push_tag(&mut out, data);
    push_le32(&mut out, data_size);
    out
}


/// Format information read from a waveform header.
#[derive(Debug, Clone, Copy, PartialEq, Eq)]
pub struct WavInfo {
    pub channels: u16,
    pub sample_rate: u32,
    pub bits_per_sample: u16,
    pub is_float: bool,
    pub data_offset: u64,
    pub data_size: u32,
}

/// Scans the chunk list from `pos` for a `data` chunk; gives the offset of
/// its payload and its declared size. Other chunks are skipped by their
/// declared size.
pub open spec fn data_chunk_at(b: Seq<u8>, pos: int) -> Option<(int, u32)>
    decreases b.len() - pos,
{
    if pos < 0 || pos + 8 > b.len() {
        None
    } else if b.subrange(pos, pos + 4) == tag_data() {
        Some((pos + 8, read_le32(b, pos + 4)))
    } else if pos + 8 + read_le32(b, pos + 4) > b.len() {
        None
    } else {
        data_chunk_at(b, pos + 8 + read_le32(b, pos + 4))
    }
}

/// What a header parse of the file bytes `b` yields.
pub open spec fn parse_header(b: Seq<u8>) -> Option<WavInfo> {
    if b.len() < 44 {
        None
    } else if b.subrange(0, 4) != tag_riff() || b.subrange(8, 12) != tag_wave() {
        None
    } else {
        match data_chunk_at(b, 12) {
            None => None,
            Some(found) => Some(
                WavInfo {
                    channels: read_le16(b, 22),
                    sample_rate: read_le32(b, 24),
                    bits_per_sample: read_le16(b, 34),
                    is_float: read_le16(b, 20) == WAVE_FORMAT_IEEE_FLOAT,
                    data_offset: found.0 as u64,
                    data_size: found.1,
                },
            ),
        }
    }
}

fn tag_at(b: &[u8], pos: usize, t: [u8; 4]) -> (r: bool)
    requires
        pos + 4 <= b@.len(),
    ensures
        r == (b@.subrange(pos as int, pos + 4) == t@),
{
    let r = b[pos] == t[0] && b[pos + 1] == t[1] && b[pos + 2] == t[2] && b[pos + 3] == t[3];
    proof {
        if r {
            assert(b@.subrange(pos as int, pos + 4) =~= t@);
        } else if b@.subrange(pos as int, pos + 4) == t@ {
            assert(b@.subrange(pos as int, pos + 4)[0] == t@[0]);
            assert(b@.subrange(pos as int, pos + 4)[1] == t@[1]);
            assert(b@.subrange(pos as int, pos + 4)[2] == t@[2]);
            assert(b@.subrange(pos as int, pos + 4)[3] == t@[3]);
        }
    }
    r
}

fn get_le16(b: &[u8], i: usize) -> (r: u16)
    requires
        i + 2 <= b@.len(),
    ensures
        r == read_le16(b@, i as int),
{
    ((b[i] as u16) | ((b[i + 1] as u16) << 8u16)) as u16
}

fn get_le32(b: &[u8], i: usize) -> (r: u32)
    requires
        i + 4 <= b@.len(),
    ensures
        r == read_le32(b@, i as int),
{
    ((b[i] as u32) | ((b[i + 1] as u32) << 8u32) | ((b[i + 2] as u32) << 16u32) | ((b[i + 3]
        as u32) << 24u32)) as u32
}

/// Parse the header of a waveform file held in `bytes`: check the RIFF/WAVE
/// magic, read the format fields, and scan the chunks from offset 12 for the
/// `data` chunk.
pub fn read_wav_header(bytes: &[u8]) -> (r: Result<WavInfo, AppError>)
    ensures
        match r {
            Ok(info) => parse_header(bytes@) == Some(info),
            Err(e) => parse_header(bytes@) is None && e is AudioEnhance,
        },
{
    let len = bytes.len();
    if len < WAV_HEADER_LEN {
        return Err(AppError::AudioEnhance(String::from_str("Read WAV header: file too short")));
    }
    let riff: [u8; 4] = [0x52u8, 0x49u8, 0x46u8, 0x46u8];
    let wave: [u8; 4] = [0x57u8, 0x41u8, 0x56u8, 0x45u8];
    let data: [u8; 4] = [0x64u8, 0x61u8, 0x74u8, 0x61u8];
    assert(riff@ =~= tag_riff());
    assert(wave@ =~= tag_wave());
    assert(data@ =~= tag_data());
    if !tag_at(bytes, 0, riff) || !tag_at(bytes, 8, wave) {
        return Err(AppError::AudioEnhance(String::from_str("Not a valid WAV file")));
    }
    let format_tag = get_le16(bytes, 20);
    let channels = get_le16(bytes, 22);
    let sample_rate = get_le32(bytes, 24);
    let bits_per_sample = get_le16(bytes, 34);
    let mut pos: usize = 12;
    loop
        invariant
            12 <= pos <= len,
            len == bytes@.len(),
            data@ == tag_data(),
            bytes@.subrange(0, 4) == tag_riff(),
            bytes@.subrange(8, 12) == tag_wave(),
            len >= 44,
            format_tag == read_le16(bytes@, 20),
            channels == read_le16(bytes@, 22),
            sample_rate == read_le32(bytes@, 24),
            bits_per_sample == read_le16(bytes@, 34),
            data_chunk_at(bytes@, pos as int) == data_chunk_at(bytes@, 12),
        decreases len - pos,
    {
        if pos > len - 8 {
            return Err(AppError::AudioEnhance(String::from_str("Read chunk header: no data chunk")));
        }
        let size = get_le32(bytes, pos + 4);
        if tag_at(bytes, pos, data) {
            assert(data_chunk_at(bytes@, pos as int) == Some(((pos + 8) as int, size)));
            return Ok(
                WavInfo {
                    channels,
                    sample_rate,
                    bits_per_sample,
                    is_float: format_tag == WAVE_FORMAT_IEEE_FLOAT,
                    data_offset: (pos + 8) as u64,
                    data_size: size,
                },
            );
        }
        if size as usize > len - 8 - pos {
            assert(data_chunk_at(bytes@, pos as int) is None);
            return Err(AppError::AudioEnhance(String::from_str("Read chunk header: no data chunk")));
        }
        pos = pos + 8 + size as usize;
    }
}

/// How the samples of a file are stored.
#[derive(Debug, Clone, Copy, PartialEq, Eq)]
pub enum SampleEncoding {
    /// 32-bit IEEE float.
    Float32,
    /// 16-bit signed integer, read as `s / 32768`.
    Pcm16,
}

impl WavInfo {
    /// The sample encoding of the file, for the two that can be read.
    pub fn sample_encoding(&self) -> (r: Result<SampleEncoding, AppError>)
        ensures
            self.is_float && self.bits_per_sample == 32 ==> r == Ok::<SampleEncoding, AppError>(
                SampleEncoding::Float32,
            ),
            !self.is_float && self.bits_per_sample == 16 ==> r == Ok::<SampleEncoding, AppError>(
                SampleEncoding::Pcm16,
            ),
            !(self.is_float && self.bits_per_sample == 32) && !(!self.is_float
                && self.bits_per_sample == 16) ==> r is Err && r->Err_0 is AudioEnhance,
    {
        if self.is_float && self.bits_per_sample == 32 {
            Ok(SampleEncoding::Float32)
        } else if !self.is_float && self.bits_per_sample == 16 {
            Ok(SampleEncoding::Pcm16)
        } else {
            Err(AppError::AudioEnhance(String::from_str("Unsupported WAV format")))
        }
    }

    /// The byte range of the sample payload within a file of `file_len`
    /// bytes; an error when the file ends before the declared payload does.
    pub fn payload_range(&self, file_len: usize) -> (r: Result<(usize, usize), AppError>)
        ensures
            self.data_offset + self.data_size <= file_len ==> r == Ok::<(usize, usize), AppError>(
                (self.data_offset as usize, (self.data_offset + self.data_size) as usize),
            ),
            self.data_offset + self.data_size > file_len ==> r is Err && r->Err_0 is AudioEnhance,
    {
        if self.data_offset > file_len as u64 || (self.data_size as u64) > file_len as u64
            - self.data_offset {
            return Err(AppError::AudioEnhance(String::from_str("Read audio data: file truncated")));
        }
        Ok((self.data_offset as usize, (self.data_offset + self.data_size as u64) as usize))
    }
}


proof fn lemma_le16_read(v: u16)
    ensures
        read_le16(le16(v), 0) == v,
{
    let b0 = (v & 0xff) as u8;
    let b1 = ((v >> 8u16) & 0xff) as u8;
    assert(((b0 as u16) | ((b1 as u16) << 8u16)) as u16 == v) by (bit_vector)
        requires
            b0 == (v & 0xff) as u8,
            b1 == ((v >> 8u16) & 0xff) as u8,
    ;
}

proof fn lemma_le32_read(v: u32)
    ensures
        read_le32(le32(v), 0) == v,
{
    let b0 = (v & 0xff) as u8;
    let b1 = ((v >> 8u32) & 0xff) as u8;
    let b2 = ((v >> 16u32) & 0xff) as u8;
    let b3 = ((v >> 24u32) & 0xff) as u8;
    assert(((b0 as u32) | ((b1 as u32) << 8u32) | ((b2 as u32) << 16u32) | ((b3 as u32)
        << 24u32)) as u32 == v) by (bit_vector)
        requires
            b0 == (v & 0xff) as u8,
            b1 == ((v >> 8u32) & 0xff) as u8,
            b2 == ((v >> 16u32) & 0xff) as u8,
            b3 == ((v >> 24u32) & 0xff) as u8,
    ;
}

proof fn lemma_read_le16_shift(b: Seq<u8>, i: int, w: Seq<u8>)
    requires
        0 <= i,
        i + 2 <= b.len(),
        b.subrange(i, i + 2) == w,
    ensures
        read_le16(b, i) == read_le16(w, 0),
{
    assert(b[i] == w[0]);
    assert(b[i + 1] == w[1]);
}

proof fn lemma_read_le32_shift(b: Seq<u8>, i: int, w: Seq<u8>)
    requires
        0 <= i,
        i + 4 <= b.len(),
        b.subrange(i, i + 4) == w,
    ensures
        read_le32(b, i) == read_le32(w, 0),
{
    assert(b[i] == w[0]);
    assert(b[i + 1] == w[1]);
    assert(b[i + 2] == w[2]);
    assert(b[i + 3] == w[3]);
}

/// Reading back a header this system wrote, followed by any payload, gives
/// the written channel count, rate and data size, 32-bit float samples, and
/// the payload starting right after the 44 header bytes.
pub proof fn lemma_header_round_trip(
    channels: u16,
    sample_rate: u32,
    data_size: u32,
    payload: Seq<u8>,
)
    requires
        header_fits(channels, sample_rate),
    ensures
        parse_header(float_header(channels, sample_rate, data_size) + payload) == Some(
            WavInfo {
                channels,
                sample_rate,
                bits_per_sample: 32,
                is_float: true,
                data_offset: WAV_HEADER_LEN as u64,
                data_size,
            },
        ),
{
    let h = float_header(channels, sample_rate, data_size);
    let b = h + payload;
    let block_align = (channels * 4) as u16;
    let byte_rate = (sample_rate * (channels * 4)) as u32;
    assert(h.len() == 44);
    assert(b.subrange(0, 44) =~= h);
    assert(b.subrange(0, 4) =~= tag_riff());
    assert(b.subrange(8, 12) =~= tag_wave());
    assert(b.subrange(12, 16) =~= tag_fmt());
    assert(b.subrange(16, 20) =~= le32(16));
    assert(b.subrange(20, 22) =~= le16(WAVE_FORMAT_IEEE_FLOAT));
    assert(b.subrange(22, 24) =~= le16(channels));
    assert(b.subrange(24, 28) =~= le32(sample_rate));
    assert(b.subrange(34, 36) =~= le16(32));
    assert(b.subrange(36, 40) =~= tag_data());
    assert(b.subrange(40, 44) =~= le32(data_size));
    lemma_read_le32_shift(b, 16, le32(16));
    lemma_le32_read(16);
    lemma_read_le16_shift(b, 20, le16(WAVE_FORMAT_IEEE_FLOAT));
    lemma_le16_read(WAVE_FORMAT_IEEE_FLOAT);
    lemma_read_le16_shift(b, 22, le16(channels));
    lemma_le16_read(channels);
    lemma_read_le32_shift(b, 24, le32(sample_rate));
    lemma_le32_read(sample_rate);
    lemma_read_le16_shift(b, 34, le16(32));
    lemma_le16_read(32);
    lemma_read_le32_shift(b, 40, le32(data_size));
    lemma_le32_read(data_size);
    assert(b.subrange(12, 16) != tag_data()) by {
        assert(b.subrange(12, 16)[0] != tag_data()[0]);
    }
    assert(data_chunk_at(b, 36) == Some((44int, data_size)));
    assert(data_chunk_at(b, 12) == Some((44int, data_size)));
}

} // verus!
