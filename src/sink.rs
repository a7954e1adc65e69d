use vstd::prelude::*;

use crate::error::AppError;
use crate::wav::{
    encode_float_header, float_header, header_fits, le32, lemma_header_round_trip, parse_header,
    read_le16, WavInfo,
};

verus! {

/// Format of the PCM a loopback endpoint delivers.
#[derive(Debug, Clone, Copy, PartialEq, Eq)]
pub struct AudioFormat {
    pub sample_rate: u32,
    pub channels: u16,
    pub bits_per_sample: u16,
    pub is_float: bool,
}

/// Largest channel count a session accepts.
pub const MAX_CHANNELS: u16 = 8;

/// Formats the sink can persist: 1..=8 channels, with header fields that fit.
pub open spec fn writable_format(f: AudioFormat) -> bool {
    1 <= f.channels <= MAX_CHANNELS && header_fits(f.channels, f.sample_rate)
}

/// How source samples become persisted 32-bit float samples.
#[derive(Debug, Clone, Copy, PartialEq, Eq)]
pub enum SampleConversion {
    /// The source already is 32-bit float: bytes are copied.
    CopyFloat32,
    /// The source is 16-bit signed integer: each sample becomes `s / 32768`.
    Pcm16ToFloat32,
    /// Any other encoding is taken to be 32-bit float and copied.
    AssumeFloat32,
}

pub open spec fn conversion_of(f: AudioFormat) -> SampleConversion {
    if f.is_float && f.bits_per_sample == 32 {
        SampleConversion::CopyFloat32
    } else if !f.is_float && f.bits_per_sample == 16 {
        SampleConversion::Pcm16ToFloat32
    } else {
        SampleConversion::AssumeFloat32
    }
}

/// 2 to the power `e`.
pub open spec fn two_pow(e: nat) -> nat
    decreases e,
{
    if e == 0 {
        1
    } else {
        2 * two_pow((e - 1) as nat)
    }
}

/// Index of the highest set bit of `m` (0 for `m < 2`).
pub open spec fn top_bit(m: nat) -> nat
    decreases m,
{
    if m < 2 {
        0
    } else {
        1 + top_bit(m / 2)
    }
}

/// Magnitude of a 16-bit sample.
pub open spec fn magnitude(s: i16) -> nat {
    if s < 0 {
        (-(s as int)) as nat
    } else {
        s as nat
    }
}

/// Single-precision bits of the exact value `s / 32768`: sign bit, biased
/// exponent `127 + k - 15` where `2^k` is the top power of two of `|s|`,
/// and the bits of `|s|` below its top bit as the fraction.
pub open spec fn pcm16_float_bits(s: i16) -> u32 {
    if s == 0 {
        0
    } else {
        let m = magnitude(s);
        let k = top_bit(m);
        let sign: int = if s < 0 {
            0x8000_0000
        } else {
            0
        };
        (sign + (112 + k) * 0x80_0000 + (m - two_pow(k)) * two_pow((23 - k) as nat)) as u32
    }
}

/// The signed 16-bit sample `i` of a little-endian byte buffer.
pub open spec fn pcm16_sample(src: Seq<u8>, i: int) -> i16 {
    read_le16(src, 2 * i) as i16
}

/// Float bytes of the first `n` 16-bit samples of `src`.
pub open spec fn pcm16_as_float_bytes(src: Seq<u8>, n: nat) -> Seq<u8>
    decreases n,
{
    if n == 0 {
        Seq::empty()
    } else {
        pcm16_as_float_bytes(src, (n - 1) as nat) + le32(
            pcm16_float_bits(pcm16_sample(src, n - 1)),
        )
    }
}

/// The bytes persisted for `n` source samples held in `src`.
pub open spec fn persisted_bytes(c: SampleConversion, src: Seq<u8>, n: nat) -> Seq<u8> {
    match c {
        SampleConversion::Pcm16ToFloat32 => pcm16_as_float_bytes(src, n),
        _ => src.subrange(0, 4 * n as int),
    }
}

/// Bytes a source sample takes in the buffer handed to the sink.
pub open spec fn source_sample_width(c: SampleConversion) -> nat {
    match c {
        SampleConversion::Pcm16ToFloat32 => 2,
        _ => 4,
    }
}

proof fn lemma_top_bit_bound(m: nat)
    requires
        1 <= m,
    ensures
        two_pow(top_bit(m)) <= m < 2 * two_pow(top_bit(m)),
    decreases m,
{
    if m >= 2 {
        lemma_top_bit_bound(m / 2);
    }
}

proof fn lemma_two_pow_mono(a: nat, b: nat)
    requires
        a <= b,
    ensures
        two_pow(a) <= two_pow(b),
        1 <= two_pow(a),
    decreases b,
{
    if a < b {
        lemma_two_pow_mono(a, (b - 1) as nat);
    } else if a > 0 {
        lemma_two_pow_mono((a - 1) as nat, (a - 1) as nat);
    }
}

proof fn lemma_two_pow_add(a: nat, b: nat)
    ensures
        two_pow(a) * two_pow(b) == two_pow(a + b),
    decreases a,
{
    if a > 0 {
        lemma_two_pow_add((a - 1) as nat, b);
        assert(((a - 1) as nat + b) as nat == (a + b - 1) as nat);
        assert(two_pow(a + b) == 2 * two_pow((a + b - 1) as nat));
        assert(two_pow(a) == 2 * two_pow((a - 1) as nat));
        assert(two_pow(a) * two_pow(b) == 2 * (two_pow((a - 1) as nat) * two_pow(b)))
            by (nonlinear_arith)
            requires
                two_pow(a) == 2 * two_pow((a - 1) as nat),
        ;
    } else {
        assert(two_pow(a) == 1);
        assert(a + b == b);
    }
}

/// Sign bit of single-precision bits.
pub open spec fn float_negative(bits: u32) -> bool {
    bits >= 0x8000_0000
}

/// Biased exponent field of single-precision bits.
pub open spec fn float_exponent(bits: u32) -> nat {
    ((bits as nat / 0x80_0000) % 256) as nat
}

/// Fraction field of single-precision bits.
pub open spec fn float_fraction(bits: u32) -> nat {
    (bits as nat % 0x80_0000) as nat
}

proof fn lemma_top_bit_small(m: nat)
    requires
        1 <= m <= 32768,
    ensures
        top_bit(m) <= 15,
        two_pow(top_bit(m)) <= m < 2 * two_pow(top_bit(m)),
{
    lemma_top_bit_bound(m);
    reveal_with_fuel(two_pow, 17);
    if top_bit(m) > 15 {
        lemma_two_pow_mono(16, top_bit(m));
    }
}

/// The conversion is exact: zero gives +0.0, and any other sample gives a
/// normal float with the sample's sign whose value
/// `(2^23 + fraction) · 2^(exponent − 150)` equals `s / 32768`.
pub proof fn lemma_pcm16_bits_value(s: i16)
    ensures
        s == 0 ==> pcm16_float_bits(s) == 0,
        s != 0 ==> {
            let bits = pcm16_float_bits(s);
            &&& float_negative(bits) == (s < 0)
            &&& 1 <= float_exponent(bits) <= 254
            &&& (0x80_0000 + float_fraction(bits)) * two_pow(float_exponent(bits) + 15)
                == magnitude(s) * two_pow(150)
        },
{
    if s != 0 {
        let m = magnitude(s);
        let k = top_bit(m);
        lemma_top_bit_small(m);
        let p = two_pow(k);
        let sc = two_pow((23 - k) as nat);
        lemma_two_pow_add(k, (23 - k) as nat);
        assert(k + (23 - k) as nat == 23);
        assert(two_pow(23) == 0x80_0000) by {
            reveal_with_fuel(two_pow, 24);
        }
        assert(p * sc == 0x80_0000);
        let mant = (m - p) * sc;
        assert(mant < 0x80_0000) by (nonlinear_arith)
            requires
                m - p < p,
                p * sc == 0x80_0000,
                mant == (m - p) * sc,
        ;
        assert(mant >= 0) by (nonlinear_arith)
            requires
                m >= p,
                mant == (m - p) * sc,
        ;
        let sign: int = if s < 0 {
            0x8000_0000
        } else {
            0
        };
        let total: int = sign + (112 + k) * 0x80_0000 + mant;
        assert(0 <= total < 0x1_0000_0000);
        assert(pcm16_float_bits(s) as int == total);
        let bits = pcm16_float_bits(s);
        let hi: int = if s < 0 {
            256
        } else {
            0
        };
        assert(sign == hi * 0x80_0000);
        assert(total == (hi + 112 + k) * 0x80_0000 + mant) by (nonlinear_arith)
            requires
                total == sign + (112 + k) * 0x80_0000 + mant,
                sign == hi * 0x80_0000,
        ;
        assert(total / 0x80_0000 == hi + 112 + k) by (nonlinear_arith)
            requires
                total == (hi + 112 + k) * 0x80_0000 + mant,
                0 <= mant < 0x80_0000,
        ;
        assert(total % 0x80_0000 == mant) by (nonlinear_arith)
            requires
                total == (hi + 112 + k) * 0x80_0000 + mant,
                0 <= mant < 0x80_0000,
        ;
        assert(float_exponent(bits) == 112 + k);
        assert(float_fraction(bits) == mant);
        assert(float_negative(bits) == (s < 0));
        assert(0x80_0000 + mant == m * sc) by (nonlinear_arith)
            requires
                p * sc == 0x80_0000,
                mant == (m - p) * sc,
        ;
        lemma_two_pow_add((23 - k) as nat, (127 + k) as nat);
        assert((23 - k) as nat + (127 + k) as nat == 150);
        assert(float_exponent(bits) + 15 == 127 + k);
        assert(m * sc * two_pow((127 + k) as nat) == m * (sc * two_pow((127 + k) as nat)))
            by (nonlinear_arith)
        ;
    }
}

/// Single-precision bits of `s / 32768`, computed exactly on integers.
pub fn pcm16_to_float_bits(s: i16) -> (r: u32)
    ensures
        r == pcm16_float_bits(s),
{
    if s == 0 {
        return 0;
    }
    let m: u32 = if s < 0 {
        (0i32 - s as i32) as u32
    } else {
        s as u32
    };
    assert(m as nat == magnitude(s));
    let mut q: u32 = m;
    let mut p: u32 = 1;
    let mut scale: u32 = 0x80_0000;
    let mut k: u32 = 0;
    proof {
        lemma_top_bit_bound(m as nat);
        reveal_with_fuel(two_pow, 17);
        assert(two_pow(16) == 65536);
        if top_bit(m as nat) > 15 {
            lemma_two_pow_mono(16, top_bit(m as nat));
        }
        assert(two_pow(23) == 0x80_0000) by {
            reveal_with_fuel(two_pow, 24);
        }
    }
    while q >= 2
        invariant
            1 <= q,
            1 <= m <= 32768,
            p * q <= m < p * (q + 1),
            p as nat == two_pow(k as nat),
            k as nat + top_bit(q as nat) == top_bit(m as nat),
            top_bit(m as nat) <= 15,
            scale as nat == two_pow((23 - k) as nat),
            k <= 15,
        decreases q,
    {
        proof {
            assert(two_pow((23 - k) as nat) == 2 * two_pow((22 - k) as nat));
            assert(p * 2 <= p * q) by (nonlinear_arith)
                requires
                    q >= 2,
            ;
            assert(p * 2 * (q / 2) <= p * q) by (nonlinear_arith)
                requires
                    q >= 2,
            ;
            assert(p * (q + 1) <= p * 2 * (q / 2 + 1)) by (nonlinear_arith)
                requires
                    q >= 2,
            ;
        }
        q = q / 2;
        p = p * 2;
        scale = scale / 2;
        k = k + 1;
    }
    assert(q == 1);
    assert(p <= m < 2 * p);
    assert(k as nat == top_bit(m as nat));
    proof {
        lemma_two_pow_add(k as nat, (23 - k) as nat);
        assert(k as nat + (23 - k) as nat == 23);
    }
    assert((m - p) * scale < 0x80_0000) by (nonlinear_arith)
        requires
            m - p < p,
            p * scale == 0x80_0000,
    {
    }
    let sign: u32 = if s < 0 {
        0x8000_0000
    } else {
        0
    };
    let mant: u32 = (m - p) * scale;
    sign + (112 + k) * 0x80_0000 + mant
}


/// Which conversion a source format takes.
pub fn conversion_for(f: AudioFormat) -> (r: SampleConversion)
    ensures
        r == conversion_of(f),
{
    if f.is_float && f.bits_per_sample == 32 {
        SampleConversion::CopyFloat32
    } else if !f.is_float && f.bits_per_sample == 16 {
        SampleConversion::Pcm16ToFloat32
    } else {
        SampleConversion::AssumeFloat32
    }
}

/// The data-chunk size a header declares for `bytes` written bytes: the
/// count itself, clamped to the 32-bit limit.
pub open spec fn declared_data_size(bytes: u64) -> u32 {
    if bytes <= u32::MAX {
        bytes as u32
    } else {
        u32::MAX
    }
}

/// Streams PCM into a waveform file: it issues the 44-byte header, the bytes
/// each packet appends, and the patched header of the finished file, and
/// keeps count of what was appended. The file itself is held by the caller.
pub struct AudioWavWriter {
    format: AudioFormat,
    data_bytes_written: u64,
    total_frames: u64,
    appended: Ghost<Seq<u8>>,
}

impl AudioWavWriter {
    pub closed spec fn spec_format(&self) -> AudioFormat {
        self.format
    }

    pub closed spec fn spec_bytes(&self) -> u64 {
        self.data_bytes_written
    }

    pub closed spec fn spec_frames(&self) -> u64 {
        self.total_frames
    }

    /// Every byte handed out for the data chunk so far, in order.
    pub closed spec fn spec_data(&self) -> Seq<u8> {
        self.appended@
    }

    /// Bytes each frame takes once persisted.
    pub open spec fn frame_bytes(&self) -> nat {
        self.spec_format().channels as nat * 4
    }

    /// The writer's invariant: a writable format, and exactly
    /// `4 · channels` bytes appended per frame.
    pub open spec fn wf(&self) -> bool {
        &&& writable_format(self.spec_format())
        &&& self.spec_bytes() == self.spec_frames() * self.frame_bytes()
        &&& self.spec_data().len() == self.spec_bytes()
    }

    /// Whether `frame_count` more frames still fit the counters and one buffer.
    pub open spec fn fits(&self, frame_count: nat) -> bool {
        &&& self.spec_bytes() + frame_count * self.frame_bytes() <= u64::MAX
        &&& frame_count * self.frame_bytes() <= usize::MAX
    }

    /// Open a writer for `format`; also returns the placeholder header (data
    /// size 0) that starts the file. Fails with `WavEncode` on a format that
    /// cannot be written.
    pub fn create(format: AudioFormat) -> (r: Result<(AudioWavWriter, Vec<u8>), AppError>)
        ensures
            writable_format(format) <==> r is Ok,
            r matches Ok((w, h)) ==> {
                &&& w.wf()
                &&& w.spec_format() == format
                &&& w.spec_bytes() == 0
                &&& w.spec_frames() == 0
                &&& w.spec_data() == Seq::<u8>::empty()
                &&& h@ == float_header(format.channels, format.sample_rate, 0)
            },
            r matches Err(e) ==> e is WavEncode,
    {
        if format.channels < 1 || format.channels > MAX_CHANNELS || format.sample_rate > u32::MAX
            / ((format.channels * 4) as u32) {
            proof {
                if writable_format(format) {
                    let d = (format.channels * 4) as u32;
                    assert(format.sample_rate <= u32::MAX / d) by (nonlinear_arith)
                        requires
                            format.sample_rate * d <= u32::MAX,
                            d > 0,
                    ;
                }
            }
            return Err(AppError::WavEncode(String::from_str("Unsupported sample format")));
        }
        proof {
            let d = (format.channels * 4) as u32;
            assert(format.sample_rate * d <= u32::MAX) by (nonlinear_arith)
                requires
                    format.sample_rate <= u32::MAX / d,
                    d > 0,
            ;
        }
        let header = encode_float_header(format.channels, format.sample_rate, 0);
        let w = AudioWavWriter {
            format,
            data_bytes_written: 0,
            total_frames: 0,
            appended: Ghost(Seq::empty()),
        };
        assert(w.spec_bytes() == 0);
        assert(w.spec_frames() == 0);
        assert(w.spec_format() == format);
        assert(w.spec_frames() * w.frame_bytes() == 0);
        Ok((w, header))
    }

    pub fn format(&self) -> (r: AudioFormat)
        ensures
            r == self.spec_format(),
    {
        self.format
    }

    pub fn data_bytes_written(&self) -> (r: u64)
        ensures
            r == self.spec_bytes(),
    {
        self.data_bytes_written
    }

    pub fn total_frames(&self) -> (r: u64)
        ensures
            r == self.spec_frames(),
    {
        self.total_frames
    }

    /// Whether `frame_count` more frames can be taken.
    pub fn can_take(&self, frame_count: usize) -> (r: bool)
        requires
            self.wf(),
        ensures
            r == self.fits(frame_count as nat),
    {
        let fb: u64 = self.format.channels as u64 * 4;
        let room: u64 = u64::MAX - self.data_bytes_written;
        let fits_counters = frame_count as u64 <= room / fb;
        let fits_buffer = frame_count <= usize::MAX / (fb as usize);
        proof {
            let n = frame_count as int;
            if fits_counters {
                assert(n * fb <= room) by (nonlinear_arith)
                    requires
                        n <= room / fb,
                        fb > 0,
                ;
            } else {
                assert(n * fb > room) by (nonlinear_arith)
                    requires
                        n > room / fb,
                        fb > 0,
                ;
            }
            if fits_buffer {
                assert(n * fb <= usize::MAX) by (nonlinear_arith)
                    requires
                        n <= (usize::MAX as int) / (fb as int),
                        fb > 0,
                ;
            } else {
                assert(n * fb > usize::MAX) by (nonlinear_arith)
                    requires
                        n > (usize::MAX as int) / (fb as int),
                        fb > 0,
                ;
            }
        }
        fits_counters && fits_buffer
    }

    proof fn lemma_advance(&self, frame_count: nat)
        requires
            self.wf(),
            self.fits(frame_count),
        ensures
            self.spec_frames() + frame_count <= u64::MAX,
            (self.spec_frames() + frame_count) * self.frame_bytes() == self.spec_bytes()
                + frame_count * self.frame_bytes(),
            frame_count * self.spec_format().channels * 4 == frame_count * self.frame_bytes(),
    {
        let fb = self.frame_bytes();
        let f = self.spec_frames();
        assert(fb >= 4);
        assert((f + frame_count) * fb == f * fb + frame_count * fb) by (nonlinear_arith);
        assert(f + frame_count <= (f + frame_count) * fb) by (nonlinear_arith)
            requires
                fb >= 4,
        ;
        assert(frame_count * self.spec_format().channels * 4 == frame_count * fb)
            by (nonlinear_arith)
            requires
                fb == self.spec_format().channels * 4,
        ;
    }

    /// Record `frame_count` silent frames; returns the zero bytes to append
    /// (`frame_count × channels × 4` of them).
    pub fn write_silence(&mut self, frame_count: usize) -> (r: Vec<u8>)
        requires
            old(self).wf(),
            old(self).fits(frame_count as nat),
        ensures
            final(self).wf(),
            final(self).spec_format() == old(self).spec_format(),
            final(self).spec_frames() == old(self).spec_frames() + frame_count,
            final(self).spec_bytes() == old(self).spec_bytes() + r@.len(),
            final(self).spec_data() == old(self).spec_data() + r@,
            r@ == Seq::new(frame_count as nat * old(self).frame_bytes(), |i: int| 0u8),
    {
        proof {
            self.lemma_advance(frame_count as nat);
        }
        let n: usize = frame_count * (self.format.channels as usize * 4);
        let mut out: Vec<u8> = Vec::with_capacity(n);
        let mut i: usize = 0;
        while i < n
            invariant
                i <= n,
                out@ == Seq::new(i as nat, |j: int| 0u8),
            decreases n - i,
        {
            out.push(0u8);
            i = i + 1;
            assert(out@ =~= Seq::new(i as nat, |j: int| 0u8));
        }
        self.data_bytes_written = self.data_bytes_written + n as u64;
        self.total_frames = self.total_frames + frame_count as u64;
        self.appended = Ghost(self.appended@ + out@);
        out
    }

    /// Record `frame_count` frames of source PCM held in `src`; returns the
    /// 32-bit float bytes to append. Float sources are copied byte for byte,
    /// 16-bit integer sources are converted sample by sample to `s / 32768`,
    /// and any other encoding is copied as if it were float.
    pub fn write_raw(&mut self, src: &[u8], frame_count: usize) -> (r: Vec<u8>)
        requires
            old(self).wf(),
            old(self).fits(frame_count as nat),
            src@.len() >= frame_count * old(self).spec_format().channels * source_sample_width(
                conversion_of(old(self).spec_format()),
            ),
        ensures
            final(self).wf(),
            final(self).spec_format() == old(self).spec_format(),
            final(self).spec_frames() == old(self).spec_frames() + frame_count,
            final(self).spec_bytes() == old(self).spec_bytes() + r@.len(),
            final(self).spec_data() == old(self).spec_data() + r@,
            r@ == persisted_bytes(
                conversion_of(old(self).spec_format()),
                src@,
                (frame_count as nat * old(self).spec_format().channels) as nat,
            ),
            r@.len() == frame_count as nat * old(self).frame_bytes(),
    {
        proof {
            self.lemma_advance(frame_count as nat);
        }
        let samples: usize = frame_count * self.format.channels as usize;
        let conv = conversion_for(self.format);
        let src_len: usize = src.len();
        let mut out: Vec<u8> = Vec::with_capacity(samples * 4);
        match conv {
            SampleConversion::Pcm16ToFloat32 => {
                let mut i: usize = 0;
                while i < samples
                    invariant
                        i <= samples,
                        samples * 2 <= src@.len(),
                        src_len == src@.len(),
                        out@ == pcm16_as_float_bytes(src@, i as nat),
                        out@.len() == 4 * i,
                    decreases samples - i,
                {
                    let raw: u16 = ((src[2 * i] as u16) | ((src[2 * i + 1] as u16) << 8u16)) as u16;
                    let sample: i16 = #[verifier::truncate] (raw as i16);
                    let bits = pcm16_to_float_bits(sample);
                    out.push((bits & 0xff) as u8);
                    out.push(((bits >> 8u32) & 0xff) as u8);
                    out.push(((bits >> 16u32) & 0xff) as u8);
                    out.push(((bits >> 24u32) & 0xff) as u8);
                    i = i + 1;
                    assert(out@ =~= pcm16_as_float_bytes(src@, i as nat));
                }
            },
            _ => {
                let n = samples * 4;
                let mut i: usize = 0;
                while i < n
                    invariant
                        i <= n,
                        n <= src@.len(),
                        out@ == src@.subrange(0, i as int),
                    decreases n - i,
                {
                    out.push(src[i]);
                    i = i + 1;
                    assert(out@ =~= src@.subrange(0, i as int));
                }
            },
        }

        self.data_bytes_written = self.data_bytes_written + (samples * 4) as u64;
        self.total_frames = self.total_frames + frame_count as u64;
        self.appended = Ghost(self.appended@ + out@);
        out
    }

    /// Record one packet: a packet flagged silent appends zeros, any other
    /// is persisted from `src` as [`AudioWavWriter::write_raw`] does.
    pub fn write_packet(&mut self, flags: u32, src: &[u8], frame_count: usize) -> (r: Vec<u8>)
        requires
            old(self).wf(),
            old(self).fits(frame_count as nat),
            flags & 2u32 == 0 ==> src@.len() >= frame_count * old(self).spec_format().channels
                * source_sample_width(conversion_of(old(self).spec_format())),
        ensures
            final(self).wf(),
            final(self).spec_format() == old(self).spec_format(),
            final(self).spec_frames() == old(self).spec_frames() + frame_count,
            final(self).spec_bytes() == old(self).spec_bytes() + r@.len(),
            final(self).spec_data() == old(self).spec_data() + r@,
            flags & 2u32 != 0 ==> r@ == Seq::new(
                frame_count as nat * old(self).frame_bytes(),
                |i: int| 0u8,
            ),
            flags & 2u32 == 0 ==> r@ == persisted_bytes(
                conversion_of(old(self).spec_format()),
                src@,
                (frame_count as nat * old(self).spec_format().channels) as nat,
            ),
    {
        if flags & 2u32 != 0 {
            self.write_silence(frame_count)
        } else {
            self.write_raw(src, frame_count)
        }
    }

    /// The final header, which replaces the placeholder at offset 0: it
    /// declares the bytes written, clamped to the 32-bit limit.
    pub fn finalize(&self) -> (r: Vec<u8>)
        requires
            self.wf(),
        ensures
            r@ == float_header(
                self.spec_format().channels,
                self.spec_format().sample_rate,
                declared_data_size(self.spec_bytes()),
            ),
    {
        let data_size: u32 = if self.data_bytes_written <= u32::MAX as u64 {
            self.data_bytes_written as u32
        } else {
            u32::MAX
        };
        encode_float_header(self.format.channels, self.format.sample_rate, data_size)
    }
}


/// A finished file — the final header followed by every byte the writer
/// handed out — reads back with the writer's channel count and rate, a data
/// chunk of `4 · channels · frames` bytes right after the 44-byte header
/// that holds exactly the bytes written, and a total size of 44 plus that
/// data size (while it fits 32 bits).
pub proof fn lemma_finished_file_size(w: AudioWavWriter, header: Seq<u8>)
    requires
        w.wf(),
        w.spec_bytes() <= u32::MAX,
        header == float_header(
            w.spec_format().channels,
            w.spec_format().sample_rate,
            declared_data_size(w.spec_bytes()),
        ),
    ensures
        ({
            let file = header + w.spec_data();
            &&& parse_header(file) == Some(
                WavInfo {
                    channels: w.spec_format().channels,
                    sample_rate: w.spec_format().sample_rate,
                    bits_per_sample: 32,
                    is_float: true,
                    data_offset: 44,
                    data_size: w.spec_bytes() as u32,
                },
            )
            &&& file.len() == 44 + w.spec_bytes()
            &&& file.subrange(44, file.len() as int) == w.spec_data()
            &&& w.spec_bytes() == 4 * w.spec_format().channels * w.spec_frames()
        }),
{
    let file = header + w.spec_data();
    assert(file.subrange(44, file.len() as int) =~= w.spec_data());
    lemma_header_round_trip(
        w.spec_format().channels,
        w.spec_format().sample_rate,
        w.spec_bytes() as u32,
        w.spec_data(),
    );
    let c = w.spec_format().channels as int;
    let f = w.spec_frames() as int;
    assert(f * (c * 4) == 4 * c * f) by (nonlinear_arith);
}

} // verus!
