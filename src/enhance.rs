use vstd::prelude::*;

use crate::error::AppError;
use crate::text::{decimal, push_decimal};
use crate::wav::WavInfo;

verus! {

/// The only sample rate the noise suppressor works at.
pub const ENHANCE_SAMPLE_RATE: u32 = 48000;

/// Length of the entry and exit fades.
pub const FADE_MS: u32 = 50;

/// Samples per suppressor frame.
pub const DENOISE_FRAME: usize = 480;

/// Relies on `nnnoiseless::DenoiseState::FRAME_SIZE`, the fixed frame length
/// of the suppressor (`120 << 2`).
#[verifier::external_body]
fn suppressor_frame_size() -> (r: usize)
    ensures
        r == DENOISE_FRAME,
{
    nnnoiseless::DenoiseState::FRAME_SIZE
}

/// Samples per frame the suppressor processes.
pub fn denoise_frame_size() -> (r: usize)
    ensures
        r == DENOISE_FRAME,
{
    suppressor_frame_size()
}

/// The message for a file at another rate:
/// `Expected 48kHz audio, got {rate}Hz`.
pub open spec fn rate_message(rate: nat) -> Seq<char> {
    "Expected 48kHz audio, got "@ + decimal(rate) + "Hz"@
}

/// Check that a file can be enhanced: 48 kHz, with at least one channel.
/// Another rate fails with `AudioEnhance` and a message that starts with
/// `Expected 48kHz`.
pub fn check_enhance_input(info: &WavInfo) -> (r: Result<(), AppError>)
    ensures
        r is Ok <==> (info.sample_rate == ENHANCE_SAMPLE_RATE && info.channels >= 1),
        r matches Err(e) ==> e is AudioEnhance,
        info.sample_rate != ENHANCE_SAMPLE_RATE ==> (r matches Err(AppError::AudioEnhance(m))
            && m@ == rate_message(info.sample_rate as nat) && m@.len() >= 14 && m@.subrange(0, 14)
            == "Expected 48kHz"@),
{
    if info.sample_rate != ENHANCE_SAMPLE_RATE {
        let mut m = String::from_str("Expected 48kHz audio, got ");
        push_decimal(&mut m, info.sample_rate as u64);
        m.append("Hz");
        proof {
            reveal_strlit("Expected 48kHz audio, got ");
            reveal_strlit("Expected 48kHz");
            assert(m@.subrange(0, 14) =~= "Expected 48kHz"@);
        }
        return Err(AppError::AudioEnhance(m));
    }
    if info.channels < 1 {
        return Err(AppError::AudioEnhance(String::from_str("WAV file declares no channels")));
    }
    Ok(())
}

/// Number of frames of `fs` samples that cover `len` samples.
pub open spec fn frames_for(len: nat, fs: nat) -> nat
    recommends
        fs > 0,
{
    ((len + fs - 1) / fs as int) as nat
}

/// Start and end of frame `i` over `len` samples; the last one may be short.
pub open spec fn frame_start(fs: nat, i: nat) -> nat {
    i * fs
}

pub open spec fn frame_end(len: nat, fs: nat, i: nat) -> nat {
    if (i + 1) * fs < len {
        (i + 1) * fs
    } else {
        len
    }
}

/// Live samples of the first `k` frames.
pub open spec fn span_total(len: nat, fs: nat, k: nat) -> nat
    decreases k,
{
    if k == 0 {
        0
    } else {
        span_total(len, fs, (k - 1) as nat) + (frame_end(len, fs, (k - 1) as nat) - frame_start(
            fs,
            (k - 1) as nat,
        )) as nat
    }
}

/// The frames over `len` samples: `(start, end)` of each, in order.
pub fn frame_spans(len: usize, fs: usize) -> (r: Vec<(usize, usize)>)
    requires
        fs > 0,
        len + fs <= usize::MAX,
    ensures
        r@.len() == frames_for(len as nat, fs as nat),
        forall|i: int|
            0 <= i < r@.len() ==> #[trigger] r@[i] == (
            frame_start(fs as nat, i as nat) as usize,
            frame_end(len as nat, fs as nat, i as nat) as usize,
            ),
{
    let total: usize = (len + fs - 1) / fs;
    let mut out: Vec<(usize, usize)> = Vec::new();
    let mut i: usize = 0;
    while i < total
        invariant
            i <= total,
            total == frames_for(len as nat, fs as nat),
            fs > 0,
            len + fs <= usize::MAX,
            out@.len() == i,
            forall|k: int|
                0 <= k < i ==> #[trigger] out@[k] == (
                frame_start(fs as nat, k as nat) as usize,
                frame_end(len as nat, fs as nat, k as nat) as usize,
                ),
        decreases total - i,
    {
        assert(i * fs < len) by (nonlinear_arith)
            requires
                i < total,
                total == (len + fs - 1) / fs as int,
                fs > 0,
        ;
        let start = i * fs;
        let end = if len - start > fs {
            start + fs
        } else {
            len
        };
        assert((i + 1) * fs == start + fs) by (nonlinear_arith)
            requires
                start == i * fs,
        ;
        out.push((start, end));
        i = i + 1;
    }
    out
}

proof fn lemma_span_total(len: nat, fs: nat, k: nat)
    requires
        fs > 0,
        k * fs <= len + fs - 1,
    ensures
        span_total(len, fs, k) == if k * fs < len {
            k * fs
        } else {
            len
        },
    decreases k,
{
    if k > 0 {
        let j = (k - 1) as nat;
        assert(j * fs + fs == k * fs) by (nonlinear_arith)
            requires
                j + 1 == k,
        ;
        lemma_span_total(len, fs, j);
        assert(j * fs < len);
        assert((j + 1) * fs == k * fs);
        assert(frame_start(fs, j) == j * fs);
        assert(span_total(len, fs, k) == span_total(len, fs, j) + (frame_end(len, fs, j)
            - frame_start(fs, j)));
        if k * fs < len {
            assert(frame_end(len, fs, j) == k * fs);
        } else {
            assert(frame_end(len, fs, j) == len);
        }
    } else {
        assert(k * fs == 0) by (nonlinear_arith)
            requires
                k == 0,
        ;
    }
}

/// Framing loses nothing: the frames over `len` samples hold exactly `len`
/// live samples, so the suppressed signal is as long as its input.
pub proof fn lemma_frames_keep_length(len: nat, fs: nat)
    requires
        fs > 0,
    ensures
        span_total(len, fs, frames_for(len, fs)) == len,
{
    let k = frames_for(len, fs);
    assert(k * fs <= len + fs - 1 && k * fs >= len) by (nonlinear_arith)
        requires
            k == (len + fs - 1) / fs as int,
            fs > 0,
    ;
    lemma_span_total(len, fs, k);
}

/// Samples each fade covers: `fade_ms` at `sample_rate`, at most half the
/// signal.
pub open spec fn fade_len(sample_rate: nat, fade_ms: nat, len: nat) -> nat {
    let by_time = sample_rate * fade_ms / 1000;
    if by_time < len / 2 {
        by_time
    } else {
        len / 2
    }
}

pub fn fade_length(sample_rate: u32, fade_ms: u32, len: usize) -> (r: usize)
    ensures
        r == fade_len(sample_rate as nat, fade_ms as nat, len as nat),
        2 * r <= len,
{
    proof {
        assert((sample_rate as u64) * (fade_ms as u64) <= u64::MAX) by (nonlinear_arith)
            requires
                sample_rate <= u32::MAX,
                fade_ms <= u32::MAX,
        ;
    }
    let by_time: u64 = (sample_rate as u64) * (fade_ms as u64) / 1000;
    let half: usize = len / 2;
    if by_time < half as u64 {
        by_time as usize
    } else {
        half
    }
}

/// Spread mono samples to `channels` interleaved channels, each frame
/// repeating its mono sample.
pub fn mono_to_multichannel<T: Copy>(mono: &Vec<T>, channels: u16) -> (r: Vec<T>)
    requires
        channels >= 1,
        mono@.len() * channels <= usize::MAX,
    ensures
        r@.len() == mono@.len() * channels,
        forall|i: int| 0 <= i < r@.len() ==> #[trigger] r@[i] == mono@[i / channels as int],
{
    let ch: usize = channels as usize;
    let mut out: Vec<T> = Vec::new();
    let mut i: usize = 0;
    while i < mono.len()
        invariant
            i <= mono@.len(),
            ch == channels,
            ch >= 1,
            mono@.len() * ch <= usize::MAX,
            out@.len() == i * ch,
            forall|k: int| 0 <= k < out@.len() ==> #[trigger] out@[k] == mono@[k / ch as int],
        decreases mono.len() - i,
    {
        let s = mono[i];
        let mut c: usize = 0;
        assert(i * ch + ch <= mono@.len() * ch) by (nonlinear_arith)
            requires
                i < mono@.len(),
        ;
        while c < ch
            invariant
                c <= ch,
                ch >= 1,
                i < mono@.len(),
                i * ch + ch <= mono@.len() * ch,
                mono@.len() * ch <= usize::MAX,
                s == mono@[i as int],
                out@.len() == i * ch + c,
                forall|k: int| 0 <= k < out@.len() ==> #[trigger] out@[k] == mono@[k / ch as int],
            decreases ch - c,
        {
            assert((i * ch + c) / ch as int == i) by (nonlinear_arith)
                requires
                    c < ch,
                    ch >= 1,
            ;
            out.push(s);
            c = c + 1;
        }
        assert(i * ch + ch == (i + 1) * ch) by (nonlinear_arith);
        i = i + 1;
    }
    out
}


/// The post-processor keeps the length of whole-frame input: `len`
/// interleaved samples of `channels` channels downmix to `len / channels`
/// mono samples, framing keeps that count, and the upmix gives back
/// `channels` samples for each, which is `len` again.
pub proof fn lemma_enhance_keeps_length(len: nat, channels: nat, fs: nat)
    requires
        channels >= 1,
        fs > 0,
        len % channels == 0,
    ensures
        span_total(len / channels, fs, frames_for(len / channels, fs)) * channels == len,
{
    lemma_frames_keep_length(len / channels, fs);
    assert((len / channels) * channels == len) by (nonlinear_arith)
        requires
            len % channels == 0,
            channels >= 1,
    {
        assert(len == channels * (len / channels) + len % channels);
    }
}

} // verus!
