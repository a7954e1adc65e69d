use recogni::error::AppError;
use recogni::sink::{AudioFormat, AudioWavWriter, SampleConversion, conversion_for, pcm16_to_float_bits};
use recogni::wav::{encode_float_header, read_wav_header, SampleEncoding, WavInfo};

fn float_stereo_48k() -> AudioFormat {
    AudioFormat { sample_rate: 48000, channels: 2, bits_per_sample: 32, is_float: true }
}

#[test]
fn header_fields_are_little_endian() {
    let h = encode_float_header(2, 48000, 768000);
    assert_eq!(h.len(), 44);
    assert_eq!(&h[0..4], b"RIFF");
    assert_eq!(u32::from_le_bytes([h[4], h[5], h[6], h[7]]), 768036);
    assert_eq!(&h[8..12], b"WAVE");
    assert_eq!(&h[12..16], b"fmt ");
    assert_eq!(u32::from_le_bytes([h[16], h[17], h[18], h[19]]), 16);
    assert_eq!(u16::from_le_bytes([h[20], h[21]]), 3);
    assert_eq!(u16::from_le_bytes([h[22], h[23]]), 2);
    assert_eq!(u32::from_le_bytes([h[24], h[25], h[26], h[27]]), 48000);
    assert_eq!(u32::from_le_bytes([h[28], h[29], h[30], h[31]]), 384000);
    assert_eq!(u16::from_le_bytes([h[32], h[33]]), 8);
    assert_eq!(u16::from_le_bytes([h[34], h[35]]), 32);
    assert_eq!(&h[36..40], b"data");
    assert_eq!(u32::from_le_bytes([h[40], h[41], h[42], h[43]]), 768000);
}

#[test]
fn riff_size_saturates_at_limit() {
    let h = encode_float_header(1, 48000, u32::MAX);
    assert_eq!(u32::from_le_bytes([h[4], h[5], h[6], h[7]]), u32::MAX);
}

#[test]
fn header_round_trip() {
    let mut file = encode_float_header(2, 44100, 16);
    file.extend_from_slice(&[0u8; 16]);
    let info = read_wav_header(&file).unwrap();
    assert_eq!(
        info,
        WavInfo {
            channels: 2,
            sample_rate: 44100,
            bits_per_sample: 32,
            is_float: true,
            data_offset: 44,
            data_size: 16
        }
    );
    assert_eq!(info.sample_encoding().unwrap(), SampleEncoding::Float32);
    assert_eq!(info.payload_range(file.len()).unwrap(), (44, 60));
}

fn pcm16_file_with_list_chunk() -> Vec<u8> {
    let mut f = Vec::new();
    f.extend_from_slice(b"RIFF");
    f.extend_from_slice(&0u32.to_le_bytes());
    f.extend_from_slice(b"WAVE");
    f.extend_from_slice(b"fmt ");
    f.extend_from_slice(&16u32.to_le_bytes());
    f.extend_from_slice(&1u16.to_le_bytes());
    f.extend_from_slice(&1u16.to_le_bytes());
    f.extend_from_slice(&16000u32.to_le_bytes());
    f.extend_from_slice(&32000u32.to_le_bytes());
    f.extend_from_slice(&2u16.to_le_bytes());
    f.extend_from_slice(&16u16.to_le_bytes());
    f.extend_from_slice(b"LIST");
    f.extend_from_slice(&6u32.to_le_bytes());
    f.extend_from_slice(b"abcdef");
    f.extend_from_slice(b"data");
    f.extend_from_slice(&4u32.to_le_bytes());
    f.extend_from_slice(&[1, 0, 2, 0]);
    f
}

#[test]
fn reader_skips_other_chunks() {
    let f = pcm16_file_with_list_chunk();
    let info = read_wav_header(&f).unwrap();
    assert_eq!(info.data_offset, 58);
    assert_eq!(info.data_size, 4);
    assert!(!info.is_float);
    assert_eq!(info.bits_per_sample, 16);
    assert_eq!(info.sample_encoding().unwrap(), SampleEncoding::Pcm16);
}

#[test]
fn reader_rejects_short_file() {
    let r = read_wav_header(&[0u8; 20]);
    assert!(matches!(r, Err(AppError::AudioEnhance(_))));
}

#[test]
fn reader_rejects_bad_magic() {
    let mut f = encode_float_header(1, 48000, 0);
    f[0] = b'X';
    assert!(matches!(read_wav_header(&f), Err(AppError::AudioEnhance(_))));
}

#[test]
fn reader_rejects_missing_data_chunk() {
    let mut f = encode_float_header(1, 48000, 0);
    f[36..40].copy_from_slice(b"junk");
    assert!(matches!(read_wav_header(&f), Err(AppError::AudioEnhance(_))));
}

#[test]
fn unsupported_encoding_and_truncated_payload() {
    let info = WavInfo {
        channels: 1,
        sample_rate: 48000,
        bits_per_sample: 24,
        is_float: false,
        data_offset: 44,
        data_size: 100,
    };
    assert!(matches!(info.sample_encoding(), Err(AppError::AudioEnhance(_))));
    assert!(matches!(info.payload_range(100), Err(AppError::AudioEnhance(_))));
    assert_eq!(info.payload_range(144).unwrap(), (44, 144));
}

#[test]
fn pcm16_conversion_matches_float_division() {
    for s in i16::MIN..=i16::MAX {
        assert_eq!(pcm16_to_float_bits(s), (s as f32 / 32768.0).to_bits(), "sample {s}");
    }
}

#[test]
fn conversion_choice() {
    assert_eq!(conversion_for(float_stereo_48k()), SampleConversion::CopyFloat32);
    let pcm = AudioFormat { sample_rate: 44100, channels: 2, bits_per_sample: 16, is_float: false };
    assert_eq!(conversion_for(pcm), SampleConversion::Pcm16ToFloat32);
    let odd = AudioFormat { sample_rate: 44100, channels: 2, bits_per_sample: 24, is_float: false };
    assert_eq!(conversion_for(odd), SampleConversion::AssumeFloat32);
}

#[test]
fn sink_rejects_unwritable_format() {
    let f = AudioFormat { sample_rate: 48000, channels: 0, bits_per_sample: 32, is_float: true };
    assert!(matches!(AudioWavWriter::create(f), Err(AppError::WavEncode(_))));
    let f = AudioFormat { sample_rate: 48000, channels: 9, bits_per_sample: 32, is_float: true };
    assert!(matches!(AudioWavWriter::create(f), Err(AppError::WavEncode(_))));
}

#[test]
fn sink_writes_float_packets_unchanged() {
    let (mut w, header) = AudioWavWriter::create(float_stereo_48k()).unwrap();
    assert_eq!(header, encode_float_header(2, 48000, 0));
    let samples: Vec<f32> = vec![0.5, -0.25, 0.125, 1.0];
    let bytes: Vec<u8> = samples.iter().flat_map(|s| s.to_le_bytes()).collect();
    let out = w.write_raw(&bytes, 2);
    assert_eq!(out, bytes);
    assert_eq!(w.total_frames(), 2);
    assert_eq!(w.data_bytes_written(), 16);
}

#[test]
fn sink_converts_pcm16_packets() {
    let f = AudioFormat { sample_rate: 44100, channels: 1, bits_per_sample: 16, is_float: false };
    let (mut w, _) = AudioWavWriter::create(f).unwrap();
    let src: Vec<u8> = [16384i16, -32768, 0].iter().flat_map(|s| s.to_le_bytes()).collect();
    let out = w.write_raw(&src, 3);
    let expect: Vec<u8> = [0.5f32, -1.0, 0.0].iter().flat_map(|s| s.to_le_bytes()).collect();
    assert_eq!(out, expect);
    assert_eq!(w.data_bytes_written(), 12);
}

#[test]
fn silent_packets_append_zeros() {
    let (mut w, _) = AudioWavWriter::create(float_stereo_48k()).unwrap();
    let out = w.write_packet(0x2, &[], 480);
    assert_eq!(out.len(), 480 * 2 * 4);
    assert!(out.iter().all(|b| *b == 0));
}

#[test]
fn muted_second_gives_exact_file_size() {
    let (mut w, header) = AudioWavWriter::create(float_stereo_48k()).unwrap();
    let mut file_len = header.len();
    for _ in 0..100 {
        assert!(w.can_take(480));
        let out = w.write_packet(0x2, &[], 480);
        assert!(out.iter().all(|b| *b == 0));
        file_len += out.len();
    }
    assert_eq!(w.total_frames(), 48000);
    let final_header = w.finalize();
    let declared = u32::from_le_bytes([final_header[40], final_header[41], final_header[42], final_header[43]]);
    assert_eq!(declared as usize, 4 * 2 * 48000);
    assert_eq!(file_len, 44 + declared as usize);
}

#[test]
fn finished_file_reads_back() {
    let (mut w, _) = AudioWavWriter::create(float_stereo_48k()).unwrap();
    let bytes: Vec<u8> = (0..8).flat_map(|i| (i as f32 / 8.0).to_le_bytes()).collect();
    let mut data = w.write_raw(&bytes, 4);
    data.extend(w.write_silence(2));
    let mut file = w.finalize();
    file.extend_from_slice(&data);
    let info = read_wav_header(&file).unwrap();
    assert_eq!(info.channels, 2);
    assert_eq!(info.sample_rate, 48000);
    assert_eq!(info.data_size as usize, 4 * 2 * 6);
    assert_eq!(file.len(), 44 + info.data_size as usize);
}
