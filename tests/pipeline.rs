use recogni::capture::{
    after_event_init, after_polling_init, capture_file_name, enhanced_file_name, format_from_mix,
    packet_is_silent, wait_action, CaptureLifecycle, CaptureSlot, InitMode, InitNext, LevelPacer,
    SessionPhase, WaitAction, SUBTYPE_IEEE_FLOAT,
};
use recogni::enhance::{
    check_enhance_input, denoise_frame_size, fade_length, frame_spans, mono_to_multichannel,
};
use recogni::error::AppError;
use recogni::model::{cache_base, model_file_url, required_files, ModelManager};
use recogni::wav::WavInfo;

#[test]
fn error_codes_are_stable() {
    assert_eq!(AppError::LockPoisoned("x".into()).code(), "LOCK_POISONED");
    assert_eq!(AppError::CaptureAlreadyRunning.code(), "CAPTURE_ALREADY_RUNNING");
    assert_eq!(AppError::NoCaptureRunning.code(), "NO_CAPTURE_RUNNING");
    assert_eq!(AppError::CaptureAlreadyStopped.code(), "CAPTURE_ALREADY_STOPPED");
    assert_eq!(AppError::CaptureThreadPanicked.code(), "CAPTURE_THREAD_PANICKED");
    assert_eq!(AppError::Io("x".into()).code(), "IO_ERROR");
    assert_eq!(AppError::AudioCapture("x".into()).code(), "AUDIO_CAPTURE_ERROR");
    assert_eq!(AppError::WavEncode("x".into()).code(), "WAV_ENCODE_ERROR");
    assert_eq!(AppError::AudioEnhance("x".into()).code(), "AUDIO_ENHANCE_ERROR");
    assert_eq!(AppError::Transcription("x".into()).code(), "TRANSCRIPTION_ERROR");
    assert_eq!(AppError::ModelDownload("x".into()).code(), "MODEL_DOWNLOAD_ERROR");
    assert_eq!(AppError::ModelNotLoaded.code(), "MODEL_NOT_LOADED");
}

#[test]
fn silence_flag_bit() {
    assert!(packet_is_silent(0x2));
    assert!(packet_is_silent(0x3));
    assert!(!packet_is_silent(0x1));
    assert!(!packet_is_silent(0));
}

#[test]
fn mix_format_float_detection() {
    assert!(format_from_mix(0xFFFE, SUBTYPE_IEEE_FLOAT, 48000, 2, 32).is_float);
    assert!(!format_from_mix(0xFFFE, 1, 48000, 2, 16).is_float);
    assert!(format_from_mix(3, 0, 48000, 2, 32).is_float);
    assert!(!format_from_mix(1, SUBTYPE_IEEE_FLOAT, 44100, 1, 16).is_float);
    assert_eq!(format_from_mix(1, 0, 44100, 1, 16).sample_rate, 44100);
}

#[test]
fn init_fallback_and_wait() {
    assert_eq!(after_event_init(true), InitNext::Ready(InitMode::EventDriven));
    assert_eq!(after_event_init(false), InitNext::TryPolling);
    assert_eq!(after_polling_init(true).unwrap(), InitMode::Polling);
    assert!(matches!(after_polling_init(false), Err(AppError::AudioCapture(_))));
    assert_eq!(wait_action(InitMode::EventDriven), WaitAction::WaitOnEvent(100));
    assert_eq!(wait_action(InitMode::Polling), WaitAction::Sleep(10));
}

#[test]
fn level_events_every_tenth_pass() {
    let mut p = LevelPacer::new();
    let due: Vec<bool> = (0..25).map(|_| p.tick()).collect();
    let at: Vec<usize> = due.iter().enumerate().filter(|(_, d)| **d).map(|(i, _)| i).collect();
    assert_eq!(at, vec![9, 19]);
}

#[test]
fn stop_twice_fails() {
    let mut l = CaptureLifecycle::new();
    assert_eq!(l.phase(), SessionPhase::Running);
    assert!(l.begin_stop().is_ok());
    assert_eq!(l.phase(), SessionPhase::Stopping);
    assert_eq!(l.finish_stop(Some(Ok("a.wav".to_string()))).unwrap(), "a.wav");
    assert_eq!(l.phase(), SessionPhase::Stopped);
    assert_eq!(l.begin_stop(), Err(AppError::CaptureAlreadyStopped));
}

#[test]
fn abnormal_worker_exit() {
    let mut l = CaptureLifecycle::new();
    l.begin_stop().unwrap();
    assert_eq!(l.finish_stop(None), Err(AppError::CaptureThreadPanicked));
}

#[test]
fn single_session_slot() {
    let mut slot: CaptureSlot<u32> = CaptureSlot::new();
    assert_eq!(slot.take_running(), Err(AppError::NoCaptureRunning));
    assert!(slot.check_vacant().is_ok());
    slot.put(7);
    assert_eq!(slot.check_vacant(), Err(AppError::CaptureAlreadyRunning));
    assert!(slot.is_occupied());
    assert_eq!(slot.take_running(), Ok(7));
    assert!(!slot.is_occupied());
}

#[test]
fn temp_file_names() {
    assert_eq!(capture_file_name(1700000000123), "recogni_system_audio_1700000000123.wav");
    assert_eq!(capture_file_name(0), "recogni_system_audio_0.wav");
    assert_eq!(enhanced_file_name(42), "recogni_enhanced_42.wav");
}

#[test]
fn enhance_requires_48k() {
    let mut info = WavInfo {
        channels: 2,
        sample_rate: 44100,
        bits_per_sample: 32,
        is_float: true,
        data_offset: 44,
        data_size: 0,
    };
    match check_enhance_input(&info) {
        Err(AppError::AudioEnhance(m)) => assert_eq!(m, "Expected 48kHz audio, got 44100Hz"),
        other => panic!("unexpected {other:?}"),
    }
    info.sample_rate = 48000;
    assert!(check_enhance_input(&info).is_ok());
    info.channels = 0;
    assert!(matches!(check_enhance_input(&info), Err(AppError::AudioEnhance(_))));
}

#[test]
fn frames_cover_signal() {
    assert_eq!(denoise_frame_size(), 480);
    let spans = frame_spans(1000, 480);
    assert_eq!(spans, vec![(0, 480), (480, 960), (960, 1000)]);
    assert_eq!(frame_spans(960, 480), vec![(0, 480), (480, 960)]);
    assert!(frame_spans(0, 480).is_empty());
    let total: usize = frame_spans(12345, 480).iter().map(|(a, b)| b - a).sum();
    assert_eq!(total, 12345);
}

#[test]
fn fade_lengths() {
    assert_eq!(fade_length(48000, 50, 96000), 2400);
    assert_eq!(fade_length(48000, 50, 1000), 500);
    assert_eq!(fade_length(48000, 0, 1000), 0);
}

#[test]
fn upmix_duplicates_frames() {
    let m = vec![1u32, 2, 3];
    assert_eq!(mono_to_multichannel(&m, 2), vec![1, 1, 2, 2, 3, 3]);
    assert_eq!(mono_to_multichannel(&m, 1), vec![1, 2, 3]);
    let f = vec![0.25f32, -0.5];
    assert_eq!(mono_to_multichannel(&f, 3), vec![0.25, 0.25, 0.25, -0.5, -0.5, -0.5]);
}

#[test]
fn model_paths_under_cache_dir() {
    let m = ModelManager::with_cache_dir("/tmp/models");
    assert_eq!(m.cache_dir(), "/tmp/models");
    let p = m.paths();
    assert_eq!(p.encoder, "/tmp/models/onnx/encoder_model_quantized.onnx");
    assert_eq!(p.decoder, "/tmp/models/onnx/decoder_model_merged_quantized.onnx");
    assert_eq!(p.tokenizer, "/tmp/models/tokenizer.json");
    assert_eq!(p.config, "/tmp/models/config.json");
    assert_eq!(m.ort_dll_path(), "/tmp/models/onnxruntime.dll");
    let u = ModelManager::under("/home/u/.local/share");
    assert_eq!(u.cache_dir(), "/home/u/.local/share/recogni/models/moonshine-base");
}

#[test]
fn missing_model_files() {
    let m = ModelManager::with_cache_dir("/nonexistent/recogni-test-dir");
    assert!(!m.is_cached());
    assert!(matches!(m.get_paths(), Err(AppError::ModelNotLoaded)));
}

#[test]
fn download_addresses() {
    assert_eq!(required_files(), vec![
        "onnx/encoder_model_quantized.onnx",
        "onnx/decoder_model_merged_quantized.onnx",
        "tokenizer.json",
        "config.json",
    ]);
    assert_eq!(
        model_file_url("config.json"),
        "https://huggingface.co/onnx-community/moonshine-base-ONNX/resolve/main/config.json"
    );
}

#[test]
fn cache_base_prefers_local_dir() {
    assert_eq!(cache_base(Some("/l".into()), Some("/r".into())).unwrap(), "/l");
    assert_eq!(cache_base(None, Some("/r".into())).unwrap(), "/r");
    assert!(matches!(cache_base(None, None), Err(AppError::ModelDownload(_))));
}
