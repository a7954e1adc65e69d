use vstd::prelude::*;

verus! {

/// Every failure the backend reports to its host. Each variant carries a
/// stable code (see [`AppError::code`]) and, where useful, a cause.
#[derive(Debug, Clone, PartialEq, Eq)]
pub enum AppError {
    LockPoisoned(String),
    CaptureAlreadyRunning,
    NoCaptureRunning,
    CaptureAlreadyStopped,
    CaptureThreadPanicked,
    Io(String),
    AudioCapture(String),
    WavEncode(String),
    AudioEnhance(String),
    Transcription(String),
    ModelDownload(String),
    ModelNotLoaded,
}

/// The stable code that identifies the class of an error.
pub open spec fn error_code(e: AppError) -> Seq<char> {
    match e {
        AppError::LockPoisoned(_) => "LOCK_POISONED"@,
        AppError::CaptureAlreadyRunning => "CAPTURE_ALREADY_RUNNING"@,
        AppError::NoCaptureRunning => "NO_CAPTURE_RUNNING"@,
        AppError::CaptureAlreadyStopped => "CAPTURE_ALREADY_STOPPED"@,
        AppError::CaptureThreadPanicked => "CAPTURE_THREAD_PANICKED"@,
        AppError::Io(_) => "IO_ERROR"@,
        AppError::AudioCapture(_) => "AUDIO_CAPTURE_ERROR"@,
        AppError::WavEncode(_) => "WAV_ENCODE_ERROR"@,
        AppError::AudioEnhance(_) => "AUDIO_ENHANCE_ERROR"@,
        AppError::Transcription(_) => "TRANSCRIPTION_ERROR"@,
        AppError::ModelDownload(_) => "MODEL_DOWNLOAD_ERROR"@,
        AppError::ModelNotLoaded => "MODEL_NOT_LOADED"@,
    }
}

impl AppError {
    /// Return a stable error code for the frontend.
    pub fn code(&self) -> (r: &'static str)
        ensures
            r@ == error_code(*self),
    {
        match self {
            AppError::LockPoisoned(_) => "LOCK_POISONED",
            AppError::CaptureAlreadyRunning => "CAPTURE_ALREADY_RUNNING",
            AppError::NoCaptureRunning => "NO_CAPTURE_RUNNING",
            AppError::CaptureAlreadyStopped => "CAPTURE_ALREADY_STOPPED",
            AppError::CaptureThreadPanicked => "CAPTURE_THREAD_PANICKED",
            AppError::Io(_) => "IO_ERROR",
            AppError::AudioCapture(_) => "AUDIO_CAPTURE_ERROR",
            AppError::WavEncode(_) => "WAV_ENCODE_ERROR",
            AppError::AudioEnhance(_) => "AUDIO_ENHANCE_ERROR",
            AppError::Transcription(_) => "TRANSCRIPTION_ERROR",
            AppError::ModelDownload(_) => "MODEL_DOWNLOAD_ERROR",
            AppError::ModelNotLoaded => "MODEL_NOT_LOADED",
        }
    }
}

} // verus!
