use vstd::prelude::*;

use crate::error::AppError;
use crate::sink::AudioFormat;
use crate::text::{decimal, push_decimal};

verus! {

/// Packet flag bit marking a packet whose content is silence.
pub const SILENT_FLAG: u32 = 0x2;

/// Format tag of an extensible format descriptor.
pub const FORMAT_TAG_EXTENSIBLE: u16 = 0xFFFE;

/// Sub-format GUID `{00000003-0000-0010-8000-00aa00389b71}` (IEEE float), as
/// one 128-bit number.
pub const SUBTYPE_IEEE_FLOAT: u128 = 0x00000003_0000_0010_8000_00aa00389b71;

/// Drain passes between two level events (about 100 ms at 10 ms per buffer).
pub const LEVEL_EMIT_INTERVAL: u32 = 10;

/// Upper bound on one wait for the buffer-ready event.
pub const EVENT_WAIT_TIMEOUT_MS: u32 = 100;

/// Sleep between drain passes when the endpoint only supports polling.
pub const POLL_SLEEP_MS: u32 = 10;

/// Whether a packet carries the silence flag.
pub fn packet_is_silent(flags: u32) -> (r: bool)
    ensures
        r == (flags & SILENT_FLAG != 0),
{
    flags & SILENT_FLAG != 0
}

/// Whether a mix format describes IEEE-float samples: for an extensible
/// descriptor its sub-format decides, else the plain format tag 3.
pub open spec fn mix_is_float(tag: u16, sub_format: u128) -> bool {
    if tag == FORMAT_TAG_EXTENSIBLE {
        sub_format == SUBTYPE_IEEE_FLOAT
    } else {
        tag == 3
    }
}

/// The session format a device mix format gives; `sub_format` is only read
/// for an extensible descriptor.
pub fn format_from_mix(tag: u16, sub_format: u128, sample_rate: u32, channels: u16, bits: u16) -> (r:
    AudioFormat)
    ensures
        r == (AudioFormat {
            sample_rate,
            channels,
            bits_per_sample: bits,
            is_float: mix_is_float(tag, sub_format),
        }),
{
    let is_float = if tag == FORMAT_TAG_EXTENSIBLE {
        sub_format == SUBTYPE_IEEE_FLOAT
    } else {
        tag == 3
    };
    AudioFormat { sample_rate, channels, bits_per_sample: bits, is_float }
}

/// How the platform source wakes the capture worker.
#[derive(Debug, Clone, Copy, PartialEq, Eq, Structural)]
pub enum InitMode {
    /// The endpoint signals a kernel event per buffer.
    EventDriven,
    /// The endpoint was initialized without the event callback.
    Polling,
}

/// What to do after the event-driven initialization attempt.
#[derive(Debug, Clone, Copy, PartialEq, Eq, Structural)]
pub enum InitNext {
    Ready(InitMode),
    TryPolling,
}

/// Event-driven initialization first; on a driver rejection, fall back to
/// polling.
pub fn after_event_init(succeeded: bool) -> (r: InitNext)
    ensures
        succeeded ==> r == InitNext::Ready(InitMode::EventDriven),
        !succeeded ==> r == InitNext::TryPolling,
{
    if succeeded {
        InitNext::Ready(InitMode::EventDriven)
    } else {
        InitNext::TryPolling
    }
}

/// The outcome of the polling fallback: polling mode, or `AudioCapture`
/// when initialization failed in both modes.
pub fn after_polling_init(succeeded: bool) -> (r: Result<InitMode, AppError>)
    ensures
        succeeded ==> r == Ok::<InitMode, AppError>(InitMode::Polling),
        !succeeded ==> r is Err && r->Err_0 is AudioCapture,
{
    if succeeded {
        Ok(InitMode::Polling)
    } else {
        Err(AppError::AudioCapture(String::from_str("Initialize loopback failed in both modes")))
    }
}

/// How the worker waits for the next buffer.
#[derive(Debug, Clone, Copy, PartialEq, Eq, Structural)]
pub enum WaitAction {
    /// Block on the buffer-ready event, at most this many milliseconds.
    WaitOnEvent(u32),
    /// Return at once and sleep this many milliseconds.
    Sleep(u32),
}

pub fn wait_action(mode: InitMode) -> (r: WaitAction)
    ensures
        mode == InitMode::EventDriven ==> r == WaitAction::WaitOnEvent(EVENT_WAIT_TIMEOUT_MS),
        mode == InitMode::Polling ==> r == WaitAction::Sleep(POLL_SLEEP_MS),
{
    match mode {
        InitMode::EventDriven => WaitAction::WaitOnEvent(EVENT_WAIT_TIMEOUT_MS),
        InitMode::Polling => WaitAction::Sleep(POLL_SLEEP_MS),
    }
}

/// Paces level events by drain passes: one event every
/// `LEVEL_EMIT_INTERVAL` passes.
pub struct LevelPacer {
    passes: u32,
}

impl LevelPacer {
    pub closed spec fn spec_passes(&self) -> nat {
        self.passes as nat
    }

    pub open spec fn wf(&self) -> bool {
        self.spec_passes() < LEVEL_EMIT_INTERVAL
    }

    pub fn new() -> (r: LevelPacer)
        ensures
            r.wf(),
            r.spec_passes() == 0,
    {
        LevelPacer { passes: 0 }
    }

    /// Count one drain pass; true when a level event is due, after which the
    /// count starts over.
    pub fn tick(&mut self) -> (r: bool)
        requires
            old(self).wf(),
        ensures
            final(self).wf(),
            r == (old(self).spec_passes() + 1 == LEVEL_EMIT_INTERVAL),
            final(self).spec_passes() == (old(self).spec_passes() + 1) % (LEVEL_EMIT_INTERVAL as nat),
    {
        self.passes = self.passes + 1;
        if self.passes >= LEVEL_EMIT_INTERVAL {
            self.passes = 0;
            true
        } else {
            false
        }
    }
}

/// Phases of a capture session.
#[derive(Debug, Clone, Copy, PartialEq, Eq, Structural)]
pub enum SessionPhase {
    Running,
    Stopping,
    Stopped,
}

/// The stop protocol of a capture session handle.
pub struct CaptureLifecycle {
    phase: SessionPhase,
}

impl CaptureLifecycle {
    pub closed spec fn spec_phase(&self) -> SessionPhase {
        self.phase
    }

    pub fn new() -> (r: CaptureLifecycle)
        ensures
            r.spec_phase() == SessionPhase::Running,
    {
        CaptureLifecycle { phase: SessionPhase::Running }
    }

    pub fn phase(&self) -> (r: SessionPhase)
        ensures
            r == self.spec_phase(),
    {
        self.phase
    }

    /// Begin stopping: only a running session may stop; a second stop fails
    /// with `CaptureAlreadyStopped` and changes nothing.
    pub fn begin_stop(&mut self) -> (r: Result<(), AppError>)
        ensures
            old(self).spec_phase() == SessionPhase::Running ==> r is Ok && final(self).spec_phase()
                == SessionPhase::Stopping,
            old(self).spec_phase() != SessionPhase::Running ==> r == Err::<(), AppError>(
                AppError::CaptureAlreadyStopped,
            ) && final(self).spec_phase() == old(self).spec_phase(),
    {
        match self.phase {
            SessionPhase::Running => {
                self.phase = SessionPhase::Stopping;
                Ok(())
            },
            _ => Err(AppError::CaptureAlreadyStopped),
        }
    }

    /// The worker has been joined: the session is stopped. `joined` is the
    /// worker's result, or `None` when it exited abnormally, which gives
    /// `CaptureThreadPanicked`.
    pub fn finish_stop(&mut self, joined: Option<Result<String, AppError>>) -> (r: Result<
        String,
        AppError,
    >)
        requires
            old(self).spec_phase() == SessionPhase::Stopping,
        ensures
            final(self).spec_phase() == SessionPhase::Stopped,
            joined is None ==> r == Err::<String, AppError>(AppError::CaptureThreadPanicked),
            joined matches Some(res) ==> r == res,
    {
        self.phase = SessionPhase::Stopped;
        match joined {
            Some(res) => res,
            None => Err(AppError::CaptureThreadPanicked),
        }
    }
}

/// The process-wide single slot that holds the running capture session.
pub struct CaptureSlot<T> {
    item: Option<T>,
}

impl<T> CaptureSlot<T> {
    pub closed spec fn spec_item(&self) -> Option<T> {
        self.item
    }

    pub fn new() -> (r: CaptureSlot<T>)
        ensures
            r.spec_item() is None,
    {
        CaptureSlot { item: None }
    }

    pub fn is_occupied(&self) -> (r: bool)
        ensures
            r == self.spec_item() is Some,
    {
        self.item.is_some()
    }

    /// Check that a new session may start: `CaptureAlreadyRunning` when one
    /// is registered.
    pub fn check_vacant(&self) -> (r: Result<(), AppError>)
        ensures
            self.spec_item() is None ==> r is Ok,
            self.spec_item() is Some ==> r == Err::<(), AppError>(AppError::CaptureAlreadyRunning),
    {
        if self.item.is_some() {
            Err(AppError::CaptureAlreadyRunning)
        } else {
            Ok(())
        }
    }

    /// Register a started session in the vacant slot.
    pub fn put(&mut self, item: T)
        requires
            old(self).spec_item() is None,
        ensures
            final(self).spec_item() == Some(item),
    {
        self.item = Some(item);
    }

    /// Take the running session out for stopping: `NoCaptureRunning` when the
    /// slot is empty. The slot is empty afterwards either way.
    pub fn take_running(&mut self) -> (r: Result<T, AppError>)
        ensures
            final(self).spec_item() is None,
            old(self).spec_item() matches Some(x) ==> r == Ok::<T, AppError>(x),
            old(self).spec_item() is None ==> r == Err::<T, AppError>(AppError::NoCaptureRunning),
    {
        match self.item.take() {
            Some(x) => Ok(x),
            None => Err(AppError::NoCaptureRunning),
        }
    }
}

/// File name of a capture started at `unix_ms`.
pub open spec fn capture_name(unix_ms: nat) -> Seq<char> {
    "recogni_system_audio_"@ + decimal(unix_ms) + ".wav"@
}

/// File name of an enhanced file written at `unix_ms`.
pub open spec fn enhanced_name(unix_ms: nat) -> Seq<char> {
    "recogni_enhanced_"@ + decimal(unix_ms) + ".wav"@
}

pub fn capture_file_name(unix_ms: u64) -> (r: String)
    ensures
        r@ == capture_name(unix_ms as nat),
{
    let mut s = String::from_str("recogni_system_audio_");
    push_decimal(&mut s, unix_ms);
    s.append(".wav");
    s
}

pub fn enhanced_file_name(unix_ms: u64) -> (r: String)
    ensures
        r@ == enhanced_name(unix_ms as nat),
{
    let mut s = String::from_str("recogni_enhanced_");
    push_decimal(&mut s, unix_ms);
    s.append(".wav");
    s
}

} // verus!
