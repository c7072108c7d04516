//! Configuration values shared across the library.

use crate::binary32::Binary32;
use vstd::prelude::*;

verus! {

/// Which kind of audio a source captures.
#[derive(Clone, Copy, Debug, PartialEq, Eq, Hash, Structural)]
pub enum SourceKind {
    /// A microphone / input device.
    Microphone,
    /// The computer's own output ("system audio").
    SystemAudio,
}

impl SourceKind {
    /// Short label for headings.
    pub fn label(self) -> (label: &'static str)
        ensures
            label@ == match self {
                SourceKind::Microphone => "Mic"@,
                SourceKind::SystemAudio => "System"@,
            },
    {
        match self {
            SourceKind::Microphone => "Mic",
            SourceKind::SystemAudio => "System",
        }
    }
}

/// A Whisper model the user can pick. Fast to accurate.
#[derive(Clone, Copy, Debug, PartialEq, Eq, Structural)]
pub enum ModelChoice {
    TinyEn,
    BaseEn,
    SmallEn,
    LargeV3Turbo,
}

impl ModelChoice {
    pub const ALL: [ModelChoice; 4] = [
        ModelChoice::TinyEn,
        ModelChoice::BaseEn,
        ModelChoice::SmallEn,
        ModelChoice::LargeV3Turbo,
    ];

    /// Human label with a speed/accuracy hint.
    pub fn label(self) -> (label: &'static str)
        ensures
            label@ == match self {
                ModelChoice::TinyEn => "Tiny (fastest)"@,
                ModelChoice::BaseEn => "Base (recommended)"@,
                ModelChoice::SmallEn => "Small (more accurate)"@,
                ModelChoice::LargeV3Turbo => "Large v3 Turbo (most accurate)"@,
            },
    {
        match self {
            ModelChoice::TinyEn => "Tiny (fastest)",
            ModelChoice::BaseEn => "Base (recommended)",
            ModelChoice::SmallEn => "Small (more accurate)",
            ModelChoice::LargeV3Turbo => "Large v3 Turbo (most accurate)",
        }
    }

    /// Whether the model knows English only, so that the transcriber can be told so.
    pub fn is_english_only(self) -> (answer: bool)
        ensures
            answer == (self != ModelChoice::LargeV3Turbo),
    {
        match self {
            ModelChoice::LargeV3Turbo => false,
            _ => true,
        }
    }
}

impl Default for ModelChoice {
    fn default() -> (choice: Self)
        ensures
            choice == ModelChoice::BaseEn,
    {
        ModelChoice::BaseEn
    }
}

/// Sliding-window / commit policy for a transcription session. Centiseconds (cs)
/// throughout, as in the transcriber's timestamps.
#[derive(Clone, Copy, Debug)]
pub struct SessionConfig {
    /// Hand out a window for transcription roughly every `step_cs`.
    pub step_cs: u32,
    /// Hard cap on buffered audio (trimming normally keeps it shorter).
    pub window_max_cs: u32,
    /// Once buffered audio is older than this, trim it at committed boundaries.
    pub buffer_trimming_cs: u32,
    /// Audio kept before the committed boundary as context.
    pub preroll_cs: u32,
    /// Silence this long marks the end of an utterance.
    pub utterance_silence_ms: u32,
    /// Drop segments with a no-speech probability above this.
    pub no_speech_max: Binary32,
    /// Drop segments with an average log-probability below this.
    pub logprob_min: Binary32,
}

/// The bit pattern of 0.6.
pub const NO_SPEECH_MAX_BITS: u32 = 0x3f19_999a;

/// The bit pattern of -1.0.
pub const LOGPROB_MIN_BITS: u32 = 0xbf80_0000;

impl Default for SessionConfig {
    fn default() -> (cfg: Self)
        ensures
            cfg == (SessionConfig {
                step_cs: 100,
                window_max_cs: 1200,
                buffer_trimming_cs: 800,
                preroll_cs: 50,
                utterance_silence_ms: 700,
                no_speech_max: Binary32 { bits: NO_SPEECH_MAX_BITS },
                logprob_min: Binary32 { bits: LOGPROB_MIN_BITS },
            }),
            cfg.no_speech_max.bits == 0x3f19_999a,
            cfg.logprob_min.bits == 0xbf80_0000,
    {
        SessionConfig {
            step_cs: 100,  // 1.0 s
            window_max_cs: 1200,  // 12 s hard cap
            buffer_trimming_cs: 800,  // trim once buffer > 8 s
            preroll_cs: 50,  // keep 0.5 s of context behind the boundary
            utterance_silence_ms: 700,
            no_speech_max: Binary32 { bits: NO_SPEECH_MAX_BITS },
            logprob_min: Binary32 { bits: LOGPROB_MIN_BITS },
        }
    }
}

} // verus!
