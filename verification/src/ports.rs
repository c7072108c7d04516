//! Ports: the interfaces that the library depends on, implemented around it. Every method
//! speaks only in the library's own types. `S` is the type of a sample.

use crate::dialogue::Turn;
use crate::error::CaptureError;
use crate::error::LlmError;
use crate::error::PlaybackError;
use crate::error::SynthError;
use crate::error::TranscribeError;
use crate::transcript::TranscriptUpdate;
use crate::transcript::UpdateView;
use crate::vad::SpeechState;
use crate::word::Hypothesis;
use std::sync::atomic::AtomicBool;
use vstd::prelude::*;

verus! {

/// A source of captured audio, already normalized to **16 kHz mono**. Non-blocking pull
/// model: any real-time callback or ring buffer hides behind [`AudioSource::poll`].
pub trait AudioSource<S>: Send {
    /// Begin capture. Idempotent: calling while already running is a no-op.
    fn start(&mut self) -> Result<(), CaptureError>;

    /// Return audio captured since the last poll (16 kHz mono), empty if none yet. Never
    /// blocks.
    fn poll(&mut self) -> Result<Vec<S>, CaptureError>;

    /// Stop capture and release the device.
    fn stop(&mut self);

    /// Human label, e.g. "MacBook Pro Microphone".
    fn label(&self) -> &str;
}

/// Turns a window of 16 kHz mono audio into a word-level [`Hypothesis`] with timestamps and
/// per-segment confidence.
pub trait Transcriber<S>: Send {
    fn transcribe(&mut self, audio_16k_mono: &[S]) -> Result<Hypothesis, TranscribeError>;
}

/// Voice-activity detection.
pub trait SpeechDetector<S>: Send {
    fn observe(&mut self, frame_16k_mono: &[S]) -> SpeechState;

    fn reset(&mut self);
}

/// Where transcript updates go. The updates emitted so far are what a sink is to the
/// library.
pub trait TranscriptSink {
    /// The updates emitted so far. An implementation that is to be verified says what they are
    /// in it.
    closed spec fn emitted(&self) -> Seq<UpdateView> {
        arbitrary()
    }

    fn emit(&mut self, update: &TranscriptUpdate)
        ensures
            final(self).emitted() == old(self).emitted().push(update@),
    ;
}

/// Where a reply goes while it is generated.
pub trait DeltaSink {
    /// Take the next piece of the reply.
    fn delta(&mut self, token: &str);
}

/// A streaming chat model. `reply` streams assistant text deltas to `on_delta` until the model
/// is done or `cancel` flips true, which stops generation promptly. Returns the full assistant
/// text produced so far.
pub trait LlmClient: Send {
    fn reply(&self, history: &[Turn], cancel: &AtomicBool, on_delta: &mut dyn DeltaSink) -> Result<
        String,
        LlmError,
    >;
}

/// Where synthesized audio goes.
pub trait PcmSink<S> {
    /// Take the next chunk of mono samples.
    fn pcm(&mut self, samples: &[S]);
}

/// Text to mono audio at [`SpeechSynthesizer::sample_rate`], delivered in chunks to `on_pcm`
/// as they are synthesized. `cancel` is looked at between chunks, so a barge-in stops it.
pub trait SpeechSynthesizer<S>: Send {
    fn speak(&mut self, text: &str, cancel: &AtomicBool, on_pcm: &mut dyn PcmSink<S>) -> Result<
        (),
        SynthError,
    >;

    /// Native sample rate of the synthesized audio.
    fn sample_rate(&self) -> u32;
}

/// An interruptible audio sink. `enqueue` appends samples at the synthesizer's rate;
/// `barge_stop` flushes everything pending immediately for an instant audible cut, and
/// nothing is accepted until `resume`; `played_samples` reports what actually reached the
/// device (for "how much did they hear").
pub trait AudioPlayer<S>: Send {
    fn enqueue(&mut self, pcm: &[S]) -> Result<(), PlaybackError>;

    fn barge_stop(&mut self);

    fn resume(&mut self);

    fn played_samples(&self) -> u64;

    fn is_draining(&self) -> bool;

    /// Sample rate that `enqueue`d audio is expected in.
    fn input_sample_rate(&self) -> u32;
}

} // verus!
