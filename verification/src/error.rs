//! What can go wrong, and how it is put to the user.

use vstd::prelude::*;

verus! {

/// `prefix` followed by `detail`.
fn with_detail(prefix: &str, detail: &String) -> (text: String)
    ensures
        text@ == prefix@ + detail@,
{
    let mut text = String::new();
    text.append(prefix);
    text.append(detail.as_str());
    text
}

/// Something went wrong capturing audio from a source.
#[derive(Debug, PartialEq, Eq)]
pub enum CaptureError {
    /// The requested device/source could not be found.
    DeviceNotFound(String),
    /// The platform/backend does not support this capture mode.
    Unsupported(String),
    /// The system denied permission to capture.
    PermissionDenied(String),
    /// A lower-level backend error, as text.
    Backend(String),
}

impl Clone for CaptureError {
    fn clone(&self) -> (copy: Self)
        ensures
            copy == *self,
    {
        match self {
            CaptureError::DeviceNotFound(s) => CaptureError::DeviceNotFound(s.clone()),
            CaptureError::Unsupported(s) => CaptureError::Unsupported(s.clone()),
            CaptureError::PermissionDenied(s) => CaptureError::PermissionDenied(s.clone()),
            CaptureError::Backend(s) => CaptureError::Backend(s.clone()),
        }
    }
}

impl CaptureError {
    /// The error in words.
    pub open spec fn text(self) -> Seq<char> {
        match self {
            CaptureError::DeviceNotFound(s) => "audio device not found: "@ + s@,
            CaptureError::Unsupported(s) => "capture unsupported: "@ + s@,
            CaptureError::PermissionDenied(s) => "permission denied: "@ + s@,
            CaptureError::Backend(s) => "audio backend error: "@ + s@,
        }
    }

    /// The error in words.
    pub fn message(&self) -> (text: String)
        ensures
            text@ == self.text(),
    {
        match self {
            CaptureError::DeviceNotFound(s) => with_detail("audio device not found: ", s),
            CaptureError::Unsupported(s) => with_detail("capture unsupported: ", s),
            CaptureError::PermissionDenied(s) => with_detail("permission denied: ", s),
            CaptureError::Backend(s) => with_detail("audio backend error: ", s),
        }
    }
}

/// Something went wrong turning audio into text.
#[derive(Debug, PartialEq, Eq)]
pub enum TranscribeError {
    /// The model failed to load.
    ModelLoad(String),
    /// Inference failed.
    Inference(String),
}

impl Clone for TranscribeError {
    fn clone(&self) -> (copy: Self)
        ensures
            copy == *self,
    {
        match self {
            TranscribeError::ModelLoad(s) => TranscribeError::ModelLoad(s.clone()),
            TranscribeError::Inference(s) => TranscribeError::Inference(s.clone()),
        }
    }
}

impl TranscribeError {
    /// The error in words.
    pub open spec fn text(self) -> Seq<char> {
        match self {
            TranscribeError::ModelLoad(s) => "model load failed: "@ + s@,
            TranscribeError::Inference(s) => "transcription failed: "@ + s@,
        }
    }

    /// The error in words.
    pub fn message(&self) -> (text: String)
        ensures
            text@ == self.text(),
    {
        match self {
            TranscribeError::ModelLoad(s) => with_detail("model load failed: ", s),
            TranscribeError::Inference(s) => with_detail("transcription failed: ", s),
        }
    }
}

/// Something went wrong talking to the language model.
#[derive(Debug, PartialEq, Eq)]
pub enum LlmError {
    /// Could not reach the local model server (not started / wrong port).
    Unreachable(String),
    /// The server returned an error status or an unreadable stream.
    Protocol(String),
    /// The request was cancelled by a barge-in (not a real failure).
    Cancelled,
}

impl Clone for LlmError {
    fn clone(&self) -> (copy: Self)
        ensures
            copy == *self,
    {
        match self {
            LlmError::Unreachable(s) => LlmError::Unreachable(s.clone()),
            LlmError::Protocol(s) => LlmError::Protocol(s.clone()),
            LlmError::Cancelled => LlmError::Cancelled,
        }
    }
}

impl LlmError {
    /// The error in words.
    pub open spec fn text(self) -> Seq<char> {
        match self {
            LlmError::Unreachable(s) => "llm unreachable: "@ + s@,
            LlmError::Protocol(s) => "llm protocol error: "@ + s@,
            LlmError::Cancelled => "llm request cancelled"@,
        }
    }

    /// The error in words.
    pub fn message(&self) -> (text: String)
        ensures
            text@ == self.text(),
    {
        match self {
            LlmError::Unreachable(s) => with_detail("llm unreachable: ", s),
            LlmError::Protocol(s) => with_detail("llm protocol error: ", s),
            LlmError::Cancelled => "llm request cancelled".to_string(),
        }
    }
}

/// Something went wrong synthesizing speech.
#[derive(Debug, PartialEq, Eq)]
pub enum SynthError {
    /// Could not reach the speech sidecar (not started / socket gone).
    Unreachable(String),
    /// The sidecar returned an error or a stream that cannot be framed.
    Protocol(String),
    /// Synthesis was cancelled by a barge-in (not a real failure).
    Cancelled,
}

impl Clone for SynthError {
    fn clone(&self) -> (copy: Self)
        ensures
            copy == *self,
    {
        match self {
            SynthError::Unreachable(s) => SynthError::Unreachable(s.clone()),
            SynthError::Protocol(s) => SynthError::Protocol(s.clone()),
            SynthError::Cancelled => SynthError::Cancelled,
        }
    }
}

impl SynthError {
    /// The error in words.
    pub open spec fn text(self) -> Seq<char> {
        match self {
            SynthError::Unreachable(s) => "tts unreachable: "@ + s@,
            SynthError::Protocol(s) => "tts protocol error: "@ + s@,
            SynthError::Cancelled => "tts synthesis cancelled"@,
        }
    }

    /// The error in words.
    pub fn message(&self) -> (text: String)
        ensures
            text@ == self.text(),
    {
        match self {
            SynthError::Unreachable(s) => with_detail("tts unreachable: ", s),
            SynthError::Protocol(s) => with_detail("tts protocol error: ", s),
            SynthError::Cancelled => "tts synthesis cancelled".to_string(),
        }
    }
}

/// Something went wrong sending audio to the output device.
#[derive(Debug, PartialEq, Eq)]
pub struct PlaybackError(pub String);

impl Clone for PlaybackError {
    fn clone(&self) -> (copy: Self)
        ensures
            copy == *self,
    {
        PlaybackError(self.0.clone())
    }
}

impl PlaybackError {
    /// The error in words.
    pub open spec fn text(self) -> Seq<char> {
        "playback error: "@ + self.0@
    }

    /// The error in words.
    pub fn message(&self) -> (text: String)
        ensures
            text@ == self.text(),
    {
        with_detail("playback error: ", &self.0)
    }
}

/// A capture or a transcription failure while a pipeline ran.
#[derive(Debug, PartialEq)]
pub enum PipelineError {
    Capture(CaptureError),
    Transcribe(TranscribeError),
}

impl Clone for PipelineError {
    fn clone(&self) -> (copy: Self)
        ensures
            copy == *self,
    {
        match self {
            PipelineError::Capture(e) => PipelineError::Capture(e.clone()),
            PipelineError::Transcribe(e) => PipelineError::Transcribe(e.clone()),
        }
    }
}

impl PipelineError {
    /// The error in words: that of the failure inside.
    pub open spec fn text(self) -> Seq<char> {
        match self {
            PipelineError::Capture(e) => e.text(),
            PipelineError::Transcribe(e) => e.text(),
        }
    }

    /// The error in words: that of the failure inside.
    pub fn message(&self) -> (text: String)
        ensures
            text@ == self.text(),
    {
        match self {
            PipelineError::Capture(e) => e.message(),
            PipelineError::Transcribe(e) => e.message(),
        }
    }
}

impl From<CaptureError> for PipelineError {
    fn from(e: CaptureError) -> (error: Self) {
        PipelineError::Capture(e)
    }
}

impl vstd::std_specs::convert::FromSpecImpl<CaptureError> for PipelineError {
    open spec fn obeys_from_spec() -> bool {
        true
    }

    open spec fn from_spec(e: CaptureError) -> Self {
        PipelineError::Capture(e)
    }
}

impl From<TranscribeError> for PipelineError {
    fn from(e: TranscribeError) -> (error: Self) {
        PipelineError::Transcribe(e)
    }
}

impl vstd::std_specs::convert::FromSpecImpl<TranscribeError> for PipelineError {
    open spec fn obeys_from_spec() -> bool {
        true
    }

    open spec fn from_spec(e: TranscribeError) -> Self {
        PipelineError::Transcribe(e)
    }
}

/// What is said of an error is what kind it is, and then its own words.
pub proof fn law_errors_say_their_kind(why: String)
    ensures
        CaptureError::DeviceNotFound(why).text() == "audio device not found: "@ + why@,
        CaptureError::Unsupported(why).text() == "capture unsupported: "@ + why@,
        CaptureError::PermissionDenied(why).text() == "permission denied: "@ + why@,
        CaptureError::Backend(why).text() == "audio backend error: "@ + why@,
        TranscribeError::ModelLoad(why).text() == "model load failed: "@ + why@,
        TranscribeError::Inference(why).text() == "transcription failed: "@ + why@,
        LlmError::Unreachable(why).text() == "llm unreachable: "@ + why@,
        LlmError::Protocol(why).text() == "llm protocol error: "@ + why@,
        LlmError::Cancelled.text() == "llm request cancelled"@,
        SynthError::Unreachable(why).text() == "tts unreachable: "@ + why@,
        SynthError::Protocol(why).text() == "tts protocol error: "@ + why@,
        SynthError::Cancelled.text() == "tts synthesis cancelled"@,
        PlaybackError(why).text() == "playback error: "@ + why@,
{
}

/// A pipeline's error speaks with the words of the failure inside.
pub proof fn law_pipeline_errors_speak_for_themselves(
    capture: CaptureError,
    transcribe: TranscribeError,
)
    ensures
        PipelineError::Capture(capture).text() == capture.text(),
        PipelineError::Transcribe(transcribe).text() == transcribe.text(),
{
}

} // verus!
