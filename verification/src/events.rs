//! Types that cross the engine's boundary: what a UI sends ([`UiCommand`]), what the engine
//! emits ([`UiEvent`]), and the run configuration ([`EngineConfig`]).

use crate::binary32::Binary32;
use crate::config::ModelChoice;
use crate::config::SessionConfig;
use crate::conversation::State;
use crate::vad::VadConfig;
use vstd::prelude::*;

verus! {

/// Everything the engine needs to run a conversation.
#[derive(Debug)]
pub struct EngineConfig {
    /// Microphone device name; `None` is the system default input.
    pub mic: Option<String>,
    pub whisper_model: ModelChoice,
    /// The directory that holds the transcription models.
    pub model_dir: String,
    pub session: SessionConfig,
    pub vad: VadConfig,
    /// Base URL of the OpenAI-compatible model server, e.g. `http://127.0.0.1:8080`.
    pub llm_base: String,
    /// Model id the server was started with.
    pub llm_model: String,
    /// The system persona prompt.
    pub persona: String,
    /// Keep the system turn + this many recent turns in history.
    pub history_keep: usize,
}

impl Clone for EngineConfig {
    fn clone(&self) -> (copy: Self)
        ensures
            copy == *self,
    {
        EngineConfig {
            mic: match &self.mic {
                Some(name) => Some(name.clone()),
                None => None,
            },
            whisper_model: self.whisper_model,
            model_dir: self.model_dir.clone(),
            session: self.session,
            vad: self.vad,
            llm_base: self.llm_base.clone(),
            llm_model: self.llm_model.clone(),
            persona: self.persona.clone(),
            history_keep: self.history_keep,
        }
    }
}

/// UI to engine.
#[derive(Clone, Copy, Debug, PartialEq, Eq, Structural)]
pub enum UiCommand {
    /// Stop the conversation (threads exit; sidecars stay warm, owned by the shell).
    Stop,
    /// Stop and tear down the engine.
    Shutdown,
}

/// Which side of the conversation a committed turn belongs to.
#[derive(Clone, Copy, Debug, PartialEq, Eq, Structural)]
pub enum TurnRole {
    User,
    Assistant,
}

/// Coarse conversation state for the UI (mirrors the dialog).
#[derive(Clone, Copy, Debug, PartialEq, Eq, Structural)]
pub enum ConvState {
    Idle,
    Listening,
    Thinking,
    Speaking,
}

/// Engine to UI.
#[derive(Debug, PartialEq)]
pub enum UiEvent {
    /// Free-text status during startup ("Loading models…").
    Status(String),
    /// Capture started and models are ready: the agent is listening.
    Started,
    /// The dialog's state changed.
    State(ConvState),
    /// A finalized turn to append to the transcript.
    Turn { role: TurnRole, text: String },
    /// Live input level (linear RMS, about 0.0 to 1.0) for the mic meter.
    Level(Binary32),
    /// A recoverable error to surface.
    Error(String),
    /// The engine stopped.
    Stopped,
}

impl Clone for UiEvent {
    fn clone(&self) -> (copy: Self)
        ensures
            copy == *self,
    {
        match self {
            UiEvent::Status(text) => UiEvent::Status(text.clone()),
            UiEvent::Started => UiEvent::Started,
            UiEvent::State(state) => UiEvent::State(*state),
            UiEvent::Turn { role, text } => UiEvent::Turn { role: *role, text: text.clone() },
            UiEvent::Level(level) => UiEvent::Level(*level),
            UiEvent::Error(text) => UiEvent::Error(text.clone()),
            UiEvent::Stopped => UiEvent::Stopped,
        }
    }
}

/// An event for the UI as a mathematical value.
#[verifier::ext_equal]
pub enum UiEventView {
    Status(Seq<char>),
    Started,
    State(ConvState),
    Turn { role: TurnRole, text: Seq<char> },
    Level(Binary32),
    Error(Seq<char>),
    Stopped,
}

impl View for UiEvent {
    type V = UiEventView;

    open spec fn view(&self) -> UiEventView {
        match *self {
            UiEvent::Status(text) => UiEventView::Status(text@),
            UiEvent::Started => UiEventView::Started,
            UiEvent::State(state) => UiEventView::State(state),
            UiEvent::Turn { role, text } => UiEventView::Turn { role, text: text@ },
            UiEvent::Level(level) => UiEventView::Level(level),
            UiEvent::Error(text) => UiEventView::Error(text@),
            UiEvent::Stopped => UiEventView::Stopped,
        }
    }
}

/// The dialog's state as the UI is told.
pub open spec fn conv_state_of(state: State) -> ConvState {
    match state {
        State::Idle => ConvState::Idle,
        State::Listening => ConvState::Listening,
        State::Thinking => ConvState::Thinking,
        State::Speaking => ConvState::Speaking,
    }
}

/// The dialog's state as the UI is told.
pub fn conv_state(s: State) -> (state: ConvState)
    ensures
        state == conv_state_of(s),
{
    match s {
        State::Idle => ConvState::Idle,
        State::Listening => ConvState::Listening,
        State::Thinking => ConvState::Thinking,
        State::Speaking => ConvState::Speaking,
    }
}

/// The UI is told each state by its own name.
pub proof fn law_states_are_told_apart()
    ensures
        conv_state_of(State::Idle) == ConvState::Idle,
        conv_state_of(State::Listening) == ConvState::Listening,
        conv_state_of(State::Thinking) == ConvState::Thinking,
        conv_state_of(State::Speaking) == ConvState::Speaking,
{
}

} // verus!
