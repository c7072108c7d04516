//! The desktop shell's decisions: how a conversation is started step by step, what the user is
//! told, when the models are unloaded, and how the engine's events reach the web view.

use crate::binary32::Binary32;
use crate::config::ModelChoice;
use crate::config::SessionConfig;
use crate::events::ConvState;
use crate::events::EngineConfig;
use crate::events::TurnRole;
use crate::events::UiEvent;
use crate::events::UiEventView;
use crate::text::decimal_of;
use crate::vad::VadConfig;
use vstd::prelude::*;

verus! {

/// The port that the language model serves on.
pub const LLM_PORT: u16 = 8765;

/// The socket that the voice serves on.
pub const TTS_SOCK: &'static str = "/tmp/hearsay_kokoro.sock";

/// The language model.
pub const LLM_MODEL: &'static str = "mlx-community/Qwen2.5-3B-Instruct-4bit";

/// The voice.
pub const DEFAULT_VOICE: &'static str = "af_heart";

/// How long the program is idle before the models are unloaded, in seconds.
pub const IDLE_UNLOAD_S: u64 = 300;

/// How many turns of history are kept besides the persona.
pub const HISTORY_KEEP: usize = 8;

/// The system persona.
pub const PERSONA: &'static str = "You are Hearsay, a warm, witty conversational buddy having a spoken chat. Keep replies short — one or two sentences. Be natural, friendly, and a little playful. Never use markdown, bullet points, numbered lists, stage directions, or emoji; just talk like a person.";

/// What the user may do if a model does not start.
pub const SETUP_HINT: &'static str = "If this is the first run, open the repo in a terminal once and run: make setup";

/// Texts one after the other.
fn cat(a: &str, b: &str) -> (text: String)
    ensures
        text@ == a@ + b@,
{
    let mut text = a.to_string();
    text.append(b);
    text
}

/// Where the sidecar scripts and environments live: the directory given, or `~/Repos/hearsay`.
pub fn repo_root(given: Option<String>, home: &str) -> (root: String)
    ensures
        root@ == match given {
            Some(root) => root@,
            None => home@ + "/Repos/hearsay"@,
        },
{
    match given {
        Some(root) => root,
        None => cat(home, "/Repos/hearsay"),
    }
}

/// How long to wait for the language model's port to be free.
pub const PORT_PATIENCE_MS: u64 = 6_000;

/// How long to wait between two looks at the port.
pub const PORT_PAUSE_MS: u64 = 200;

/// What comes of a look at the port.
#[derive(Clone, Copy, Debug, PartialEq, Eq, Structural)]
pub enum PortWait {
    /// Go on: it is free, or the wait is over.
    Done,
    /// Look again after a pause of so many milliseconds.
    Again(u64),
}

/// Look at the port, so that a fresh server doesn't race a dying one: whether it is free, and
/// how long it has been waited for.
pub fn look_at_port(free: bool, elapsed_ms: u64) -> (wait: PortWait)
    ensures
        wait == if free || elapsed_ms >= PORT_PATIENCE_MS {
            PortWait::Done
        } else {
            PortWait::Again(PORT_PAUSE_MS)
        },
        !free && elapsed_ms < 6_000 ==> wait == PortWait::Again(200),
        !free && elapsed_ms >= 6_000 ==> wait == PortWait::Done,
{
    if free || elapsed_ms >= PORT_PATIENCE_MS {
        PortWait::Done
    } else {
        PortWait::Again(PORT_PAUSE_MS)
    }
}

/// The language model's URL.
pub fn llm_base() -> (base: String)
    ensures
        base@ == "http://127.0.0.1:"@ + crate::text::decimal(LLM_PORT as nat),
{
    cat("http://127.0.0.1:", decimal_of(LLM_PORT as u64).as_str())
}

/// The configuration that a conversation runs with.
pub fn engine_config(model_dir: String) -> (cfg: EngineConfig)
    ensures
        cfg.mic is None,
        cfg.whisper_model == ModelChoice::BaseEn,
        cfg.model_dir == model_dir,
        cfg.session == default_session(),
        cfg.vad == default_vad(),
        cfg.llm_base@ == "http://127.0.0.1:"@ + crate::text::decimal(LLM_PORT as nat),
        cfg.llm_model@ == LLM_MODEL@,
        cfg.persona@ == PERSONA@,
        cfg.history_keep == HISTORY_KEEP,
        cfg.history_keep == 8,
        cfg.llm_base@ == "http://127.0.0.1:"@ + crate::text::decimal(8765),
{
    EngineConfig {
        mic: None,
        whisper_model: ModelChoice::BaseEn,
        model_dir,
        session: SessionConfig::default(),
        vad: VadConfig::default(),
        llm_base: llm_base(),
        llm_model: LLM_MODEL.to_string(),
        persona: PERSONA.to_string(),
        history_keep: HISTORY_KEEP,
    }
}

/// The session defaults.
pub open spec fn default_session() -> SessionConfig {
    SessionConfig {
        step_cs: 100,
        window_max_cs: 1200,
        buffer_trimming_cs: 800,
        preroll_cs: 50,
        utterance_silence_ms: 700,
        no_speech_max: Binary32 { bits: crate::config::NO_SPEECH_MAX_BITS },
        logprob_min: Binary32 { bits: crate::config::LOGPROB_MIN_BITS },
    }
}

/// The voice-activity defaults.
pub open spec fn default_vad() -> VadConfig {
    VadConfig {
        noise_floor_init: Binary32 { bits: crate::vad::NOISE_FLOOR_INIT_BITS },
        floor_min: Binary32 { bits: crate::vad::FLOOR_MIN_BITS },
        enter_mult: Binary32 { bits: crate::vad::ENTER_MULT_BITS },
        exit_mult: Binary32 { bits: crate::vad::EXIT_MULT_BITS },
        hangover_ms: 320,
        ema_alpha: Binary32 { bits: crate::vad::EMA_ALPHA_BITS },
    }
}

// ---------------------------------------------------------------------------
// Starting a conversation
// ---------------------------------------------------------------------------

/// What is being waited for.
#[derive(Clone, Copy, Debug, PartialEq, Eq, Structural)]
pub enum Phase {
    SpawningLlm,
    SpawningTts,
    AwaitingLlm,
    AwaitingTts,
    EnsuringModel,
    LoadingModel,
    /// One unit for microphone and speaker, with echo cancellation.
    OpeningDuplex,
    OpeningSpeaker,
    OpeningReplay,
    /// The conversation runs.
    Running,
    /// It could not be started.
    Failed,
}

/// What is to be done next.
#[derive(Debug)]
pub enum StartAction {
    /// Kill sidecars that a previous run left.
    SweepStale,
    /// Wait until the language model's port is free.
    WaitPortFree,
    /// Remove the voice's old socket.
    RemoveSocket,
    /// Tell the user.
    Status(String),
    SpawnLlm,
    SpawnTts,
    /// Keep the two sidecars for later conversations.
    KeepSidecars,
    AwaitLlm,
    AwaitTts,
    /// Make sure that the speech model is on disk.
    EnsureModel,
    LoadModel,
    OpenDuplex,
    OpenSpeaker,
    /// Replay this file as the microphone.
    OpenReplay(String),
    /// Use the default microphone.
    UseMicrophone,
    /// Start the engine with what has been opened.
    Run,
    /// Tell the user that it failed, with these words.
    Fail(String),
}

#[verifier::ext_equal]
pub enum StartActionView {
    SweepStale,
    WaitPortFree,
    RemoveSocket,
    Status(Seq<char>),
    SpawnLlm,
    SpawnTts,
    KeepSidecars,
    AwaitLlm,
    AwaitTts,
    EnsureModel,
    LoadModel,
    OpenDuplex,
    OpenSpeaker,
    OpenReplay(Seq<char>),
    UseMicrophone,
    Run,
    Fail(Seq<char>),
}

impl View for StartAction {
    type V = StartActionView;

    open spec fn view(&self) -> StartActionView {
        match *self {
            StartAction::SweepStale => StartActionView::SweepStale,
            StartAction::WaitPortFree => StartActionView::WaitPortFree,
            StartAction::RemoveSocket => StartActionView::RemoveSocket,
            StartAction::Status(text) => StartActionView::Status(text@),
            StartAction::SpawnLlm => StartActionView::SpawnLlm,
            StartAction::SpawnTts => StartActionView::SpawnTts,
            StartAction::KeepSidecars => StartActionView::KeepSidecars,
            StartAction::AwaitLlm => StartActionView::AwaitLlm,
            StartAction::AwaitTts => StartActionView::AwaitTts,
            StartAction::EnsureModel => StartActionView::EnsureModel,
            StartAction::LoadModel => StartActionView::LoadModel,
            StartAction::OpenDuplex => StartActionView::OpenDuplex,
            StartAction::OpenSpeaker => StartActionView::OpenSpeaker,
            StartAction::OpenReplay(path) => StartActionView::OpenReplay(path@),
            StartAction::UseMicrophone => StartActionView::UseMicrophone,
            StartAction::Run => StartActionView::Run,
            StartAction::Fail(text) => StartActionView::Fail(text@),
        }
    }
}

/// The actions of a list as mathematical values.
pub open spec fn start_views(actions: Seq<StartAction>) -> Seq<StartActionView> {
    Seq::new(actions.len(), |i: int| actions[i]@)
}

/// A start's state.
#[verifier::ext_equal]
pub struct StartState {
    pub phase: Phase,
    /// The file to replay as the microphone, if any.
    pub replay: Option<Seq<char>>,
    /// Are microphone and speaker opened apart, without echo cancellation?
    pub no_aec: bool,
}

impl StartState {
    /// The state with another phase.
    pub open spec fn at(self, phase: Phase) -> StartState {
        StartState { phase, ..self }
    }

    /// The start has failed.
    pub open spec fn fail(self, text: Seq<char>) -> (StartState, Seq<StartActionView>) {
        (self.at(Phase::Failed), seq![StartActionView::Fail(text)])
    }

    /// What follows when what was waited for has worked.
    pub open spec fn on_ok(self) -> (StartState, Seq<StartActionView>) {
        match self.phase {
            Phase::SpawningLlm => (self.at(Phase::SpawningTts), seq![StartActionView::SpawnTts]),
            Phase::SpawningTts => (
                self.at(Phase::AwaitingLlm),
                seq![StartActionView::KeepSidecars, StartActionView::AwaitLlm],
            ),
            Phase::AwaitingLlm => (self.at(Phase::AwaitingTts), seq![StartActionView::AwaitTts]),
            Phase::AwaitingTts => (
                self.at(Phase::EnsuringModel),
                seq![
                    StartActionView::Status("Loading speech recognition…"@),
                    StartActionView::EnsureModel,
                ],
            ),
            Phase::EnsuringModel => (
                self.at(Phase::LoadingModel),
                seq![StartActionView::LoadModel],
            ),
            Phase::LoadingModel => if self.no_aec {
                (self.at(Phase::OpeningSpeaker), seq![StartActionView::OpenSpeaker])
            } else {
                (self.at(Phase::OpeningDuplex), seq![StartActionView::OpenDuplex])
            },
            Phase::OpeningDuplex => (self.at(Phase::Running), seq![StartActionView::Run]),
            Phase::OpeningSpeaker => match self.replay {
                Some(path) => (
                    self.at(Phase::OpeningReplay),
                    seq![StartActionView::OpenReplay(path)],
                ),
                None => (
                    self.at(Phase::Running),
                    seq![StartActionView::UseMicrophone, StartActionView::Run],
                ),
            },
            Phase::OpeningReplay => (self.at(Phase::Running), seq![StartActionView::Run]),
            Phase::Running => (self, seq![]),
            Phase::Failed => (self, seq![]),
        }
    }

    /// What follows when it has failed, with these words.
    pub open spec fn on_error(self, why: Seq<char>) -> (StartState, Seq<StartActionView>) {
        match self.phase {
            Phase::SpawningLlm => self.fail(
                "Couldn't start the language model: "@ + why + "\n"@ + SETUP_HINT@,
            ),
            Phase::SpawningTts => self.fail(
                "Couldn't start the voice: "@ + why + "\n"@ + SETUP_HINT@,
            ),
            Phase::AwaitingLlm => self.fail(why),
            Phase::AwaitingTts => self.fail(why),
            Phase::EnsuringModel => self.fail("speech model: "@ + why),
            Phase::LoadingModel => self.fail("whisper load: "@ + why),
            Phase::OpeningDuplex => (
                self.at(Phase::OpeningSpeaker),
                seq![
                    StartActionView::Status(
                        "Echo cancellation unavailable — wear headphones."@,
                    ),
                    StartActionView::OpenSpeaker,
                ],
            ),
            Phase::OpeningSpeaker => self.fail("audio output: "@ + why),
            Phase::OpeningReplay => self.fail("replay wav: "@ + why),
            Phase::Running => (self, seq![]),
            Phase::Failed => (self, seq![]),
        }
    }
}

/// The start of a conversation, one outcome at a time.
#[derive(Debug)]
pub struct Startup {
    phase: Phase,
    replay: Option<String>,
    no_aec: bool,
}

impl View for Startup {
    type V = StartState;

    closed spec fn view(&self) -> StartState {
        StartState {
            phase: self.phase,
            replay: match self.replay {
                Some(path) => Some(path@),
                None => None,
            },
            no_aec: self.no_aec,
        }
    }
}

/// The first actions: warm sidecars are only waited for; otherwise stale ones go and new ones
/// are spawned.
pub open spec fn first_actions(warm: bool) -> Seq<StartActionView> {
    if warm {
        seq![StartActionView::AwaitLlm]
    } else {
        seq![
            StartActionView::SweepStale,
            StartActionView::WaitPortFree,
            StartActionView::RemoveSocket,
            StartActionView::Status("Starting models… (first Go takes ~15s)"@),
            StartActionView::SpawnLlm,
        ]
    }
}

impl Startup {
    /// Begin. `warm` tells whether the sidecars run already; an empty `replay` counts as none,
    /// and a replay goes without echo cancellation.
    pub fn new(warm: bool, replay: Option<String>, no_aec: bool) -> (start: (
        Self,
        Vec<StartAction>,
    ))
        ensures
            start.0@ == (StartState {
                phase: if warm {
                    Phase::AwaitingLlm
                } else {
                    Phase::SpawningLlm
                },
                replay: match replay {
                    Some(path) => if path@.len() > 0 {
                        Some(path@)
                    } else {
                        None
                    },
                    None => None,
                },
                no_aec: no_aec || (replay matches Some(path) && path@.len() > 0),
            }),
            start_views(start.1@) == first_actions(warm),
    {
        let replay = match replay {
            Some(path) => {
                if path.as_str().is_empty() {
                    None
                } else {
                    Some(path)
                }
            },
            None => None,
        };
        let no_aec = no_aec || replay.is_some();
        let mut actions: Vec<StartAction> = Vec::new();
        let phase = if warm {
            actions.push(StartAction::AwaitLlm);
            Phase::AwaitingLlm
        } else {
            actions.push(StartAction::SweepStale);
            actions.push(StartAction::WaitPortFree);
            actions.push(StartAction::RemoveSocket);
            actions.push(
                StartAction::Status("Starting models… (first Go takes ~15s)".to_string()),
            );
            actions.push(StartAction::SpawnLlm);
            Phase::SpawningLlm
        };
        assert(start_views(actions@) =~= first_actions(warm));
        (Startup { phase, replay, no_aec }, actions)
    }

    /// What is being waited for.
    pub fn phase(&self) -> (phase: Phase)
        ensures
            phase == self@.phase,
    {
        self.phase
    }

    /// What was waited for has worked; returns what to do next.
    pub fn on_ok(&mut self) -> (actions: Vec<StartAction>)
        ensures
            final(self)@ == old(self)@.on_ok().0,
            start_views(actions@) == old(self)@.on_ok().1,
    {
        let ghost begin = self@;
        let mut actions: Vec<StartAction> = Vec::new();
        match self.phase {
            Phase::SpawningLlm => {
                self.phase = Phase::SpawningTts;
                actions.push(StartAction::SpawnTts);
            },
            Phase::SpawningTts => {
                self.phase = Phase::AwaitingLlm;
                actions.push(StartAction::KeepSidecars);
                actions.push(StartAction::AwaitLlm);
            },
            Phase::AwaitingLlm => {
                self.phase = Phase::AwaitingTts;
                actions.push(StartAction::AwaitTts);
            },
            Phase::AwaitingTts => {
                self.phase = Phase::EnsuringModel;
                actions.push(StartAction::Status("Loading speech recognition…".to_string()));
                actions.push(StartAction::EnsureModel);
            },
            Phase::EnsuringModel => {
                self.phase = Phase::LoadingModel;
                actions.push(StartAction::LoadModel);
            },
            Phase::LoadingModel => {
                if self.no_aec {
                    self.phase = Phase::OpeningSpeaker;
                    actions.push(StartAction::OpenSpeaker);
                } else {
                    self.phase = Phase::OpeningDuplex;
                    actions.push(StartAction::OpenDuplex);
                }
            },
            Phase::OpeningDuplex => {
                self.phase = Phase::Running;
                actions.push(StartAction::Run);
            },
            Phase::OpeningSpeaker => {
                match &self.replay {
                    Some(path) => {
                        actions.push(StartAction::OpenReplay(path.clone()));
                        self.phase = Phase::OpeningReplay;
                    },
                    None => {
                        actions.push(StartAction::UseMicrophone);
                        actions.push(StartAction::Run);
                        self.phase = Phase::Running;
                    },
                }
            },
            Phase::OpeningReplay => {
                self.phase = Phase::Running;
                actions.push(StartAction::Run);
            },
            Phase::Running | Phase::Failed => {},
        }
        assert(start_views(actions@) =~= begin.on_ok().1);
        actions
    }

    /// It has failed, with these words; returns what to do next. Without echo cancellation the
    /// conversation goes on; anything else ends the start.
    pub fn on_error(&mut self, why: &str) -> (actions: Vec<StartAction>)
        ensures
            final(self)@ == old(self)@.on_error(why@).0,
            start_views(actions@) == old(self)@.on_error(why@).1,
    {
        let ghost begin = self@;
        let mut actions: Vec<StartAction> = Vec::new();
        match self.phase {
            Phase::SpawningLlm => {
                let text = cat("Couldn't start the language model: ", why);
                actions.push(self.fail(with_hint(text)));
            },
            Phase::SpawningTts => {
                let text = cat("Couldn't start the voice: ", why);
                actions.push(self.fail(with_hint(text)));
            },
            Phase::AwaitingLlm | Phase::AwaitingTts => {
                actions.push(self.fail(why.to_string()));
            },
            Phase::EnsuringModel => {
                actions.push(self.fail(cat("speech model: ", why)));
            },
            Phase::LoadingModel => {
                actions.push(self.fail(cat("whisper load: ", why)));
            },
            Phase::OpeningDuplex => {
                self.phase = Phase::OpeningSpeaker;
                actions.push(
                    StartAction::Status(
                        "Echo cancellation unavailable — wear headphones.".to_string(),
                    ),
                );
                actions.push(StartAction::OpenSpeaker);
            },
            Phase::OpeningSpeaker => {
                actions.push(self.fail(cat("audio output: ", why)));
            },
            Phase::OpeningReplay => {
                actions.push(self.fail(cat("replay wav: ", why)));
            },
            Phase::Running | Phase::Failed => {},
        }
        assert(start_views(actions@) =~= begin.on_error(why@).1);
        actions
    }

    fn fail(&mut self, text: String) -> (action: StartAction)
        ensures
            final(self)@ == old(self)@.at(Phase::Failed),
            action@ == StartActionView::Fail(text@),
    {
        self.phase = Phase::Failed;
        StartAction::Fail(text)
    }
}

fn with_hint(text: String) -> (hinted: String)
    ensures
        hinted@ == text@ + "\n"@ + SETUP_HINT@,
{
    cat(cat(text.as_str(), "\n").as_str(), SETUP_HINT)
}

/// How many outcomes a start still needs at most.
pub open spec fn remaining(phase: Phase) -> nat {
    match phase {
        Phase::SpawningLlm => 9,
        Phase::SpawningTts => 8,
        Phase::AwaitingLlm => 7,
        Phase::AwaitingTts => 6,
        Phase::EnsuringModel => 5,
        Phase::LoadingModel => 4,
        Phase::OpeningDuplex => 3,
        Phase::OpeningSpeaker => 2,
        Phase::OpeningReplay => 1,
        Phase::Running => 0,
        Phase::Failed => 0,
    }
}

/// A start always comes to an end: every outcome brings it nearer, and the conversation runs,
/// or has failed, exactly when there is nothing left to wait for.
pub proof fn law_start_ends(state: StartState, why: Seq<char>)
    ensures
        remaining(state.phase) > 0 ==> remaining(state.on_ok().0.phase) < remaining(state.phase),
        remaining(state.phase) > 0 ==> remaining(state.on_error(why).0.phase) < remaining(
            state.phase,
        ),
        remaining(state.phase) == 0 <==> state.phase == Phase::Running || state.phase
            == Phase::Failed,
{
}

/// A failure never starts the engine, and only a missing echo cancellation is survived: any
/// other failure tells the user and ends the start.
pub proof fn law_failure_ends_the_start(state: StartState, why: Seq<char>)
    requires
        remaining(state.phase) > 0,
    ensures
        state.on_error(why).0.phase != Phase::Running,
        state.phase != Phase::OpeningDuplex ==> state.on_error(why).0.phase == Phase::Failed
            && state.on_error(why).1.len() == 1 && state.on_error(why).1[0] is Fail,
{
}

// ---------------------------------------------------------------------------
// Waiting for a sidecar
// ---------------------------------------------------------------------------

/// Which sidecar is waited for.
#[derive(Clone, Copy, Debug, PartialEq, Eq, Structural)]
pub enum Which {
    Llm,
    Tts,
}

/// What comes of a look at the sidecar.
#[derive(Debug)]
pub enum Waited {
    Ready,
    /// Tell the user, and look again a little later.
    Again(String),
    /// Give up, with these words.
    Failed(String),
}

/// How long a sidecar is waited for, in seconds.
pub open spec fn patience(which: Which) -> u64 {
    match which {
        Which::Llm => 120,
        Which::Tts => 90,
    }
}

/// What is said of a sidecar that crashed.
pub open spec fn crashed_text(which: Which, tail: Seq<char>) -> Seq<char> {
    match which {
        Which::Llm => "Loading language model crashed during startup.\n\n"@ + tail,
        Which::Tts => "The voice model crashed during startup.\n\n"@ + tail,
    }
}

/// What is said of a sidecar that took too long.
pub open spec fn late_text(which: Which, tail: Seq<char>) -> Seq<char> {
    let lead = match which {
        Which::Llm => "Loading language model didn't come up in "@,
        Which::Tts => "The voice didn't warm up in "@,
    };
    lead + crate::text::decimal(patience(which) as nat) + "s.\n\n"@ + tail
}

/// What is said while a sidecar is waited for.
pub open spec fn waiting_text(which: Which, elapsed_s: u64) -> Seq<char> {
    let lead = match which {
        Which::Llm => "Loading language model… "@,
        Which::Tts => "Warming up the voice… "@,
    };
    lead + crate::text::decimal(elapsed_s as nat) + "s"@
}

/// A look at a sidecar: whether it is ready, whether it has exited, the tail of its log, and
/// for how long it has been waited. A crash is told at once, with the sidecar's own log.
pub fn look(which: Which, ready: bool, exited: bool, tail: &str, elapsed_s: u64) -> (waited: Waited)
    ensures
        ready ==> waited is Ready,
        !ready && exited ==> (waited matches Waited::Failed(text) && text@ == crashed_text(
            which,
            tail@,
        )),
        !ready && !exited && elapsed_s >= patience(which) ==> (waited matches Waited::Failed(text)
            && text@ == late_text(which, tail@)),
        !ready && !exited && elapsed_s < patience(which) ==> (waited matches Waited::Again(text)
            && text@ == waiting_text(which, elapsed_s)),
{
    if ready {
        return Waited::Ready;
    }
    if exited {
        let lead = match which {
            Which::Llm => "Loading language model crashed during startup.\n\n",
            Which::Tts => "The voice model crashed during startup.\n\n",
        };
        return Waited::Failed(cat(lead, tail));
    }
    let limit: u64 = match which {
        Which::Llm => 120,
        Which::Tts => 90,
    };
    if elapsed_s >= limit {
        let lead = match which {
            Which::Llm => "Loading language model didn't come up in ",
            Which::Tts => "The voice didn't warm up in ",
        };
        let text = cat(cat(lead, decimal_of(limit).as_str()).as_str(), "s.\n\n");
        return Waited::Failed(cat(text.as_str(), tail));
    }
    let lead = match which {
        Which::Llm => "Loading language model… ",
        Which::Tts => "Warming up the voice… ",
    };
    Waited::Again(cat(cat(lead, decimal_of(elapsed_s).as_str()).as_str(), "s"))
}

/// What is said while the speech model is downloaded, if the total is known.
pub fn download_status(done: u64, total: u64) -> (text: Option<String>)
    requires
        done * 100 <= u64::MAX,
    ensures
        match text {
            Some(text) => total > 0 && text@ == "Downloading speech model… "@
                + crate::text::decimal((done * 100 / total as int) as nat) + "%"@,
            None => total == 0,
        },
{
    match crate::models::percent(done, total) {
        Some(share) => Some(
            cat(
                cat("Downloading speech model… ", decimal_of(share).as_str()).as_str(),
                "%",
            ),
        ),
        None => None,
    }
}

// ---------------------------------------------------------------------------
// What the program is at
// ---------------------------------------------------------------------------

/// Whether a conversation is being started or runs, and whether the models are loaded.
#[derive(Clone, Copy, Debug, PartialEq, Eq, Structural)]
pub struct Shell {
    pub starting: bool,
    pub running: bool,
    pub warm: bool,
}

impl Shell {
    pub fn new() -> (shell: Self)
        ensures
            shell == (Shell { starting: false, running: false, warm: false }),
    {
        Shell { starting: false, running: false, warm: false }
    }

    /// Begin a conversation; false, and nothing happens, if one is starting or runs already.
    pub fn begin(&mut self) -> (begun: bool)
        ensures
            begun == (!old(self).starting && !old(self).running),
            *final(self) == (Shell { starting: old(self).starting || begun, ..*old(self) }),
    {
        if self.starting || self.running {
            return false;
        }
        self.starting = true;
        true
    }

    /// The sidecars are loaded.
    pub fn loaded(&mut self)
        ensures
            *final(self) == (Shell { warm: true, ..*old(self) }),
    {
        self.warm = true;
    }

    /// The conversation runs.
    pub fn started(&mut self)
        ensures
            *final(self) == (Shell { starting: false, running: true, ..*old(self) }),
    {
        self.starting = false;
        self.running = true;
    }

    /// It could not be started. Sidecars that run already stay.
    pub fn failed(&mut self)
        ensures
            *final(self) == (Shell { starting: false, ..*old(self) }),
    {
        self.starting = false;
    }

    /// The conversation was stopped. The sidecars stay warm for an instant resume.
    pub fn stopped(&mut self)
        ensures
            *final(self) == (Shell { running: false, ..*old(self) }),
    {
        self.running = false;
    }

    /// Should the models be unloaded, if the program has been idle for this long? If so, they
    /// count as unloaded from now on.
    pub fn unload_if_idle(&mut self, idle_s: Option<u64>) -> (unload: bool)
        ensures
            unload == (!old(self).running && !old(self).starting && old(self).warm && (
            idle_s matches Some(s) && s >= IDLE_UNLOAD_S)),
            *final(self) == (Shell { warm: old(self).warm && !unload, ..*old(self) }),
            unload ==> (idle_s matches Some(s) && s >= 300),
            !old(self).running && !old(self).starting && old(self).warm && (idle_s matches Some(s)
                && s >= 300) ==> unload,
    {
        let idle = match idle_s {
            Some(s) => s >= IDLE_UNLOAD_S,
            None => false,
        };
        if !self.running && !self.starting && self.warm && idle {
            self.warm = false;
            return true;
        }
        false
    }

    /// The window closes: the models go.
    pub fn closed(&mut self)
        ensures
            *final(self) == (Shell { running: false, warm: false, ..*old(self) }),
    {
        self.running = false;
        self.warm = false;
    }
}

/// What the user is told when the models have been unloaded.
pub fn unloaded_status() -> (text: &'static str)
    ensures
        text@ == "Models unloaded (idle). Click Go to resume."@,
{
    "Models unloaded (idle). Click Go to resume."
}

// ---------------------------------------------------------------------------
// Events for the web view
// ---------------------------------------------------------------------------

/// What an event carries.
#[derive(Debug)]
pub enum Payload {
    Nothing,
    Text(String),
    Turn { role: &'static str, text: String },
    Level(Binary32),
}

/// An event for the web view.
#[derive(Debug)]
pub struct WebEvent {
    pub name: &'static str,
    pub payload: Payload,
}

#[verifier::ext_equal]
pub enum PayloadView {
    Nothing,
    Text(Seq<char>),
    Turn { role: Seq<char>, text: Seq<char> },
    Level(Binary32),
}

impl View for Payload {
    type V = PayloadView;

    open spec fn view(&self) -> PayloadView {
        match *self {
            Payload::Nothing => PayloadView::Nothing,
            Payload::Text(text) => PayloadView::Text(text@),
            Payload::Turn { role, text } => PayloadView::Turn { role: role@, text: text@ },
            Payload::Level(level) => PayloadView::Level(level),
        }
    }
}

/// The name of a state in the web view.
pub open spec fn state_name(state: ConvState) -> Seq<char> {
    match state {
        ConvState::Idle => "idle"@,
        ConvState::Listening => "listening"@,
        ConvState::Thinking => "thinking"@,
        ConvState::Speaking => "speaking"@,
    }
}

/// The name of a state in the web view.
pub fn conv_state_str(s: ConvState) -> (name: &'static str)
    ensures
        name@ == state_name(s),
{
    match s {
        ConvState::Idle => "idle",
        ConvState::Listening => "listening",
        ConvState::Thinking => "thinking",
        ConvState::Speaking => "speaking",
    }
}

/// The name and the payload of an event in the web view.
pub open spec fn web_view(event: UiEventView) -> (Seq<char>, PayloadView) {
    match event {
        UiEventView::Status(text) => ("status"@, PayloadView::Text(text)),
        UiEventView::Started => ("started"@, PayloadView::Nothing),
        UiEventView::State(state) => ("state"@, PayloadView::Text(state_name(state))),
        UiEventView::Turn { role, text } => (
            "turn"@,
            PayloadView::Turn {
                role: match role {
                    TurnRole::User => "user"@,
                    TurnRole::Assistant => "assistant"@,
                },
                text,
            },
        ),
        UiEventView::Level(level) => ("level"@, PayloadView::Level(level)),
        UiEventView::Error(text) => ("error"@, PayloadView::Text(text)),
        UiEventView::Stopped => ("stopped"@, PayloadView::Nothing),
    }
}

/// An engine event as the web view gets it; the flag tells whether it is the last one.
pub fn forward(event: UiEvent) -> (web: (WebEvent, bool))
    ensures
        web.0.name@ == web_view(event@).0,
        web.0.payload@ == web_view(event@).1,
        web.1 == (event@ is Stopped),
{
    match event {
        UiEvent::Status(text) => (
            WebEvent { name: "status", payload: Payload::Text(text) },
            false,
        ),
        UiEvent::Started => (WebEvent { name: "started", payload: Payload::Nothing }, false),
        UiEvent::State(state) => (
            WebEvent {
                name: "state",
                payload: Payload::Text(conv_state_str(state).to_string()),
            },
            false,
        ),
        UiEvent::Turn { role, text } => {
            let role = match role {
                TurnRole::User => "user",
                TurnRole::Assistant => "assistant",
            };
            (WebEvent { name: "turn", payload: Payload::Turn { role, text } }, false)
        },
        UiEvent::Level(level) => (
            WebEvent { name: "level", payload: Payload::Level(level) },
            false,
        ),
        UiEvent::Error(text) => (WebEvent { name: "error", payload: Payload::Text(text) }, false),
        UiEvent::Stopped => (WebEvent { name: "stopped", payload: Payload::Nothing }, true),
    }
}

// ---------------------------------------------------------------------------
// The way of a start
// ---------------------------------------------------------------------------

/// The phases after one whose wait was successful, to the end.
pub open spec fn way_from(state: StartState, n: nat) -> StartState
    decreases n,
{
    if n == 0 {
        state
    } else {
        way_from(state.on_ok().0, (n - 1) as nat)
    }
}

/// A cold start without a failure comes by every step, in this order: the language model, the
/// voice, the wait for the one and for the other, the speech model on disk and in memory, and
/// the audio. With echo cancellation the audio is one step; without it the speaker comes first,
/// and a file to replay after it.
pub proof fn law_way_of_a_start(state: StartState)
    requires
        state.phase == Phase::SpawningLlm,
    ensures
        way_from(state, 1) == state.at(Phase::SpawningTts),
        way_from(state, 2) == state.at(Phase::AwaitingLlm),
        way_from(state, 3) == state.at(Phase::AwaitingTts),
        way_from(state, 4) == state.at(Phase::EnsuringModel),
        way_from(state, 5) == state.at(Phase::LoadingModel),
        !state.no_aec ==> way_from(state, 6) == state.at(Phase::OpeningDuplex) && way_from(state, 7)
            == state.at(Phase::Running),
        state.no_aec ==> way_from(state, 6) == state.at(Phase::OpeningSpeaker),
        state.no_aec && state.replay is None ==> way_from(state, 7) == state.at(Phase::Running),
        state.no_aec && state.replay is Some ==> way_from(state, 7) == state.at(
            Phase::OpeningReplay,
        ) && way_from(state, 8) == state.at(Phase::Running),
{
    reveal_with_fuel(way_from, 9);
}

/// A phase changes only the phase.
pub proof fn law_phase_is_all_that_changes(state: StartState, phase: Phase, why: Seq<char>)
    ensures
        state.at(phase).phase == phase,
        state.at(phase).replay == state.replay,
        state.at(phase).no_aec == state.no_aec,
        state.on_ok().0.replay == state.replay,
        state.on_ok().0.no_aec == state.no_aec,
        state.on_error(why).0.replay == state.replay,
        state.on_error(why).0.no_aec == state.no_aec,
{
}

/// Each step asks for what the next phase waits for, and for nothing that waits elsewhere; the
/// engine is started as the last thing, and once.
pub proof fn law_steps_ask_for_the_next(state: StartState)
    ensures
        ({
            let asked = state.on_ok().1;
            &&& state.phase == Phase::SpawningLlm ==> asked == seq![StartActionView::SpawnTts]
            &&& state.phase == Phase::SpawningTts ==> asked == seq![
                StartActionView::KeepSidecars,
                StartActionView::AwaitLlm,
            ]
            &&& state.phase == Phase::AwaitingLlm ==> asked == seq![StartActionView::AwaitTts]
            &&& state.phase == Phase::AwaitingTts ==> asked == seq![
                StartActionView::Status("Loading speech recognition…"@),
                StartActionView::EnsureModel,
            ]
            &&& state.phase == Phase::EnsuringModel ==> asked == seq![StartActionView::LoadModel]
            &&& state.phase == Phase::LoadingModel && state.no_aec ==> asked == seq![
                StartActionView::OpenSpeaker,
            ]
            &&& state.phase == Phase::LoadingModel && !state.no_aec ==> asked == seq![
                StartActionView::OpenDuplex,
            ]
            &&& state.phase == Phase::OpeningDuplex ==> asked == seq![StartActionView::Run]
            &&& state.phase == Phase::OpeningSpeaker ==> (state.replay matches Some(path) ==> asked
                == seq![StartActionView::OpenReplay(path)])
            &&& state.phase == Phase::OpeningSpeaker && state.replay is None ==> asked == seq![
                StartActionView::UseMicrophone,
                StartActionView::Run,
            ]
            &&& state.phase == Phase::OpeningReplay ==> asked == seq![StartActionView::Run]
            &&& state.phase == Phase::Running || state.phase == Phase::Failed ==> asked.len() == 0
                && state.on_ok().0 == state
        }),
{
}

/// A failure is told with what failed and why; a first run is hinted at where a model could not
/// be started at all.
pub proof fn law_failures_are_told(state: StartState, why: Seq<char>)
    ensures
        ({
            let told = state.on_error(why).1;
            &&& state.phase == Phase::SpawningLlm ==> told == seq![
                StartActionView::Fail(
                    "Couldn't start the language model: "@ + why + "\n"@ + SETUP_HINT@,
                ),
            ]
            &&& state.phase == Phase::SpawningTts ==> told == seq![
                StartActionView::Fail("Couldn't start the voice: "@ + why + "\n"@ + SETUP_HINT@),
            ]
            &&& state.phase == Phase::AwaitingLlm || state.phase == Phase::AwaitingTts ==> told
                == seq![StartActionView::Fail(why)]
            &&& state.phase == Phase::EnsuringModel ==> told == seq![
                StartActionView::Fail("speech model: "@ + why),
            ]
            &&& state.phase == Phase::LoadingModel ==> told == seq![
                StartActionView::Fail("whisper load: "@ + why),
            ]
            &&& state.phase == Phase::OpeningSpeaker ==> told == seq![
                StartActionView::Fail("audio output: "@ + why),
            ]
            &&& state.phase == Phase::OpeningReplay ==> told == seq![
                StartActionView::Fail("replay wav: "@ + why),
            ]
            &&& state.phase == Phase::OpeningDuplex ==> state.on_error(why).0.phase
                == Phase::OpeningSpeaker && told == seq![
                StartActionView::Status("Echo cancellation unavailable — wear headphones."@),
                StartActionView::OpenSpeaker,
            ]
            &&& state.phase == Phase::Running || state.phase == Phase::Failed ==> told.len() == 0
                && state.on_error(why).0 == state
        }),
{
}

/// A warm start spawns nothing; a cold one first clears what an earlier run left.
pub proof fn law_first_actions(warm: bool)
    ensures
        warm ==> first_actions(warm) == seq![StartActionView::AwaitLlm],
        !warm ==> {
            let first = first_actions(warm);
            &&& first.len() == 5
            &&& first[0] is SweepStale
            &&& first[1] is WaitPortFree
            &&& first[2] is RemoveSocket
            &&& first[3] == StartActionView::Status("Starting models… (first Go takes ~15s)"@)
            &&& first[4] is SpawnLlm
        },
{
}

/// The language model is waited for two minutes, the voice a minute and a half, and what is said
/// meanwhile counts the seconds.
pub proof fn law_patience(which: Which, tail: Seq<char>, elapsed_s: u64)
    ensures
        patience(Which::Llm) == 120,
        patience(Which::Tts) == 90,
        crashed_text(Which::Llm, tail) == "Loading language model crashed during startup.\n\n"@
            + tail,
        crashed_text(Which::Tts, tail) == "The voice model crashed during startup.\n\n"@ + tail,
        late_text(Which::Llm, tail) == "Loading language model didn't come up in "@
            + crate::text::decimal(120) + "s.\n\n"@ + tail,
        late_text(Which::Tts, tail) == "The voice didn't warm up in "@ + crate::text::decimal(90)
            + "s.\n\n"@ + tail,
        waiting_text(Which::Llm, elapsed_s) == "Loading language model… "@ + crate::text::decimal(
            elapsed_s as nat,
        ) + "s"@,
        waiting_text(Which::Tts, elapsed_s) == "Warming up the voice… "@ + crate::text::decimal(
            elapsed_s as nat,
        ) + "s"@,
{
}

/// Every event reaches the web view under its own name, with what it carries.
pub proof fn law_events_reach_the_web_view(text: Seq<char>, level: Binary32)
    ensures
        web_view(UiEventView::Status(text)) == ("status"@, PayloadView::Text(text)),
        web_view(UiEventView::Started) == ("started"@, PayloadView::Nothing),
        web_view(UiEventView::State(ConvState::Idle)) == ("state"@, PayloadView::Text("idle"@)),
        web_view(UiEventView::State(ConvState::Listening)) == (
            "state"@,
            PayloadView::Text("listening"@),
        ),
        web_view(UiEventView::State(ConvState::Thinking)) == (
            "state"@,
            PayloadView::Text("thinking"@),
        ),
        web_view(UiEventView::State(ConvState::Speaking)) == (
            "state"@,
            PayloadView::Text("speaking"@),
        ),
        web_view(UiEventView::Turn { role: TurnRole::User, text }) == (
            "turn"@,
            PayloadView::Turn { role: "user"@, text },
        ),
        web_view(UiEventView::Turn { role: TurnRole::Assistant, text }) == (
            "turn"@,
            PayloadView::Turn { role: "assistant"@, text },
        ),
        web_view(UiEventView::Level(level)) == ("level"@, PayloadView::Level(level)),
        web_view(UiEventView::Error(text)) == ("error"@, PayloadView::Text(text)),
        web_view(UiEventView::Stopped) == ("stopped"@, PayloadView::Nothing),
{
}

} // verus!
