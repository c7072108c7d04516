//! Starting and stopping, what the user is told, and what the web view gets.

use hearsay::binary32::Binary32;
use hearsay::config::ModelChoice;
use hearsay::events::{ConvState, TurnRole, UiEvent};
use hearsay::shell::{
    conv_state_str, download_status, engine_config, forward, llm_base, look, look_at_port,
    repo_root, unloaded_status, Payload, Phase, PortWait, Shell, StartAction, Startup, Waited, Which, SETUP_HINT,
};
use hearsay::text::decimal_of;

/// A short name for each action, with its text.
fn names(actions: &[StartAction]) -> Vec<String> {
    actions.iter().map(|a| format!("{a:?}")).collect()
}

#[test]
fn scripts_live_where_they_are_said_to() {
    assert_eq!(repo_root(Some("/x/y".into()), "/Users/me"), "/x/y");
    assert_eq!(repo_root(None, "/Users/me"), "/Users/me/Repos/hearsay");
}

#[test]
fn port_is_waited_for_a_while() {
    assert_eq!(look_at_port(true, 0), PortWait::Done);
    assert_eq!(look_at_port(false, 0), PortWait::Again(200));
    assert_eq!(look_at_port(false, 5_999), PortWait::Again(200));
    assert_eq!(look_at_port(false, 6_000), PortWait::Done);
}

#[test]
fn cold_start_runs_through_all_phases() {
    let (mut s, first) = Startup::new(false, None, false);
    assert_eq!(
        names(&first),
        vec![
            "SweepStale",
            "WaitPortFree",
            "RemoveSocket",
            "Status(\"Starting models… (first Go takes ~15s)\")",
            "SpawnLlm"
        ]
    );
    let mut all = Vec::new();
    while s.phase() != Phase::Running {
        all.extend(names(&s.on_ok()));
    }
    assert_eq!(
        all,
        vec![
            "SpawnTts",
            "KeepSidecars",
            "AwaitLlm",
            "AwaitTts",
            "Status(\"Loading speech recognition…\")",
            "EnsureModel",
            "LoadModel",
            "OpenDuplex",
            "Run"
        ]
    );
    assert!(s.on_ok().is_empty());
    assert!(s.on_error("late").is_empty());
}

#[test]
fn warm_start_only_waits() {
    let (s, first) = Startup::new(true, None, false);
    assert_eq!(names(&first), vec!["AwaitLlm"]);
    assert_eq!(s.phase(), Phase::AwaitingLlm);
}

/// A start that has come to the audio devices.
fn at_audio(replay: Option<&str>, no_aec: bool) -> (Startup, Vec<StartAction>) {
    let (mut s, _) = Startup::new(true, replay.map(|p| p.to_string()), no_aec);
    s.on_ok();
    s.on_ok();
    s.on_ok();
    let actions = s.on_ok();
    (s, actions)
}

#[test]
fn replay_goes_without_echo_cancellation() {
    let (mut s, actions) = at_audio(Some("/tmp/a.wav"), false);
    assert_eq!(names(&actions), vec!["OpenSpeaker"]);
    assert_eq!(names(&s.on_ok()), vec!["OpenReplay(\"/tmp/a.wav\")"]);
    assert_eq!(names(&s.on_ok()), vec!["Run"]);
    // an empty path is none
    let (_, actions) = at_audio(Some(""), false);
    assert_eq!(names(&actions), vec!["OpenDuplex"]);
}

#[test]
fn missing_echo_cancellation_is_survived() {
    let (mut s, actions) = at_audio(None, false);
    assert_eq!(names(&actions), vec!["OpenDuplex"]);
    assert_eq!(
        names(&s.on_error("denied")),
        vec!["Status(\"Echo cancellation unavailable — wear headphones.\")", "OpenSpeaker"]
    );
    assert_eq!(names(&s.on_ok()), vec!["UseMicrophone", "Run"]);
    let (mut s, actions) = at_audio(None, true);
    assert_eq!(names(&actions), vec!["OpenSpeaker"]);
    assert_eq!(names(&s.on_error("busy")), vec!["Fail(\"audio output: busy\")"]);
}

fn failure(s: &mut Startup, why: &str) -> String {
    let mut actions = s.on_error(why);
    assert_eq!(actions.len(), 1);
    assert_eq!(s.phase(), Phase::Failed);
    match actions.remove(0) {
        StartAction::Fail(text) => text,
        other => panic!("expected a failure, got {other:?}"),
    }
}

#[test]
fn failures_are_told_in_full() {
    let (mut s, _) = Startup::new(false, None, false);
    assert_eq!(
        failure(&mut s, "no python"),
        format!("Couldn't start the language model: no python\n{SETUP_HINT}")
    );
    let (mut s, _) = Startup::new(false, None, false);
    s.on_ok();
    assert_eq!(
        failure(&mut s, "no python"),
        format!("Couldn't start the voice: no python\n{SETUP_HINT}")
    );
    let (mut s, _) = Startup::new(true, None, false);
    assert_eq!(failure(&mut s, "gone"), "gone");
    let (mut s, _) = Startup::new(true, None, false);
    s.on_ok();
    assert_eq!(failure(&mut s, "mute"), "mute");
    let (mut s, _) = Startup::new(true, None, false);
    s.on_ok();
    s.on_ok();
    assert_eq!(failure(&mut s, "offline"), "speech model: offline");
    let (mut s, _) = Startup::new(true, None, false);
    s.on_ok();
    s.on_ok();
    s.on_ok();
    assert_eq!(failure(&mut s, "corrupt"), "whisper load: corrupt");
    let (mut s, _) = at_audio(Some("/tmp/a.wav"), false);
    s.on_ok();
    assert_eq!(failure(&mut s, "no file"), "replay wav: no file");
}

#[test]
fn waiting_for_a_sidecar() {
    assert!(matches!(look(Which::Llm, true, true, "", 999), Waited::Ready));
    assert!(matches!(
        look(Which::Llm, false, false, "", 7),
        Waited::Again(t) if t == "Loading language model… 7s"
    ));
    assert!(matches!(
        look(Which::Tts, false, false, "", 89),
        Waited::Again(t) if t == "Warming up the voice… 89s"
    ));
    assert!(matches!(
        look(Which::Llm, false, true, "tail", 7),
        Waited::Failed(t) if t == "Loading language model crashed during startup.\n\ntail"
    ));
    assert!(matches!(
        look(Which::Tts, false, true, "tail", 7),
        Waited::Failed(t) if t == "The voice model crashed during startup.\n\ntail"
    ));
    assert!(matches!(
        look(Which::Llm, false, false, "tail", 120),
        Waited::Failed(t) if t == "Loading language model didn't come up in 120s.\n\ntail"
    ));
    assert!(matches!(
        look(Which::Tts, false, false, "tail", 90),
        Waited::Failed(t) if t == "The voice didn't warm up in 90s.\n\ntail"
    ));
}

#[test]
fn download_is_told_in_percent() {
    assert_eq!(download_status(37, 148), Some("Downloading speech model… 25%".to_string()));
    assert_eq!(download_status(0, 0), None);
}

#[test]
fn begin_is_idempotent() {
    let mut s = Shell::new();
    assert!(s.begin());
    assert!(!s.begin());
    s.loaded();
    s.started();
    assert!(!s.begin());
    s.stopped();
    assert!(s.warm);
    assert!(s.begin());
    s.failed();
    assert!(s.begin());
}

#[test]
fn models_are_unloaded_after_a_while() {
    let mut s = Shell::new();
    assert!(!s.unload_if_idle(Some(1_000)));
    s.begin();
    s.loaded();
    assert!(!s.unload_if_idle(Some(1_000)), "not while starting");
    s.started();
    assert!(!s.unload_if_idle(Some(1_000)), "not while running");
    s.stopped();
    assert!(!s.unload_if_idle(None));
    assert!(!s.unload_if_idle(Some(299)));
    assert!(s.unload_if_idle(Some(300)));
    assert!(!s.unload_if_idle(Some(300)), "only once");
    assert_eq!(unloaded_status(), "Models unloaded (idle). Click Go to resume.");
    s.loaded();
    s.closed();
    assert_eq!(s, Shell::new());
}

#[test]
fn conversation_settings() {
    let cfg = engine_config("/models".to_string());
    assert_eq!(cfg.llm_base, "http://127.0.0.1:8765");
    assert_eq!(llm_base(), cfg.llm_base);
    assert_eq!(cfg.history_keep, 8);
    assert_eq!(cfg.whisper_model, ModelChoice::BaseEn);
    assert_eq!(cfg.model_dir, "/models");
    assert_eq!(cfg.llm_model, "mlx-community/Qwen2.5-3B-Instruct-4bit");
    assert!(cfg.persona.starts_with("You are Hearsay, a warm, witty conversational buddy"));
    assert!(cfg.persona.contains("one or two sentences. Be natural"));
    assert!(cfg.mic.is_none());
}

#[test]
fn events_for_the_web_view() {
    let text = |p: Payload| match p {
        Payload::Text(t) => t,
        other => panic!("expected text, got {other:?}"),
    };
    let (e, last) = forward(UiEvent::Status("Loading".into()));
    assert_eq!((e.name, text(e.payload), last), ("status", "Loading".to_string(), false));
    let (e, last) = forward(UiEvent::State(ConvState::Speaking));
    assert_eq!((e.name, text(e.payload), last), ("state", "speaking".to_string(), false));
    let (e, _) = forward(UiEvent::Error("oops".into()));
    assert_eq!((e.name, text(e.payload)), ("error", "oops".to_string()));
    let (e, last) = forward(UiEvent::Started);
    assert_eq!((e.name, last), ("started", false));
    assert!(matches!(e.payload, Payload::Nothing));
    let (e, last) = forward(UiEvent::Stopped);
    assert_eq!((e.name, last), ("stopped", true));
    let (e, _) = forward(UiEvent::Turn { role: TurnRole::Assistant, text: "hey".into() });
    assert_eq!(e.name, "turn");
    assert!(matches!(e.payload, Payload::Turn { role: "assistant", text } if text == "hey"));
    let (e, _) = forward(UiEvent::Turn { role: TurnRole::User, text: "hi".into() });
    assert!(matches!(e.payload, Payload::Turn { role: "user", .. }));
    let (e, _) = forward(UiEvent::Level(Binary32::from_bits(5)));
    assert_eq!(e.name, "level");
    assert!(matches!(e.payload, Payload::Level(l) if l.to_bits() == 5));
    assert_eq!(conv_state_str(ConvState::Idle), "idle");
    assert_eq!(conv_state_str(ConvState::Listening), "listening");
    assert_eq!(conv_state_str(ConvState::Thinking), "thinking");
}

#[test]
fn numerals() {
    assert_eq!(decimal_of(0), "0");
    assert_eq!(decimal_of(10), "10");
    assert_eq!(decimal_of(u64::MAX), "18446744073709551615");
}
