//! The controller, the engine's loop and its workers.

use hearsay::binary32::Binary32;
use hearsay::config::SessionConfig;
use hearsay::controller::{Action, Controller, LlmJob, Msg, SynthJob};
use hearsay::conversation::State;
use hearsay::dialogue::{Role, Turn};
use hearsay::engine::{
    closing_events, failure_events, opening_events, route, transcribed, Input, Output, ReplyWorker,
    SpeechWorker,
};
use hearsay::error::{LlmError, TranscribeError};
use hearsay::events::{conv_state, ConvState, TurnRole, UiCommand, UiEvent};
use hearsay::ports::{DeltaSink, LlmClient};
use hearsay::word::{Hypothesis, Segment};
use std::sync::atomic::{AtomicBool, Ordering};

/// Carries out actions as the program would, with a player that records.
struct Harness {
    ctl: Controller,
    jobs: Vec<LlmJob>,
    synths: Vec<SynthJob>,
    events: Vec<UiEvent>,
    /// One cancel flag per reply asked for, and one before the first.
    cancels: Vec<bool>,
    barge_stops: u32,
    resumes: u32,
    draining: bool,
}

fn harness() -> Harness {
    Harness {
        ctl: Controller::new("persona", 8),
        jobs: Vec::new(),
        synths: Vec::new(),
        events: Vec::new(),
        cancels: vec![false],
        barge_stops: 0,
        resumes: 0,
        draining: false,
    }
}

impl Harness {
    fn perform(&mut self, actions: Vec<Action>) {
        for action in actions {
            match action {
                Action::ResumePlayback => self.resumes += 1,
                Action::StartLlm(job) => {
                    self.cancels.push(false);
                    self.jobs.push(job);
                }
                Action::Synthesize(job) => self.synths.push(job),
                Action::Cancel => *self.cancels.last_mut().unwrap() = true,
                Action::StopPlayback => self.barge_stops += 1,
                Action::Emit(event) => self.events.push(event),
            }
        }
    }

    fn check_drain(&mut self) {
        if self.ctl.awaiting_drain() {
            let actions = self.ctl.check_drain(self.draining);
            self.perform(actions);
        }
    }

    fn handle(&mut self, m: Msg) {
        assert!(self.ctl.can_take(&m));
        let actions = self.ctl.handle(m);
        self.perform(actions);
        self.check_drain();
    }

    fn turns(&self) -> Vec<(TurnRole, String)> {
        self.events
            .iter()
            .filter_map(|e| match e {
                UiEvent::Turn { role, text } => Some((*role, text.clone())),
                _ => None,
            })
            .collect()
    }

    fn states(&self) -> Vec<ConvState> {
        self.events
            .iter()
            .filter_map(|e| match e {
                UiEvent::State(s) => Some(*s),
                _ => None,
            })
            .collect()
    }
}

#[test]
fn full_turn_commits_user_and_assistant() {
    let mut h = harness();
    h.handle(Msg::SpeechStarted);
    h.handle(Msg::Utterance("what's up".into()));
    // a reply was asked for with the user turn in history
    let job = h.jobs.pop().expect("llm job");
    assert_eq!(job.turn, 1);
    assert_eq!(job.history.last().unwrap().text, "what's up");
    // the model streams a chunk -> it goes to synthesis
    h.handle(Msg::Chunk {
        turn: 1,
        text: "Not much, you?".into(),
    });
    let synth = h.synths.pop().expect("synth job");
    assert_eq!(synth.text, "Not much, you?");
    h.handle(Msg::PlaybackStarted { turn: 1 });
    h.handle(Msg::LlmDone {
        turn: 1,
        full: "Not much, you?".into(),
    });
    h.handle(Msg::SynthDone { turn: 1 });
    // the player is drained -> completes
    h.check_drain();
    assert_eq!(h.ctl.state(), State::Idle);
    let turns = h.turns();
    assert!(turns.contains(&(TurnRole::User, "what's up".to_string())));
    assert!(turns.contains(&(TurnRole::Assistant, "Not much, you?".to_string())));
}

#[test]
fn barge_in_flushes_player_and_cancels() {
    let mut h = harness();
    h.handle(Msg::SpeechStarted);
    h.handle(Msg::Utterance("tell me a story".into()));
    h.jobs.clear();
    h.handle(Msg::Chunk {
        turn: 1,
        text: "Once upon a time,".into(),
    });
    h.synths.clear();
    h.handle(Msg::PlaybackStarted { turn: 1 });
    assert_eq!(h.ctl.state(), State::Speaking);

    // BARGE-IN
    h.handle(Msg::SpeechStarted);
    assert_eq!(h.ctl.state(), State::Listening);
    assert!(h.cancels[1], "turn-1 cancel flag set");
    assert_eq!(h.barge_stops, 1, "player flushed");

    // the interruption becomes a new turn
    h.handle(Msg::Utterance("never mind".into()));
    let job2 = h.jobs.pop().expect("second llm job");
    assert_eq!(job2.turn, 2);
    assert!(!h.cancels[2], "the new turn has a flag of its own");
    // late output from turn 1 is ignored
    h.handle(Msg::Chunk {
        turn: 1,
        text: "the end.".into(),
    });
    assert!(h.synths.is_empty(), "stale chunk must not synth");
}

#[test]
fn conversation_loop_empty_utterance_is_a_false_start() {
    let mut h = harness();
    h.handle(Msg::SpeechStarted);
    h.handle(Msg::Utterance("   ".into()));
    assert_eq!(h.ctl.state(), State::Idle);
    assert!(h.jobs.is_empty(), "no llm job for empty utterance");
}

#[test]
fn emits_state_transitions() {
    let mut h = harness();
    h.handle(Msg::SpeechStarted);
    h.handle(Msg::Utterance("hi".into()));
    h.handle(Msg::Chunk {
        turn: 1,
        text: "Hey.".into(),
    });
    h.handle(Msg::PlaybackStarted { turn: 1 });
    let seen = h.states();
    assert!(seen.contains(&ConvState::Listening));
    assert!(seen.contains(&ConvState::Thinking));
    assert!(seen.contains(&ConvState::Speaking));
}

#[test]
fn turn_waits_for_the_player() {
    let mut h = harness();
    h.draining = true;
    h.handle(Msg::SpeechStarted);
    h.handle(Msg::Utterance("hi".into()));
    assert_eq!(h.resumes, 1);
    h.handle(Msg::Chunk { turn: 1, text: "Hey.".into() });
    h.handle(Msg::LlmDone { turn: 1, full: "Hey.".into() });
    assert!(!h.ctl.awaiting_drain(), "a chunk is still being synthesized");
    h.handle(Msg::SynthDone { turn: 1 });
    assert!(h.ctl.awaiting_drain());
    assert_eq!(h.ctl.state(), State::Thinking);
    h.draining = false;
    h.check_drain();
    assert_eq!(h.ctl.state(), State::Idle);
    assert_eq!(h.ctl.history().len(), 3);
    assert_eq!(h.ctl.history()[2].role, Role::Assistant);
}

#[test]
fn interrupted_reply_is_not_committed() {
    let mut h = harness();
    h.draining = true;
    h.handle(Msg::SpeechStarted);
    h.handle(Msg::Utterance("hi".into()));
    h.handle(Msg::LlmDone { turn: 1, full: "A long reply.".into() });
    h.handle(Msg::SpeechStarted);
    h.draining = false;
    h.check_drain();
    assert_eq!(h.ctl.state(), State::Listening);
    assert_eq!(h.turns(), vec![(TurnRole::User, "hi".to_string())]);
    // and the next turn starts with a clean slate
    h.handle(Msg::Utterance("stop".into()));
    assert!(!h.ctl.awaiting_drain());
    assert_eq!(h.ctl.cur_turn(), 2);
}

#[test]
fn interrupted_turn_stays_silent_in_any_order() {
    // what is still in flight for turn 1, in every order
    let late = |k: usize| match k {
        0 => Msg::Chunk { turn: 1, text: "the end.".into() },
        1 => Msg::PlaybackStarted { turn: 1 },
        2 => Msg::LlmDone { turn: 1, full: "Once upon a time, the end.".into() },
        _ => Msg::SynthDone { turn: 1 },
    };
    for code in 0..256usize {
        let order = [code % 4, code / 4 % 4, code / 16 % 4, code / 64];
        let mut h = harness();
        h.handle(Msg::SpeechStarted);
        h.handle(Msg::Utterance("tell me a story".into()));
        h.handle(Msg::Chunk { turn: 1, text: "Once upon a time,".into() });
        h.handle(Msg::PlaybackStarted { turn: 1 });
        h.handle(Msg::SpeechStarted);
        h.synths.clear();
        for k in order {
            h.handle(late(k));
        }
        assert!(h.synths.is_empty(), "{order:?}");
        assert_eq!(h.turns(), vec![(TurnRole::User, "tell me a story".to_string())], "{order:?}");
        h.handle(Msg::Utterance("never mind".into()));
        for k in order {
            h.handle(late(k));
        }
        assert!(h.synths.is_empty(), "{order:?}");
        h.handle(Msg::Chunk { turn: 2, text: "Fine.".into() });
        assert_eq!(h.synths.len(), 1);
        assert_eq!(h.synths[0].turn, 2);
    }
}

#[test]
fn blank_reply_completes_without_a_turn() {
    let mut h = harness();
    h.handle(Msg::SpeechStarted);
    h.handle(Msg::Utterance("hi".into()));
    h.handle(Msg::LlmDone { turn: 1, full: "  ".into() });
    assert_eq!(h.ctl.state(), State::Idle);
    assert_eq!(h.turns().len(), 1);
    assert_eq!(h.ctl.history().len(), 2);
}

#[test]
fn history_is_cut_and_keeps_the_persona() {
    let mut h = harness();
    for i in 1..=6u64 {
        h.handle(Msg::SpeechStarted);
        h.handle(Msg::Utterance(format!("q{i}")));
        h.handle(Msg::LlmDone { turn: i, full: format!("a{i}") });
    }
    let history = h.ctl.history();
    assert_eq!(history.len(), 9);
    assert_eq!((history[0].role, history[0].text.as_str()), (Role::System, "persona"));
    assert_eq!(history[1].text, "q3");
    assert_eq!(history[8].text, "a6");
}

#[test]
fn history_is_bounded_through_barge_ins() {
    let mut h = harness();
    h.ctl = Controller::new("persona", 1);
    h.handle(Msg::SpeechStarted);
    h.handle(Msg::Utterance("a".into()));
    h.handle(Msg::SpeechStarted);
    h.handle(Msg::Utterance("b".into()));
    let job = h.jobs.pop().unwrap();
    assert_eq!(job.turn, 2);
    let sent: Vec<_> = job.history.iter().map(|t| (t.role, t.text.as_str())).collect();
    assert_eq!(sent, vec![(Role::System, "persona"), (Role::User, "b")]);

    let mut h = harness();
    for i in 0..40u64 {
        h.handle(Msg::SpeechStarted);
        h.handle(Msg::Utterance(format!("q{i}")));
        assert!(h.ctl.history().len() <= 9);
    }
    assert_eq!(h.ctl.history()[0].text, "persona");
    assert_eq!(h.ctl.history()[8].text, "q39");

    // nothing but the persona
    let mut h = harness();
    h.ctl = Controller::new("persona", 0);
    h.handle(Msg::SpeechStarted);
    h.handle(Msg::Utterance("a".into()));
    let job = h.jobs.pop().unwrap();
    assert_eq!(job.history.len(), 1);
    assert_eq!(job.history[0].text, "persona");

    // no limit at all
    let mut h = harness();
    h.ctl = Controller::new("persona", usize::MAX);
    h.handle(Msg::SpeechStarted);
    h.handle(Msg::Utterance("a".into()));
    assert_eq!(h.ctl.history().len(), 2);
}

// --- the loop ------------------------------------------------------------------

#[test]
fn every_command_ends_the_loop() {
    let mut ctl = Controller::new("persona", 8);
    for cmd in [Some(UiCommand::Stop), Some(UiCommand::Shutdown), None] {
        assert!(matches!(route(&mut ctl, Input::Command(cmd)), Output::Stop));
    }
    match route(&mut ctl, Input::Tick) {
        Output::Act(actions) => assert!(actions.is_empty()),
        Output::Stop => panic!("a tick ends nothing"),
    }
    match route(&mut ctl, Input::Message(Msg::SpeechStarted)) {
        Output::Act(actions) => assert_eq!(actions.len(), 1),
        Output::Stop => panic!("a message ends nothing"),
    }
    assert_eq!(ctl.state(), State::Listening);
}

#[test]
fn ui_is_told_of_the_end() {
    assert_eq!(closing_events(), vec![UiEvent::Stopped]);
    let told = failure_events("no mic".into());
    assert_eq!(told, vec![UiEvent::Error("no mic".into()), UiEvent::Stopped]);
    assert_eq!(told.clone(), told);
}

#[test]
fn ui_is_told_of_the_start() {
    assert_eq!(opening_events(), vec![UiEvent::Started, UiEvent::State(ConvState::Idle)]);
    assert_eq!(conv_state(State::Thinking), ConvState::Thinking);
    assert_eq!(conv_state(State::Idle), ConvState::Idle);
}

// --- workers ---------------------------------------------------------------------

#[test]
fn transcription_outcomes() {
    let cfg = SessionConfig::default();
    let t = transcribed(Ok(Hypothesis::from_text(" hello  world ", 0, 100)), &cfg);
    assert_eq!(t.text, "hello world");
    assert!(t.error.is_none());

    let t = transcribed(Err(TranscribeError::Inference("boom".into())), &cfg);
    assert_eq!(t.text, "");
    assert_eq!(
        t.error,
        Some(UiEvent::Error("transcription: transcription failed: boom".into()))
    );

    let zero = Binary32::from_bits(0);
    let huge = Segment {
        text: "a b c".into(),
        t0_cs: 0,
        t1_cs: u32::MAX,
        no_speech_prob: zero,
        avg_logprob: zero,
    };
    let t = transcribed(Ok(Hypothesis { segments: vec![huge] }), &cfg);
    assert_eq!(t.text, "");
    assert_eq!(
        t.error,
        Some(UiEvent::Error(
            "transcription: transcription failed: timestamps out of range".into()
        ))
    );
}

#[test]
fn reply_worker_cuts_and_closes() {
    let mut w = ReplyWorker::new(7);
    assert_eq!(w.on_delta("Hello"), None);
    assert_eq!(
        w.on_delta(" there. And"),
        Some(Msg::Chunk { turn: 7, text: "Hello there.".into() })
    );
    assert_eq!(
        w.finish(Ok("Hello there. And".into())),
        vec![
            Msg::Chunk { turn: 7, text: "And".into() },
            Msg::LlmDone { turn: 7, full: "Hello there. And".into() },
        ]
    );
    let mut w = ReplyWorker::new(8);
    assert_eq!(
        w.finish(Err(LlmError::Unreachable("refused".into()))),
        vec![Msg::LlmDone { turn: 8, full: String::new() }]
    );
}

#[test]
fn speech_worker_reports_the_first_audio_once() {
    let mut w = SpeechWorker::new(3);
    assert_eq!(w.on_audio(), Some(Msg::PlaybackStarted { turn: 3 }));
    assert_eq!(w.on_audio(), None);
    assert_eq!(w.finish(), Msg::SynthDone { turn: 3 });
}

/// A model that says words until it is cancelled.
struct Scripted(Vec<&'static str>);

impl LlmClient for Scripted {
    fn reply(
        &self,
        _history: &[Turn],
        cancel: &AtomicBool,
        on_delta: &mut dyn DeltaSink,
    ) -> Result<String, LlmError> {
        let mut full = String::new();
        for &token in &self.0 {
            if cancel.load(Ordering::Relaxed) {
                break;
            }
            full.push_str(token);
            on_delta.delta(token);
        }
        Ok(full)
    }
}

/// Feeds a reply worker.
struct Feed(ReplyWorker, Vec<Msg>);

impl DeltaSink for Feed {
    fn delta(&mut self, token: &str) {
        self.1.extend(self.0.on_delta(token));
    }
}

#[test]
fn reply_streams_from_a_model_to_the_controller() {
    let llm: Box<dyn LlmClient> = Box::new(Scripted(vec!["Not ", "much, and ", "you? ", "Good."]));
    let mut h = harness();
    h.handle(Msg::SpeechStarted);
    h.handle(Msg::Utterance("what's up".into()));
    let job = h.jobs.pop().unwrap();
    let mut feed = Feed(ReplyWorker::new(job.turn), Vec::new());
    let outcome = llm.reply(&job.history, &AtomicBool::new(false), &mut feed);
    let mut msgs = feed.1;
    msgs.extend(feed.0.finish(outcome));
    for m in msgs {
        h.handle(m);
    }
    let spoken: String = h.synths.iter().map(|s| s.text.as_str()).collect();
    assert_eq!(spoken.replace(' ', ""), "Notmuch,andyou?Good.");
    for _ in 0..h.synths.len() {
        h.handle(Msg::SynthDone { turn: 1 });
    }
    assert_eq!(h.ctl.state(), State::Idle);
    assert_eq!(h.ctl.history()[2].text, "Not much, and you? Good.");

    let mut feed = Feed(ReplyWorker::new(2), Vec::new());
    let outcome = llm.reply(&job.history, &AtomicBool::new(true), &mut feed);
    assert_eq!(outcome, Ok(String::new()));
}
