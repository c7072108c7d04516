//! Turn taking, history and sentence chunking.

use hearsay::conversation::{Dialog, Effect, Event, State};
use hearsay::dialogue::{Conversation, Role, SentenceChunker};

fn d() -> Dialog {
    Dialog::new()
}

#[test]
fn happy_path_listen_think_speak_idle() {
    let mut d = d();
    assert_eq!(d.state(), State::Idle);

    assert!(d.on(Event::UserSpeechStarted).is_empty());
    assert_eq!(d.state(), State::Listening);

    let eff = d.on(Event::UserUtterance("what's the time".into()));
    assert_eq!(d.state(), State::Thinking);
    assert_eq!(d.turn(), 1);
    assert_eq!(
        eff,
        vec![
            Effect::CommitUser {
                text: "what's the time".into()
            },
            Effect::StartLlm {
                turn: 1,
                user_text: "what's the time".into()
            },
        ]
    );

    let eff = d.on(Event::SpeakableChunk {
        turn: 1,
        text: "It's noon.".into(),
    });
    assert_eq!(
        eff,
        vec![Effect::Synthesize {
            turn: 1,
            text: "It's noon.".into()
        }]
    );

    assert!(d.on(Event::PlaybackStarted { turn: 1 }).is_empty());
    assert_eq!(d.state(), State::Speaking);

    let eff = d.on(Event::AssistantComplete { turn: 1 });
    assert_eq!(d.state(), State::Idle);
    assert_eq!(eff, vec![Effect::CommitAssistant { turn: 1 }]);
}

#[test]
fn conversation_empty_utterance_is_a_false_start() {
    let mut d = d();
    d.on(Event::UserSpeechStarted);
    let eff = d.on(Event::UserUtterance("   ".into()));
    assert_eq!(d.state(), State::Idle);
    assert_eq!(d.turn(), 0);
    assert!(eff.is_empty());
}

#[test]
fn barge_in_during_speaking_cancels_and_relistens() {
    let mut d = d();
    d.on(Event::UserSpeechStarted);
    d.on(Event::UserUtterance("tell me a long story".into()));
    d.on(Event::SpeakableChunk {
        turn: 1,
        text: "Once upon a time,".into(),
    });
    d.on(Event::PlaybackStarted { turn: 1 });
    assert_eq!(d.state(), State::Speaking);

    let eff = d.on(Event::UserSpeechStarted); // BARGE-IN
    assert_eq!(d.state(), State::Listening);
    assert_eq!(
        eff,
        vec![
            Effect::CancelLlm { turn: 1 },
            Effect::CancelTts { turn: 1 },
            Effect::StopPlayback,
        ]
    );
}

#[test]
fn barge_in_during_thinking_before_audio() {
    let mut d = d();
    d.on(Event::UserSpeechStarted);
    d.on(Event::UserUtterance("hi".into()));
    assert_eq!(d.state(), State::Thinking);
    let eff = d.on(Event::UserSpeechStarted); // barge-in before any audio
    assert_eq!(d.state(), State::Listening);
    assert!(eff.contains(&Effect::CancelLlm { turn: 1 }));
    assert!(eff.contains(&Effect::StopPlayback));
}

#[test]
fn stale_output_after_bargein_is_ignored() {
    let mut d = d();
    d.on(Event::UserSpeechStarted);
    d.on(Event::UserUtterance("a".into())); // turn 1
    d.on(Event::PlaybackStarted { turn: 1 });
    d.on(Event::UserSpeechStarted); // barge-in -> Listening
    d.on(Event::UserUtterance("b".into())); // turn 2
    assert_eq!(d.turn(), 2);
    // late turn-1 output produces nothing
    assert!(d
        .on(Event::SpeakableChunk {
            turn: 1,
            text: "late".into()
        })
        .is_empty());
    assert!(d.on(Event::PlaybackStarted { turn: 1 }).is_empty());
    assert!(d.on(Event::AssistantComplete { turn: 1 }).is_empty());
    // turn 2 still active
    assert_eq!(d.state(), State::Thinking);
}

#[test]
fn empty_reply_completes_to_idle() {
    let mut d = d();
    d.on(Event::UserSpeechStarted);
    d.on(Event::UserUtterance("hi".into()));
    // no chunks, no playback: completion comes directly
    let eff = d.on(Event::AssistantComplete { turn: 1 });
    assert_eq!(d.state(), State::Idle);
    assert_eq!(eff, vec![Effect::CommitAssistant { turn: 1 }]);
}

#[test]
fn turn_ids_increment_per_utterance() {
    let mut d = d();
    for n in 1..=3 {
        d.on(Event::UserSpeechStarted);
        d.on(Event::UserUtterance(format!("msg {n}")));
        assert_eq!(d.turn(), n);
        d.on(Event::AssistantComplete { turn: n });
        assert_eq!(d.state(), State::Idle);
    }
}

#[test]
fn speech_onset_while_listening_is_noop() {
    let mut d = d();
    d.on(Event::UserSpeechStarted);
    assert_eq!(d.state(), State::Listening);
    assert!(d.on(Event::UserSpeechStarted).is_empty());
    assert_eq!(d.state(), State::Listening);
}

#[test]
fn utterance_while_idle_is_ignored() {
    let mut d = d();
    let eff = d.on(Event::UserUtterance("stray".into()));
    assert_eq!(d.state(), State::Idle);
    assert!(eff.is_empty());
}

#[test]
fn utterance_is_trimmed() {
    let mut d = Dialog::default();
    d.on(Event::UserSpeechStarted);
    let eff = d.on(Event::UserUtterance("\t hello \n".into()));
    assert_eq!(eff[0], Effect::CommitUser { text: "hello".into() });
    assert!(d.can_take(&Event::UserUtterance("again".into())));
}

#[test]
fn finished_turn_is_not_committed_again() {
    let mut d = d();
    d.on(Event::UserSpeechStarted);
    d.on(Event::UserUtterance("hi".into()));
    d.on(Event::AssistantComplete { turn: 1 });
    assert!(d.on(Event::AssistantComplete { turn: 1 }).is_empty());
    assert!(d
        .on(Event::SpeakableChunk {
            turn: 1,
            text: "late".into()
        })
        .is_empty());
    d.on(Event::UserSpeechStarted);
    assert!(d.on(Event::AssistantComplete { turn: 1 }).is_empty());
}

// --- chunking ----------------------------------------------------------------

#[test]
fn chunker_emits_on_sentence_end() {
    let mut c = SentenceChunker::new();
    assert_eq!(c.push("Hello"), None);
    assert_eq!(c.push(" there."), Some("Hello there.".to_string()));
    assert_eq!(c.push(" How are"), None);
    assert_eq!(c.push(" you?"), Some("How are you?".to_string()));
    assert_eq!(c.flush(), None);
}

#[test]
fn chunker_flushes_tail_without_terminator() {
    let mut c = SentenceChunker::new();
    c.push("no period here");
    assert_eq!(c.flush(), Some("no period here".to_string()));
}

#[test]
fn first_chunk_breaks_early_at_comma_past_min() {
    let mut c = SentenceChunker::new();
    // first comma (idx 4) is too early; the comma after "sure" (idx 14) qualifies
    assert_eq!(
        c.push("Yeah, for sure, that makes total sense."),
        Some("Yeah, for sure,".to_string())
    );
    // the remainder breaks on the terminator, no longer comma-breaking
    assert_eq!(c.flush(), Some("that makes total sense.".to_string()));
}

#[test]
fn later_chunks_do_not_comma_break() {
    let mut c = SentenceChunker::new();
    assert_eq!(c.push("First one is here."), Some("First one is here.".to_string()));
    // now the first chunk is out; a comma alone must NOT trigger a break
    assert_eq!(c.push(" second, with a comma"), None);
    assert_eq!(c.push(" and an end."), Some("second, with a comma and an end.".to_string()));
}

#[test]
fn handles_multibyte_terminator() {
    let mut c = SentenceChunker::new();
    assert_eq!(c.push("well…"), Some("well…".to_string()));
}

#[test]
fn comma_needs_enough_characters_before_it() {
    // eleven characters are one too few, twelve are enough
    let mut c = SentenceChunker::default();
    assert_eq!(c.push("abcdefghijk, and on"), None);
    let mut c = SentenceChunker::default();
    assert_eq!(c.push("abcdefghijkl, and on"), Some("abcdefghijkl,".to_string()));
    // characters count, not bytes
    let mut c = SentenceChunker::default();
    assert_eq!(c.push("ééééééé, et puis"), None);
}

#[test]
fn blank_chunks_are_not_spoken() {
    let mut c = SentenceChunker::new();
    assert_eq!(c.push("\n"), None);
    assert_eq!(c.push("after the blank line, at last"), None);
    assert_eq!(c.flush(), Some("after the blank line, at last".to_string()));
}

#[test]
fn chunks_hold_all_the_text() {
    let mut c = SentenceChunker::new();
    let mut spoken = String::new();
    for delta in ["One. T", "wo, three and", " four! ", "Five"] {
        if let Some(chunk) = c.push(delta) {
            spoken.push_str(&chunk);
        }
    }
    spoken.push_str(&c.flush().unwrap_or_default());
    assert_eq!(spoken, "One.Two, three and four!Five");
}

// --- history -----------------------------------------------------------------

#[test]
fn conversation_appends_and_orders() {
    let mut conv = Conversation::new("You are a friendly conversational partner.");
    conv.add_user("hi");
    conv.add_assistant("hey!");
    let t = conv.turns();
    assert_eq!(t.len(), 3);
    assert_eq!(t[0].role, Role::System);
    assert_eq!((t[1].role, t[1].text.as_str()), (Role::User, "hi"));
    assert_eq!((t[2].role, t[2].text.as_str()), (Role::Assistant, "hey!"));
}

#[test]
fn truncate_keeps_system_plus_last_n() {
    let mut conv = Conversation::new("sys");
    for i in 0..10 {
        conv.add_user(&format!("u{i}"));
        conv.add_assistant(&format!("a{i}"));
    }
    conv.truncate_keep_last(4);
    let t = conv.turns();
    assert_eq!(t.len(), 5); // system + last 4
    assert_eq!(t[0].role, Role::System);
    // last 4 of u0,a0,...,u9,a9 are u8,a8,u9,a9
    assert_eq!(t[1].text, "u8");
    assert_eq!(t[4].text, "a9");
}

#[test]
fn truncating_to_any_number_keeps_a_short_history() {
    let mut conv = Conversation::new("sys");
    conv.add_user("hi");
    conv.truncate_keep_last(usize::MAX);
    let kept: Vec<_> = conv.turns().iter().map(|t| (t.role, t.text.as_str())).collect();
    assert_eq!(kept, vec![(Role::System, "sys"), (Role::User, "hi")]);
}

#[test]
fn truncating_twice_is_truncating_once() {
    let mut conv = Conversation::new("sys");
    conv.add_user("u");
    conv.truncate_keep_last(1);
    assert_eq!(conv.turns().len(), 2);
    conv.add_assistant("a");
    conv.truncate_keep_last(1);
    let once = conv.clone();
    conv.truncate_keep_last(1);
    assert_eq!(conv.turns(), once.turns());
    assert_eq!(conv.turns()[1].text, "a");
    conv.truncate_keep_last(0);
    assert_eq!(conv.turns().len(), 1);
}
