//! The conversation engine: what its workers make of the ports' outcomes, and what its loop
//! does with each input. Threads, channels and the ports themselves are up to the program.

use crate::config::SessionConfig;
use crate::controller::Action;
use crate::controller::Controller;
use crate::controller::Msg;
use crate::controller::MsgView;
use crate::dialogue::ChunkerState;
use crate::dialogue::SentenceChunker;
use crate::error::LlmError;
use crate::error::TranscribeError;
use crate::events::ConvState;
use crate::events::UiCommand;
use crate::events::UiEvent;
use crate::events::UiEventView;
use crate::word::join_words;
use crate::word::Hypothesis;
use crate::word::Segment;
use vstd::prelude::*;

verus! {

// ---------------------------------------------------------------------------
// The loop
// ---------------------------------------------------------------------------

/// An input of the loop.
#[derive(Debug)]
pub enum Input {
    /// A command of the UI; `None` means that the UI is gone.
    Command(Option<UiCommand>),
    /// A worker's message.
    Message(Msg),
    /// The ticker.
    Tick,
}

/// What the loop is to do.
#[derive(Debug)]
pub enum Output {
    /// Cancel the turn under way, stop the workers, and end.
    Stop,
    /// Perform these, then ask the player whether it still plays if that is awaited.
    Act(Vec<Action>),
}

/// What the UI is told first: the agent is listening, and idle.
pub fn opening_events() -> (events: Vec<UiEvent>)
    ensures
        events@.len() == 2,
        events@[0]@ == UiEventView::Started,
        events@[1]@ == UiEventView::State(ConvState::Idle),
{
    let mut events: Vec<UiEvent> = Vec::new();
    events.push(UiEvent::Started);
    events.push(UiEvent::State(ConvState::Idle));
    events
}

/// What the UI is told last, once every worker has ended.
pub fn closing_events() -> (events: Vec<UiEvent>)
    ensures
        events@.len() == 1,
        events@[0]@ == UiEventView::Stopped,
{
    let mut events: Vec<UiEvent> = Vec::new();
    events.push(UiEvent::Stopped);
    events
}

/// What the UI is told of a conversation that could not be started: why, and that nothing
/// runs.
pub fn failure_events(why: String) -> (events: Vec<UiEvent>)
    ensures
        events@.len() == 2,
        events@[0]@ == UiEventView::Error(why@),
        events@[1]@ == UiEventView::Stopped,
{
    let mut events: Vec<UiEvent> = Vec::new();
    events.push(UiEvent::Error(why));
    events.push(UiEvent::Stopped);
    events
}

/// Take in an input. Any command, and a UI that is gone, ends the conversation.
pub fn route(controller: &mut Controller, input: Input) -> (output: Output)
    requires
        old(controller)@.valid(),
        input matches Input::Message(msg) ==> old(controller)@.has_room_for(msg@),
    ensures
        final(controller)@.valid(),
        match input {
            Input::Command(_) => output is Stop && final(controller)@ == old(controller)@,
            Input::Tick => final(controller)@ == old(controller)@ && (output matches Output::Act(
                actions,
            ) && actions@.len() == 0),
            Input::Message(msg) => final(controller)@ == old(controller)@.handle(msg@).next && (
            output matches Output::Act(actions) && crate::controller::action_views(actions@)
                == old(controller)@.handle(msg@).actions),
        },
{
    match input {
        Input::Command(_) => Output::Stop,
        Input::Message(msg) => Output::Act(controller.handle(msg)),
        Input::Tick => Output::Act(Vec::new()),
    }
}

// ---------------------------------------------------------------------------
// Transcription
// ---------------------------------------------------------------------------

/// What came of transcribing an utterance: its text, and an error for the UI if it failed.
#[derive(Debug)]
pub struct Transcribed {
    pub text: String,
    pub error: Option<UiEvent>,
}

/// The text of a hypothesis: its confident words with spaces between them.
pub open spec fn text_of(segments: Seq<Segment>, cfg: SessionConfig) -> Seq<char> {
    crate::word::displayed(
        crate::word::confident_part(segments, cfg.no_speech_max, cfg.logprob_min),
    )
}

/// What is said of an error of the transcriber.
pub open spec fn transcription_error(error: TranscribeError) -> UiEventView {
    UiEventView::Error("transcription: "@ + error.text())
}

fn transcription_failed(error: &TranscribeError) -> (event: UiEvent)
    ensures
        event@ == transcription_error(*error),
{
    let mut text = String::new();
    text.append("transcription: ");
    text.append(error.message().as_str());
    assert(text@ =~= "transcription: "@ + error.text());
    UiEvent::Error(text)
}

/// The outcome of transcribing an utterance. A failure counts as an utterance without text,
/// and so does one whose timestamps do not fit.
pub fn transcribed(
    result: Result<Hypothesis, TranscribeError>,
    cfg: &SessionConfig,
) -> (outcome: Transcribed)
    ensures
        match result {
            Ok(hyp) => if crate::word::confident_part_fits(
                hyp.segments@,
                cfg.no_speech_max,
                cfg.logprob_min,
            ) {
                outcome.text@ == text_of(hyp.segments@, *cfg) && outcome.error is None
            } else {
                outcome.text@.len() == 0 && (outcome.error matches Some(event) && event@
                    == UiEventView::Error(
                    "transcription: transcription failed: timestamps out of range"@,
                ))
            },
            Err(error) => outcome.text@.len() == 0 && (outcome.error matches Some(event) && event@
                == transcription_error(error)),
        },
{
    match result {
        Ok(hyp) => {
            if !hyp.can_split_confident(cfg.no_speech_max, cfg.logprob_min) {
                let why = "transcription: transcription failed: timestamps out of range";
                return Transcribed {
                    text: String::new(),
                    error: Some(UiEvent::Error(why.to_string())),
                };
            }
            let words = hyp.confident_words(cfg.no_speech_max, cfg.logprob_min);
            Transcribed { text: join_words(words.as_slice()), error: None }
        },
        Err(error) => Transcribed {
            text: String::new(),
            error: Some(transcription_failed(&error)),
        },
    }
}

// ---------------------------------------------------------------------------
// Replies
// ---------------------------------------------------------------------------

/// A reply on its way from the model to the synthesizer, cut into speakable chunks.
#[derive(Debug)]
pub struct ReplyWorker {
    turn: u64,
    chunker: SentenceChunker,
}

/// The message that a chunk makes, if there is one to speak.
pub open spec fn chunk_message(turn: u64, chunk: Option<Seq<char>>) -> Option<MsgView> {
    match chunk {
        Some(text) => Some(MsgView::Chunk { turn, text }),
        None => None,
    }
}

/// The view of an optional message.
pub open spec fn optional_message(msg: Option<Msg>) -> Option<MsgView> {
    match msg {
        Some(msg) => Some(msg@),
        None => None,
    }
}

/// The messages of a list as mathematical values.
pub open spec fn message_views(messages: Seq<Msg>) -> Seq<MsgView> {
    Seq::new(messages.len(), |i: int| messages[i]@)
}

/// The text of a finished reply: what the model streamed, or nothing if it failed.
pub open spec fn reply_text(outcome: Result<String, LlmError>) -> Seq<char> {
    match outcome {
        Ok(full) => full@,
        Err(_) => seq![],
    }
}

/// The messages that end a reply: the chunk left over, if it can be spoken, and the reply.
pub open spec fn closing_messages(
    turn: u64,
    left: Option<Seq<char>>,
    full: Seq<char>,
) -> Seq<MsgView> {
    let done = MsgView::LlmDone { turn, full };
    match left {
        Some(text) => seq![MsgView::Chunk { turn, text }, done],
        None => seq![done],
    }
}

impl ReplyWorker {
    pub closed spec fn turn(&self) -> u64 {
        self.turn
    }

    pub closed spec fn chunker(&self) -> ChunkerState {
        self.chunker@
    }

    pub fn new(turn: u64) -> (worker: Self)
        ensures
            worker.turn() == turn,
            worker.chunker() == ChunkerState::start(),
    {
        ReplyWorker { turn, chunker: SentenceChunker::new() }
    }

    /// Take in a token; returns the chunk that it completes, as a message.
    pub fn on_delta(&mut self, token: &str) -> (msg: Option<Msg>)
        ensures
            final(self).turn() == old(self).turn(),
            final(self).chunker() == old(self).chunker().push(token@),
            optional_message(msg) == chunk_message(
                old(self).turn(),
                crate::dialogue::speakable(old(self).chunker().taken(token@)),
            ),
    {
        match self.chunker.push(token) {
            Some(text) => Some(Msg::Chunk { turn: self.turn, text }),
            None => None,
        }
    }

    /// The reply is over; returns the messages that end it.
    pub fn finish(&mut self, outcome: Result<String, LlmError>) -> (messages: Vec<Msg>)
        ensures
            final(self).turn() == old(self).turn(),
            final(self).chunker() == old(self).chunker().flush(),
            message_views(messages@) == closing_messages(
                old(self).turn(),
                crate::dialogue::speakable(old(self).chunker().buf),
                reply_text(outcome),
            ),
    {
        let full = match outcome {
            Ok(full) => full,
            Err(_) => String::new(),
        };
        let ghost said = full@;
        let mut messages: Vec<Msg> = Vec::new();
        let ghost left = crate::dialogue::speakable(self.chunker@.buf);
        if let Some(text) = self.chunker.flush() {
            messages.push(Msg::Chunk { turn: self.turn, text });
        }
        messages.push(Msg::LlmDone { turn: self.turn, full });
        assert(message_views(messages@) =~= closing_messages(self.turn, left, said));
        messages
    }
}

// ---------------------------------------------------------------------------
// Speech
// ---------------------------------------------------------------------------

/// A chunk on its way from the synthesizer to the player.
#[derive(Debug)]
pub struct SpeechWorker {
    turn: u64,
    started: bool,
}

impl SpeechWorker {
    pub closed spec fn turn(&self) -> u64 {
        self.turn
    }

    /// Has audio come?
    pub closed spec fn started(&self) -> bool {
        self.started
    }

    pub fn new(turn: u64) -> (worker: Self)
        ensures
            worker.turn() == turn,
            !worker.started(),
    {
        SpeechWorker { turn, started: false }
    }

    /// Take note of audio; the first of it is reported.
    pub fn on_audio(&mut self) -> (msg: Option<Msg>)
        ensures
            final(self).turn() == old(self).turn(),
            final(self).started(),
            optional_message(msg) == if old(self).started() {
                None::<MsgView>
            } else {
                Some(MsgView::PlaybackStarted { turn: old(self).turn() })
            },
    {
        if self.started {
            return None;
        }
        self.started = true;
        Some(Msg::PlaybackStarted { turn: self.turn })
    }

    /// The chunk is synthesized, or could not be.
    pub fn finish(&self) -> (msg: Msg)
        ensures
            msg@ == (MsgView::SynthDone { turn: self.turn() }),
    {
        Msg::SynthDone { turn: self.turn }
    }
}

// ---------------------------------------------------------------------------
// Laws
// ---------------------------------------------------------------------------

/// A reply ends once, with its whole text, whatever is left to speak; what is left is spoken
/// before that.
pub proof fn law_reply_ends_last(turn: u64, left: Option<Seq<char>>, full: Seq<char>)
    ensures
        ({
            let messages = closing_messages(turn, left, full);
            &&& messages.len() > 0
            &&& messages.last() == (MsgView::LlmDone { turn, full })
            &&& left is None ==> messages.len() == 1
            &&& left matches Some(text) ==> messages.len() == 2 && messages[0] == (MsgView::Chunk {
                turn,
                text,
            })
        }),
{
}

/// A chunk that can be spoken is passed on as it is, under the turn of its reply, and no other
/// message is made.
pub proof fn law_chunk_is_passed_on(turn: u64, chunk: Option<Seq<char>>)
    ensures
        chunk is None <==> chunk_message(turn, chunk) is None,
        chunk matches Some(text) ==> chunk_message(turn, chunk) == Some(
            MsgView::Chunk { turn, text },
        ),
{
}

/// A reply that failed says nothing; another says what the model streamed.
pub proof fn law_failed_reply_is_empty(outcome: Result<String, LlmError>)
    ensures
        outcome is Err ==> reply_text(outcome).len() == 0,
        outcome matches Ok(full) ==> reply_text(outcome) == full@,
{
}

/// The text of an utterance is that of its confident segments: one that is not adds nothing,
/// and one that is adds its words, behind a space where there is text before them.
pub proof fn law_text_is_the_confident_segments(
    segments: Seq<Segment>,
    segment: Segment,
    cfg: SessionConfig,
)
    ensures
        ({
            let confident = segment.no_speech_prob.le(cfg.no_speech_max) && cfg.logprob_min.le(
                segment.avg_logprob,
            );
            let words = crate::text::words_of(segment.text@);
            let said = crate::text::joined(words, seq![' ']);
            let before = crate::word::confident_part(
                segments,
                cfg.no_speech_max,
                cfg.logprob_min,
            );
            &&& text_of(Seq::<Segment>::empty(), cfg).len() == 0
            &&& !confident || words.len() == 0 ==> text_of(segments.push(segment), cfg) == text_of(
                segments,
                cfg,
            )
            &&& confident && words.len() > 0 && before.len() == 0 ==> text_of(
                segments.push(segment),
                cfg,
            ) == said
            &&& confident && words.len() > 0 && before.len() > 0 ==> text_of(
                segments.push(segment),
                cfg,
            ) == text_of(segments, cfg) + seq![' '] + said
        }),
{
    let before = crate::word::confident_part(segments, cfg.no_speech_max, cfg.logprob_min);
    let all = segments.push(segment);
    crate::word::law_gate_keeps_order(
        segments,
        seq![segment],
        cfg.no_speech_max,
        cfg.logprob_min,
    );
    assert(segments + seq![segment] =~= all);
    assert(crate::word::confident_part(segments + seq![segment], cfg.no_speech_max, cfg.logprob_min)
        == before + crate::word::confident_part(
        seq![segment],
        cfg.no_speech_max,
        cfg.logprob_min,
    ));
    crate::word::law_split_keeps_words(segment);
    let split = segment.split();
    assert(crate::word::word_texts(split) =~= crate::text::words_of(segment.text@));
    crate::word::law_words_are_spaced(before, split);
    assert(before + Seq::<crate::word::WordView>::empty() =~= before);
    assert(Seq::<crate::word::WordView>::empty() + split =~= split);
    if before.len() == 0 {
        assert(before =~= Seq::<crate::word::WordView>::empty());
    }
    if split.len() == 0 {
        assert(split =~= Seq::<crate::word::WordView>::empty());
    }
}

} // verus!
