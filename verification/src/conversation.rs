//! The dialog brain: a **pure** turn-taking state machine. [`Dialog::on`] maps a state and an
//! event to the effects to perform, with no I/O, no threads, no clock. The effects are carried
//! out elsewhere (language model, speech synthesis, playback) and their results come back as
//! events. A monotonic `turn` id is bumped on every new user utterance; any event carrying a
//! stale turn id is ignored, which is how a barge-in invalidates output still in flight
//! without races.
//!
//! ## States
//! - `Idle`: nothing happening; the microphone is hot, waiting for speech.
//! - `Listening`: the user is speaking; their utterance is accumulating.
//! - `Thinking`: the language model is generating; no audio has played yet.
//! - `Speaking`: the reply's audio is playing (microphone still hot for barge-in).
//!
//! ## Barge-in
//! `UserSpeechStarted` while `Thinking` or `Speaking` is the interruption: the model and the
//! synthesis are cancelled, playback is flushed, and the state is `Listening` again for the
//! interrupting utterance.

use vstd::prelude::*;

verus! {

/// The conversation state. The user always wins; the agent never blocks listening.
#[derive(Clone, Copy, PartialEq, Eq, Debug, Structural)]
pub enum State {
    Idle,
    Listening,
    Thinking,
    Speaking,
}

/// Monotonic per-utterance id. Output (tokens, audio) is tagged with the turn it belongs to;
/// anything that doesn't match the current turn is dropped.
pub type TurnId = u64;

/// Inputs to the state machine.
#[derive(PartialEq, Eq, Debug)]
pub enum Event {
    /// Speech onset. In `Idle` this begins a turn; in `Thinking`/`Speaking` it is a
    /// **barge-in**.
    UserSpeechStarted,
    /// The user's utterance is final (endpoint reached). Empty means a false start.
    UserUtterance(String),
    /// A speakable chunk of the assistant reply is ready to synthesize.
    SpeakableChunk { turn: TurnId, text: String },
    /// The first audio of `turn` reached the output device.
    PlaybackStarted { turn: TurnId },
    /// This turn is fully done: the model finished **and** all synthesized audio has drained
    /// from the player (or the reply was empty).
    AssistantComplete { turn: TurnId },
}

/// Side effects to carry out. Pure data: the state machine performs no I/O.
#[derive(PartialEq, Eq, Debug)]
pub enum Effect {
    /// Begin streaming a reply for `turn` to the user's text.
    StartLlm { turn: TurnId, user_text: String },
    /// Synthesize `text` (a sentence/chunk) for `turn` and enqueue it for playback.
    Synthesize { turn: TurnId, text: String },
    /// Abort the reply stream for `turn`.
    CancelLlm { turn: TurnId },
    /// Abort speech synthesis for `turn`.
    CancelTts { turn: TurnId },
    /// Flush the audio output immediately (instant audible cut).
    StopPlayback,
    /// Append the user's turn to the conversation history.
    CommitUser { text: String },
    /// Append the assistant's turn (the text accumulated for `turn`).
    CommitAssistant { turn: TurnId },
}

// ---------------------------------------------------------------------------
// Events and effects as mathematical values
// ---------------------------------------------------------------------------

#[verifier::ext_equal]
pub enum EventView {
    UserSpeechStarted,
    UserUtterance(Seq<char>),
    SpeakableChunk { turn: TurnId, text: Seq<char> },
    PlaybackStarted { turn: TurnId },
    AssistantComplete { turn: TurnId },
}

#[verifier::ext_equal]
pub enum EffectView {
    StartLlm { turn: TurnId, user_text: Seq<char> },
    Synthesize { turn: TurnId, text: Seq<char> },
    CancelLlm { turn: TurnId },
    CancelTts { turn: TurnId },
    StopPlayback,
    CommitUser { text: Seq<char> },
    CommitAssistant { turn: TurnId },
}

impl View for Event {
    type V = EventView;

    open spec fn view(&self) -> EventView {
        match *self {
            Event::UserSpeechStarted => EventView::UserSpeechStarted,
            Event::UserUtterance(text) => EventView::UserUtterance(text@),
            Event::SpeakableChunk { turn, text } => EventView::SpeakableChunk {
                turn,
                text: text@,
            },
            Event::PlaybackStarted { turn } => EventView::PlaybackStarted { turn },
            Event::AssistantComplete { turn } => EventView::AssistantComplete { turn },
        }
    }
}

impl View for Effect {
    type V = EffectView;

    open spec fn view(&self) -> EffectView {
        match *self {
            Effect::StartLlm { turn, user_text } => EffectView::StartLlm {
                turn,
                user_text: user_text@,
            },
            Effect::Synthesize { turn, text } => EffectView::Synthesize { turn, text: text@ },
            Effect::CancelLlm { turn } => EffectView::CancelLlm { turn },
            Effect::CancelTts { turn } => EffectView::CancelTts { turn },
            Effect::StopPlayback => EffectView::StopPlayback,
            Effect::CommitUser { text } => EffectView::CommitUser { text: text@ },
            Effect::CommitAssistant { turn } => EffectView::CommitAssistant { turn },
        }
    }
}

impl Clone for Event {
    fn clone(&self) -> (copy: Self)
        ensures
            copy@ == self@,
    {
        match self {
            Event::UserSpeechStarted => Event::UserSpeechStarted,
            Event::UserUtterance(text) => Event::UserUtterance(text.clone()),
            Event::SpeakableChunk { turn, text } => Event::SpeakableChunk {
                turn: *turn,
                text: text.clone(),
            },
            Event::PlaybackStarted { turn } => Event::PlaybackStarted { turn: *turn },
            Event::AssistantComplete { turn } => Event::AssistantComplete { turn: *turn },
        }
    }
}

impl Clone for Effect {
    fn clone(&self) -> (copy: Self)
        ensures
            copy@ == self@,
    {
        match self {
            Effect::StartLlm { turn, user_text } => Effect::StartLlm {
                turn: *turn,
                user_text: user_text.clone(),
            },
            Effect::Synthesize { turn, text } => Effect::Synthesize {
                turn: *turn,
                text: text.clone(),
            },
            Effect::CancelLlm { turn } => Effect::CancelLlm { turn: *turn },
            Effect::CancelTts { turn } => Effect::CancelTts { turn: *turn },
            Effect::StopPlayback => Effect::StopPlayback,
            Effect::CommitUser { text } => Effect::CommitUser { text: text.clone() },
            Effect::CommitAssistant { turn } => Effect::CommitAssistant { turn: *turn },
        }
    }
}

/// The effects of a list as mathematical values.
pub open spec fn effect_views(effects: Seq<Effect>) -> Seq<EffectView> {
    Seq::new(effects.len(), |i: int| effects[i]@)
}

impl EventView {
    /// The turn that the event belongs to, if it is output of a turn.
    pub open spec fn of_turn(self) -> Option<TurnId> {
        match self {
            EventView::UserSpeechStarted => None,
            EventView::UserUtterance(_) => None,
            EventView::SpeakableChunk { turn, .. } => Some(turn),
            EventView::PlaybackStarted { turn } => Some(turn),
            EventView::AssistantComplete { turn } => Some(turn),
        }
    }
}

// ---------------------------------------------------------------------------
// The state machine
// ---------------------------------------------------------------------------

/// A dialog's state: where the conversation is, and the id of the latest turn.
pub struct DialogState {
    pub state: State,
    pub turn: TurnId,
}

/// What an event leads to.
pub struct DialogStep {
    pub next: DialogState,
    pub effects: Seq<EffectView>,
}

impl DialogState {
    /// Where a dialog starts.
    pub open spec fn start() -> DialogState {
        DialogState { state: State::Idle, turn: 0 }
    }

    /// Is a reply being generated or played?
    pub open spec fn replying(self) -> bool {
        self.state == State::Thinking || self.state == State::Speaking
    }

    /// Nothing happens.
    pub open spec fn ignore(self) -> DialogStep {
        DialogStep { next: self, effects: seq![] }
    }

    /// The step that an event leads to.
    pub open spec fn step(self, event: EventView) -> DialogStep {
        match event {
            EventView::UserSpeechStarted => DialogStep {
                next: DialogState { state: State::Listening, ..self },
                effects: if self.replying() {
                    seq![
                        EffectView::CancelLlm { turn: self.turn },
                        EffectView::CancelTts { turn: self.turn },
                        EffectView::StopPlayback,
                    ]
                } else {
                    seq![]
                },
            },
            EventView::UserUtterance(said) => if self.state != State::Listening {
                self.ignore()
            } else if crate::text::blank(said) {
                DialogStep { next: DialogState { state: State::Idle, ..self }, effects: seq![] }
            } else {
                let turn = (self.turn + 1) as u64;
                let text = crate::text::trimmed(said);
                DialogStep {
                    next: DialogState { state: State::Thinking, turn },
                    effects: seq![
                        EffectView::CommitUser { text },
                        EffectView::StartLlm { turn, user_text: text },
                    ],
                }
            },
            EventView::SpeakableChunk { turn, text } => if self.replying() && turn == self.turn {
                DialogStep { next: self, effects: seq![EffectView::Synthesize { turn, text }] }
            } else {
                self.ignore()
            },
            EventView::PlaybackStarted { turn } => if self.replying() && turn == self.turn {
                DialogStep {
                    next: DialogState { state: State::Speaking, ..self },
                    effects: seq![],
                }
            } else {
                self.ignore()
            },
            EventView::AssistantComplete { turn } => if self.replying() && turn == self.turn {
                DialogStep {
                    next: DialogState { state: State::Idle, ..self },
                    effects: seq![EffectView::CommitAssistant { turn }],
                }
            } else {
                self.ignore()
            },
        }
    }

    /// Does the event start a new turn?
    pub open spec fn starts_turn(self, event: EventView) -> bool {
        self.state == State::Listening && (event matches EventView::UserUtterance(said)
            && !crate::text::blank(said))
    }

    /// Is there an id left for the turn that the event may start?
    pub open spec fn has_room_for(self, event: EventView) -> bool {
        self.starts_turn(event) ==> self.turn < u64::MAX
    }

    /// The state after several events.
    pub open spec fn run(self, events: Seq<EventView>) -> DialogState
        decreases events.len(),
    {
        if events.len() == 0 {
            self
        } else {
            self.run(events.drop_last()).step(events.last()).next
        }
    }

    /// Is there an id left for each turn that the events start?
    pub open spec fn has_room_for_all(self, events: Seq<EventView>) -> bool
        decreases events.len(),
    {
        events.len() > 0 ==> self.has_room_for_all(events.drop_last()) && self.run(
            events.drop_last(),
        ).has_room_for(events.last())
    }
}

/// The pure turn-taking state machine.
#[derive(Debug)]
pub struct Dialog {
    state: State,
    turn: TurnId,
}

impl View for Dialog {
    type V = DialogState;

    closed spec fn view(&self) -> DialogState {
        DialogState { state: self.state, turn: self.turn }
    }
}

impl Dialog {
    pub fn new() -> (dialog: Self)
        ensures
            dialog@ == DialogState::start(),
    {
        Dialog { state: State::Idle, turn: 0 }
    }

    pub fn state(&self) -> (state: State)
        ensures
            state == self@.state,
    {
        self.state
    }

    pub fn turn(&self) -> (turn: TurnId)
        ensures
            turn == self@.turn,
    {
        self.turn
    }

    /// Apply an event, returning the effects to perform.
    pub fn on(&mut self, ev: Event) -> (effects: Vec<Effect>)
        requires
            old(self)@.has_room_for(ev@),
        ensures
            final(self)@ == old(self)@.step(ev@).next,
            effect_views(effects@) == old(self)@.step(ev@).effects,
    {
        let mut effects: Vec<Effect> = Vec::new();
        let replying = match self.state {
            State::Thinking | State::Speaking => true,
            State::Idle | State::Listening => false,
        };
        match ev {
            Event::UserSpeechStarted => {
                // While a reply is under way this is a barge-in: the user wins.
                if replying {
                    let stale: TurnId = self.turn;
                    effects.push(Effect::CancelLlm { turn: stale });
                    effects.push(Effect::CancelTts { turn: stale });
                    effects.push(Effect::StopPlayback);
                }
                self.state = State::Listening;
            },
            Event::UserUtterance(text) => {
                if self.state == State::Listening {
                    let text = text.as_str().trim().to_string();
                    if text.as_str().is_empty() {
                        // A false start: back to idle, no turn consumed.
                        self.state = State::Idle;
                    } else {
                        self.turn += 1;
                        self.state = State::Thinking;
                        effects.push(Effect::CommitUser { text: text.clone() });
                        effects.push(Effect::StartLlm { turn: self.turn, user_text: text });
                    }
                }
            },
            Event::SpeakableChunk { turn, text } => {
                if replying && turn == self.turn {
                    effects.push(Effect::Synthesize { turn, text });
                }
            },
            Event::PlaybackStarted { turn } => {
                if replying && turn == self.turn {
                    self.state = State::Speaking;
                }
            },
            Event::AssistantComplete { turn } => {
                if replying && turn == self.turn {
                    self.state = State::Idle;
                    effects.push(Effect::CommitAssistant { turn });
                }
            },
        }
        effects
    }

    /// Is there an id left for the turn that the event may start?
    pub fn can_take(&self, ev: &Event) -> (answer: bool)
        ensures
            answer == self@.has_room_for(ev@),
    {
        match ev {
            Event::UserUtterance(text) => self.state != State::Listening || self.turn < u64::MAX
                || text.as_str().trim().is_empty(),
            _ => true,
        }
    }
}

impl Default for Dialog {
    fn default() -> (dialog: Self)
        ensures
            dialog@ == DialogState::start(),
    {
        Dialog::new()
    }
}

// ---------------------------------------------------------------------------
// Laws
// ---------------------------------------------------------------------------

/// Output of any other turn than the current one is ignored: no effect, no change.
pub proof fn law_stale_output_is_ignored(dialog: DialogState, event: EventView)
    requires
        event.of_turn() is Some,
        event.of_turn() != Some(dialog.turn),
    ensures
        dialog.step(event).next == dialog,
        dialog.step(event).effects.len() == 0,
{
}

/// Turn ids are monotonic: an event bumps the id by one if it starts a turn, and leaves it
/// otherwise.
pub proof fn law_turn_bumps_per_utterance(dialog: DialogState, event: EventView)
    requires
        dialog.has_room_for(event),
    ensures
        dialog.step(event).next.turn == if dialog.starts_turn(event) {
            dialog.turn + 1
        } else {
            dialog.turn as int
        },
{
}

/// Turn ids never fall in any run of events.
pub proof fn law_turn_monotone(dialog: DialogState, events: Seq<EventView>)
    requires
        dialog.has_room_for_all(events),
    ensures
        dialog.turn <= dialog.run(events).turn,
    decreases events.len(),
{
    if events.len() > 0 {
        law_turn_monotone(dialog, events.drop_last());
        law_turn_bumps_per_utterance(dialog.run(events.drop_last()), events.last());
    }
}

/// Once a turn is over, its output stays ignored for good: whatever happens later, output
/// with an id below a turn that has been reached has no effect.
pub proof fn law_old_output_stays_ignored(
    dialog: DialogState,
    events: Seq<EventView>,
    late: EventView,
)
    requires
        dialog.has_room_for_all(events),
        late.of_turn() matches Some(turn) && turn < dialog.turn,
    ensures
        dialog.run(events).step(late).next == dialog.run(events),
        dialog.run(events).step(late).effects.len() == 0,
{
    law_turn_monotone(dialog, events);
}

/// The user always wins: speech onset leads to listening from every state.
pub proof fn law_user_always_wins(dialog: DialogState)
    ensures
        dialog.step(EventView::UserSpeechStarted).next.state == State::Listening,
        dialog.step(EventView::UserSpeechStarted).next.turn == dialog.turn,
{
}

/// A barge-in cancels the turn under way, in order: model, synthesis, playback. Speech onset
/// outside a reply has no effect beyond listening.
pub proof fn law_barge_in_cancels(dialog: DialogState)
    ensures
        dialog.replying() ==> dialog.step(EventView::UserSpeechStarted).effects == seq![
            EffectView::CancelLlm { turn: dialog.turn },
            EffectView::CancelTts { turn: dialog.turn },
            EffectView::StopPlayback,
        ],
        !dialog.replying() ==> dialog.step(EventView::UserSpeechStarted).effects.len() == 0,
{
}

/// Nothing is synthesized or committed for a turn but in a reply to it, and then it is the
/// only effect: of a chunk, that it is synthesized; of a completion, that it is committed.
pub proof fn law_effects_need_a_reply(dialog: DialogState, event: EventView, i: int)
    requires
        0 <= i < dialog.step(event).effects.len(),
        dialog.step(event).effects[i] is Synthesize || dialog.step(
            event,
        ).effects[i] is CommitAssistant,
    ensures
        dialog.replying(),
        event.of_turn() == Some(dialog.turn),
        dialog.step(event).effects.len() == 1,
        dialog.step(event).effects[i] is Synthesize ==> event is SpeakableChunk,
        dialog.step(event).effects[i] is CommitAssistant ==> event is AssistantComplete,
{
}

/// The effects of a turn, for one event after a run of events.
pub open spec fn effects_after(
    dialog: DialogState,
    events: Seq<EventView>,
    event: EventView,
) -> Seq<EffectView> {
    dialog.run(events).step(event).effects
}

proof fn lemma_no_reply_until_next_turn(dialog: DialogState, events: Seq<EventView>)
    requires
        !dialog.replying(),
        dialog.has_room_for_all(events),
    ensures
        dialog.run(events).turn > dialog.turn || (dialog.run(events).turn == dialog.turn
            && !dialog.run(events).replying()),
    decreases events.len(),
{
    if events.len() > 0 {
        lemma_no_reply_until_next_turn(dialog, events.drop_last());
        law_turn_bumps_per_utterance(dialog.run(events.drop_last()), events.last());
    }
}

/// A turn that is over stays over. From a state in which no reply is under way (after a
/// completion, or after a barge-in), no later event makes the machine synthesize or commit
/// anything for the turn that was the latest then: each reply is committed at most once, and
/// an interrupted one never.
pub proof fn law_finished_turn_stays_finished(
    dialog: DialogState,
    events: Seq<EventView>,
    event: EventView,
    i: int,
)
    requires
        !dialog.replying(),
        dialog.has_room_for_all(events),
        0 <= i < effects_after(dialog, events, event).len(),
    ensures
        effects_after(dialog, events, event)[i] matches EffectView::CommitAssistant { turn }
            ==> turn != dialog.turn,
        effects_after(dialog, events, event)[i] matches EffectView::Synthesize { turn, .. }
            ==> turn != dialog.turn,
{
    lemma_no_reply_until_next_turn(dialog, events);
}

/// While the user is heard, an utterance with words in it starts the next turn: the words,
/// without white space around them, are committed and then answered. One without words is a
/// false start, which costs no turn. Heard at any other time, an utterance is ignored.
pub proof fn law_utterance_is_answered(dialog: DialogState, said: Seq<char>)
    requires
        dialog.turn < u64::MAX,
    ensures
        ({
            let step = dialog.step(EventView::UserUtterance(said));
            let text = crate::text::trimmed(said);
            &&& dialog.state == State::Listening && text.len() > 0 ==> {
                &&& step.next.state == State::Thinking
                &&& step.next.turn == dialog.turn + 1
                &&& step.effects == seq![
                    EffectView::CommitUser { text },
                    EffectView::StartLlm { turn: (dialog.turn + 1) as u64, user_text: text },
                ]
            }
            &&& dialog.state == State::Listening && text.len() == 0 ==> {
                &&& step.next.state == State::Idle
                &&& step.next.turn == dialog.turn
                &&& step.effects.len() == 0
            }
            &&& dialog.state != State::Listening ==> {
                &&& step.next == dialog
                &&& step.effects.len() == 0
            }
        }),
{
}

/// While the current turn is thought or spoken about, each chunk of its reply is synthesized as
/// it is, the first audio means speaking, and completion commits the reply and ends in idle.
pub proof fn law_reply_is_spoken(dialog: DialogState, text: Seq<char>)
    requires
        dialog.state == State::Thinking || dialog.state == State::Speaking,
    ensures
        dialog.step(EventView::SpeakableChunk { turn: dialog.turn, text }).next == dialog,
        dialog.step(EventView::SpeakableChunk { turn: dialog.turn, text }).effects == seq![
            EffectView::Synthesize { turn: dialog.turn, text },
        ],
        dialog.step(EventView::PlaybackStarted { turn: dialog.turn }).next == (DialogState {
            state: State::Speaking,
            turn: dialog.turn,
        }),
        dialog.step(EventView::PlaybackStarted { turn: dialog.turn }).effects.len() == 0,
        dialog.step(EventView::AssistantComplete { turn: dialog.turn }).next == (DialogState {
            state: State::Idle,
            turn: dialog.turn,
        }),
        dialog.step(EventView::AssistantComplete { turn: dialog.turn }).effects == seq![
            EffectView::CommitAssistant { turn: dialog.turn },
        ],
        dialog.replying(),
{
}

/// Idle or listening, output of any turn is ignored, the current one's too, and an onset does
/// no more than listen.
pub proof fn law_output_outside_a_reply_is_ignored(dialog: DialogState, event: EventView)
    requires
        dialog.state == State::Idle || dialog.state == State::Listening,
    ensures
        event is SpeakableChunk || event is PlaybackStarted || event is AssistantComplete
            ==> dialog.step(event).next == dialog,
        !(event is UserUtterance) ==> dialog.step(event).effects.len() == 0,
        event is UserSpeechStarted ==> dialog.step(event).next == (DialogState {
            state: State::Listening,
            turn: dialog.turn,
        }),
        !dialog.replying(),
{
}

/// A conversation starts idle, before its first turn.
pub proof fn law_conversation_starts_idle()
    ensures
        DialogState::start().state == State::Idle,
        DialogState::start().turn == 0,
{
}

/// Output belongs to the turn that it names, and what the user does to none.
pub proof fn law_output_names_its_turn(turn: TurnId, text: Seq<char>)
    ensures
        EventView::UserSpeechStarted.of_turn() is None,
        EventView::UserUtterance(text).of_turn() is None,
        (EventView::SpeakableChunk { turn, text }).of_turn() == Some(turn),
        (EventView::PlaybackStarted { turn }).of_turn() == Some(turn),
        (EventView::AssistantComplete { turn }).of_turn() == Some(turn),
{
}

/// An event is refused only if it would start a turn and no id is left for it.
pub proof fn law_only_ids_run_out(dialog: DialogState, event: EventView)
    ensures
        dialog.turn < u64::MAX ==> dialog.has_room_for(event),
        dialog.state != State::Listening ==> dialog.has_room_for(event),
        !(event is UserUtterance) ==> dialog.has_room_for(event),
        (event matches EventView::UserUtterance(said) && crate::text::trimmed(said).len() == 0)
            ==> dialog.has_room_for(event),
{
}

} // verus!
