//! The controller: the single authority over the dialog, and the bookkeeping of when a turn is
//! complete.
//!
//! Workers (capture, transcription, model, synthesis) report with [`Msg`]s; the controller
//! answers with the [`Action`]s to perform, in order, and performs none itself. After each
//! message's actions, and on a ticker, the program asks the player whether it still plays,
//! where [`Controller::awaiting_drain`] says so, and hands the answer to
//! [`Controller::check_drain`]. Worker output is tagged with a turn id; anything that doesn't
//! match the current turn is dropped, which is how a barge-in invalidates work in flight
//! without races.

use crate::conversation::Dialog;
use crate::conversation::DialogState;
use crate::conversation::Effect;
use crate::conversation::EffectView;
use crate::conversation::Event;
use crate::conversation::EventView;
use crate::conversation::State;
use crate::dialogue::copy_turns;
use crate::dialogue::Conversation;
use crate::dialogue::Role;
use crate::dialogue::Turn;
use crate::dialogue::TurnView;
use crate::events::conv_state;
use crate::events::TurnRole;
use crate::events::UiEvent;
use crate::events::UiEventView;
use vstd::prelude::*;

verus! {

/// What the worker threads report.
#[derive(Debug, PartialEq)]
pub enum Msg {
    SpeechStarted,
    Utterance(String),
    Chunk { turn: u64, text: String },
    LlmDone { turn: u64, full: String },
    PlaybackStarted { turn: u64 },
    SynthDone { turn: u64 },
}

/// A reply to stream: for the model worker.
#[derive(Debug)]
pub struct LlmJob {
    pub turn: u64,
    pub history: Vec<Turn>,
}

/// A chunk to speak: for the synthesis worker.
#[derive(Debug)]
pub struct SynthJob {
    pub turn: u64,
    pub text: String,
}

/// What the program is to perform.
#[derive(Debug)]
pub enum Action {
    /// Let the player play again after a barge-in.
    ResumePlayback,
    /// Open a fresh cancel flag and hand the job to the model worker under it.
    StartLlm(LlmJob),
    /// Hand the job to the synthesis worker under the current cancel flag.
    Synthesize(SynthJob),
    /// Set the current cancel flag.
    Cancel,
    /// Flush the player.
    StopPlayback,
    /// Tell the UI.
    Emit(UiEvent),
}

// ---------------------------------------------------------------------------
// Messages and actions as mathematical values
// ---------------------------------------------------------------------------

#[verifier::ext_equal]
pub enum MsgView {
    SpeechStarted,
    Utterance(Seq<char>),
    Chunk { turn: u64, text: Seq<char> },
    LlmDone { turn: u64, full: Seq<char> },
    PlaybackStarted { turn: u64 },
    SynthDone { turn: u64 },
}

#[verifier::ext_equal]
pub enum ActionView {
    ResumePlayback,
    StartLlm { turn: u64, history: Seq<TurnView> },
    Synthesize { turn: u64, text: Seq<char> },
    Cancel,
    StopPlayback,
    Emit(UiEventView),
}

impl View for Msg {
    type V = MsgView;

    open spec fn view(&self) -> MsgView {
        match *self {
            Msg::SpeechStarted => MsgView::SpeechStarted,
            Msg::Utterance(text) => MsgView::Utterance(text@),
            Msg::Chunk { turn, text } => MsgView::Chunk { turn, text: text@ },
            Msg::LlmDone { turn, full } => MsgView::LlmDone { turn, full: full@ },
            Msg::PlaybackStarted { turn } => MsgView::PlaybackStarted { turn },
            Msg::SynthDone { turn } => MsgView::SynthDone { turn },
        }
    }
}

impl MsgView {
    /// The turn that the message belongs to, if it reports output of a turn.
    pub open spec fn of_turn(self) -> Option<u64> {
        match self {
            MsgView::SpeechStarted => None,
            MsgView::Utterance(_) => None,
            MsgView::Chunk { turn, .. } => Some(turn),
            MsgView::LlmDone { turn, .. } => Some(turn),
            MsgView::PlaybackStarted { turn } => Some(turn),
            MsgView::SynthDone { turn } => Some(turn),
        }
    }
}

impl View for Action {
    type V = ActionView;

    open spec fn view(&self) -> ActionView {
        match *self {
            Action::ResumePlayback => ActionView::ResumePlayback,
            Action::StartLlm(job) => ActionView::StartLlm {
                turn: job.turn,
                history: crate::dialogue::turn_views(job.history@),
            },
            Action::Synthesize(job) => ActionView::Synthesize { turn: job.turn, text: job.text@ },
            Action::Cancel => ActionView::Cancel,
            Action::StopPlayback => ActionView::StopPlayback,
            Action::Emit(event) => ActionView::Emit(event@),
        }
    }
}

/// The actions of a list as mathematical values.
pub open spec fn action_views(actions: Seq<Action>) -> Seq<ActionView> {
    Seq::new(actions.len(), |i: int| actions[i]@)
}

proof fn lemma_action_push(actions: Seq<Action>, action: Action)
    ensures
        action_views(actions.push(action)) == action_views(actions).push(action@),
{
    assert(action_views(actions.push(action)) =~= action_views(actions).push(action@));
}

// ---------------------------------------------------------------------------
// The controller as a state machine
// ---------------------------------------------------------------------------

/// A controller's state.
#[verifier::ext_equal]
pub struct ControllerState {
    pub dialog: DialogState,
    pub history: Seq<TurnView>,
    /// The turn whose reply is, or was last, under way.
    pub cur_turn: u64,
    /// What the model has said in this turn, once it is done.
    pub assistant_text: Seq<char>,
    /// Has the model finished this turn's reply?
    pub llm_done: bool,
    /// How many chunks of this turn are still being synthesized.
    pub pending_synth: i64,
    /// Is only the player's end awaited?
    pub awaiting_drain: bool,
    /// The state that the UI knows of.
    pub last_state: State,
    /// How many turns of history are kept besides the persona.
    pub history_keep: int,
}

/// What an input leads to.
#[verifier::ext_equal]
pub struct ControllerStep {
    pub next: ControllerState,
    pub actions: Seq<ActionView>,
}

impl ControllerState {
    /// Where a controller starts.
    pub open spec fn start(persona: Seq<char>, history_keep: int) -> ControllerState {
        ControllerState {
            dialog: DialogState::start(),
            history: crate::dialogue::opening(persona),
            cur_turn: 0,
            assistant_text: seq![],
            llm_done: false,
            pending_synth: 0,
            awaiting_drain: false,
            last_state: State::Idle,
            history_keep,
        }
    }

    /// What holds of every state between two inputs.
    pub open spec fn valid(self) -> bool {
        &&& self.cur_turn == self.dialog.turn
        &&& self.last_state == self.dialog.state
        &&& self.awaiting_drain ==> self.llm_done
        &&& 0 < self.history.len() <= 1 + self.history_keep
        &&& 0 <= self.history_keep
    }

    /// Nothing happens.
    pub open spec fn ignore(self) -> ControllerStep {
        ControllerStep { next: self, actions: seq![] }
    }

    /// The step that carries out one effect of the dialog.
    pub open spec fn exec(self, effect: EffectView) -> ControllerStep {
        match effect {
            EffectView::StartLlm { turn, .. } => ControllerStep {
                next: ControllerState {
                    cur_turn: turn,
                    assistant_text: seq![],
                    llm_done: false,
                    pending_synth: 0,
                    awaiting_drain: false,
                    ..self
                },
                actions: seq![
                    ActionView::ResumePlayback,
                    ActionView::StartLlm { turn, history: self.history },
                ],
            },
            EffectView::Synthesize { turn, text } => ControllerStep {
                next: ControllerState {
                    pending_synth: (self.pending_synth + 1) as i64,
                    ..self
                },
                actions: seq![ActionView::Synthesize { turn, text }],
            },
            EffectView::CancelLlm { .. } => ControllerStep {
                next: self,
                actions: seq![ActionView::Cancel],
            },
            EffectView::CancelTts { .. } => ControllerStep {
                next: self,
                actions: seq![ActionView::Cancel],
            },
            EffectView::StopPlayback => ControllerStep {
                next: self,
                actions: seq![ActionView::StopPlayback],
            },
            EffectView::CommitUser { text } => ControllerStep {
                next: ControllerState {
                    history: crate::dialogue::keep_last(
                        self.history.push(TurnView { role: Role::User, text }),
                        self.history_keep,
                    ),
                    ..self
                },
                actions: seq![ActionView::Emit(UiEventView::Turn { role: TurnRole::User, text })],
            },
            EffectView::CommitAssistant { .. } => {
                let text = self.assistant_text;
                let silent = crate::text::blank(text);
                let longer = if silent {
                    self.history
                } else {
                    self.history.push(TurnView { role: Role::Assistant, text })
                };
                ControllerStep {
                    next: ControllerState {
                        history: crate::dialogue::keep_last(longer, self.history_keep),
                        assistant_text: seq![],
                        awaiting_drain: false,
                        ..self
                    },
                    actions: if silent {
                        seq![]
                    } else {
                        seq![
                            ActionView::Emit(
                                UiEventView::Turn { role: TurnRole::Assistant, text },
                            ),
                        ]
                    },
                }
            },
        }
    }

    /// The step that carries out effects in order.
    pub open spec fn exec_all(self, effects: Seq<EffectView>) -> ControllerStep
        decreases effects.len(),
    {
        if effects.len() == 0 {
            self.ignore()
        } else {
            let before = self.exec_all(effects.drop_last());
            let last = before.next.exec(effects.last());
            ControllerStep { next: last.next, actions: before.actions + last.actions }
        }
    }

    /// The step that tells the UI of a new state, if it is one.
    pub open spec fn emit_state(self) -> ControllerStep {
        let now = self.dialog.state;
        if now == self.last_state {
            self.ignore()
        } else {
            ControllerStep {
                next: ControllerState { last_state: now, ..self },
                actions: seq![
                    ActionView::Emit(UiEventView::State(crate::events::conv_state_of(now))),
                ],
            }
        }
    }

    /// The step that an event of the dialog leads to.
    pub open spec fn event(self, event: EventView) -> ControllerStep {
        let step = self.dialog.step(event);
        let moved = ControllerState { dialog: step.next, ..self };
        let done = moved.exec_all(step.effects);
        let told = done.next.emit_state();
        ControllerStep { next: told.next, actions: done.actions + told.actions }
    }

    /// Awaits the player's end, if nothing else is left of the turn.
    pub open spec fn maybe_complete(self) -> ControllerState {
        if self.llm_done && self.pending_synth <= 0 {
            ControllerState { awaiting_drain: true, ..self }
        } else {
            self
        }
    }

    /// The step that a message leads to.
    pub open spec fn handle(self, msg: MsgView) -> ControllerStep {
        match msg {
            MsgView::SpeechStarted => self.event(EventView::UserSpeechStarted),
            MsgView::Utterance(text) => self.event(EventView::UserUtterance(text)),
            MsgView::Chunk { turn, text } => if turn == self.cur_turn {
                self.event(EventView::SpeakableChunk { turn, text })
            } else {
                self.ignore()
            },
            MsgView::PlaybackStarted { turn } => if turn == self.cur_turn {
                self.event(EventView::PlaybackStarted { turn })
            } else {
                self.ignore()
            },
            MsgView::LlmDone { turn, full } => if turn == self.cur_turn {
                ControllerState {
                    llm_done: true,
                    assistant_text: if crate::text::blank(full) {
                        self.assistant_text
                    } else {
                        full
                    },
                    ..self
                }.maybe_complete().ignore()
            } else {
                self.ignore()
            },
            MsgView::SynthDone { turn } => if turn == self.cur_turn {
                ControllerState {
                    pending_synth: (self.pending_synth - 1) as i64,
                    ..self
                }.maybe_complete().ignore()
            } else {
                self.ignore()
            },
        }
    }

    /// The step that the player's answer leads to: once nothing else is awaited, the turn is
    /// complete as soon as the player has drained.
    pub open spec fn check_drain(self, draining: bool) -> ControllerStep {
        if self.awaiting_drain && !draining {
            self.event(EventView::AssistantComplete { turn: self.cur_turn })
        } else {
            self.ignore()
        }
    }

    /// Can the message be counted: is there a turn id left, and room for one more or one
    /// fewer pending chunk?
    pub open spec fn has_room_for(self, msg: MsgView) -> bool {
        match msg {
            MsgView::Utterance(text) => self.dialog.has_room_for(EventView::UserUtterance(text)),
            MsgView::Chunk { turn, .. } => turn == self.cur_turn && self.dialog.replying()
                ==> self.pending_synth < i64::MAX,
            MsgView::SynthDone { turn } => turn == self.cur_turn ==> self.pending_synth
                > i64::MIN,
            _ => true,
        }
    }
}

proof fn lemma_event_keeps_valid(state: ControllerState, event: EventView)
    requires
        state.valid(),
        state.dialog.has_room_for(event),
    ensures
        state.event(event).next.valid(),
{
    lemma_event(state, event);
}

/// An event's step, spelled out: at most three effects are carried out one after the other.
proof fn lemma_event(state: ControllerState, event: EventView)
    ensures
        ({
            let step = state.dialog.step(event);
            let moved = ControllerState { dialog: step.next, ..state };
            &&& step.effects.len() == 0 ==> moved.exec_all(step.effects) == moved.ignore()
            &&& step.effects.len() == 1 ==> moved.exec_all(step.effects).next == moved.exec(
                step.effects[0],
            ).next && moved.exec_all(step.effects).actions == moved.exec(step.effects[0]).actions
            &&& step.effects.len() == 2 ==> ({
                let first = moved.exec(step.effects[0]);
                let second = first.next.exec(step.effects[1]);
                moved.exec_all(step.effects).next == second.next && moved.exec_all(
                    step.effects,
                ).actions == first.actions + second.actions
            })
            &&& step.effects.len() == 3 ==> ({
                let first = moved.exec(step.effects[0]);
                let second = first.next.exec(step.effects[1]);
                let third = second.next.exec(step.effects[2]);
                moved.exec_all(step.effects).next == third.next && moved.exec_all(
                    step.effects,
                ).actions == first.actions + second.actions + third.actions
            })
            &&& step.effects.len() <= 3
        }),
{
    let step = state.dialog.step(event);
    let moved = ControllerState { dialog: step.next, ..state };
    let effects = step.effects;
    reveal_with_fuel(ControllerState::exec_all, 4);
    if effects.len() >= 1 {
        assert(Seq::<ActionView>::empty() + moved.exec(effects[0]).actions == moved.exec(
            effects[0],
        ).actions);
    }
    if effects.len() == 1 {
        assert(effects.drop_last() == Seq::<EffectView>::empty());
    }
    if effects.len() == 2 {
        assert(effects.drop_last().drop_last() == Seq::<EffectView>::empty());
        assert(effects.drop_last().last() == effects[0]);
    }
    if effects.len() == 3 {
        assert(effects.drop_last().drop_last().drop_last() == Seq::<EffectView>::empty());
        assert(effects.drop_last().drop_last().last() == effects[0]);
        assert(effects.drop_last().last() == effects[1]);
    }
}

proof fn lemma_handle_keeps_valid(state: ControllerState, msg: MsgView)
    requires
        state.valid(),
        state.has_room_for(msg),
    ensures
        state.handle(msg).next.valid(),
{
    match msg {
        MsgView::SpeechStarted => lemma_event_keeps_valid(state, EventView::UserSpeechStarted),
        MsgView::Utterance(text) => lemma_event_keeps_valid(
            state,
            EventView::UserUtterance(text),
        ),
        MsgView::Chunk { turn, text } => lemma_event_keeps_valid(
            state,
            EventView::SpeakableChunk { turn, text },
        ),
        MsgView::PlaybackStarted { turn } => lemma_event_keeps_valid(
            state,
            EventView::PlaybackStarted { turn },
        ),
        _ => {},
    }
}

// ---------------------------------------------------------------------------
// The controller
// ---------------------------------------------------------------------------

/// Owns the dialog and the history, and decides when a turn is complete.
#[derive(Debug)]
pub struct Controller {
    dialog: Dialog,
    conv: Conversation,
    cur_turn: u64,
    assistant_text: String,
    llm_done: bool,
    pending_synth: i64,
    awaiting_drain: bool,
    last_state: State,
    history_keep: usize,
}

impl View for Controller {
    type V = ControllerState;

    closed spec fn view(&self) -> ControllerState {
        ControllerState {
            dialog: self.dialog@,
            history: self.conv@,
            cur_turn: self.cur_turn,
            assistant_text: self.assistant_text@,
            llm_done: self.llm_done,
            pending_synth: self.pending_synth,
            awaiting_drain: self.awaiting_drain,
            last_state: self.last_state,
            history_keep: self.history_keep as int,
        }
    }
}

impl Controller {
    /// A controller that keeps the persona and `history_keep` other turns. If that is none, each
    /// reply is asked for with the persona alone.
    pub fn new(persona: &str, history_keep: usize) -> (controller: Self)
        ensures
            controller@ == ControllerState::start(persona@, history_keep as int),
            controller@.valid(),
    {
        Controller {
            dialog: Dialog::new(),
            conv: Conversation::new(persona),
            cur_turn: 0,
            assistant_text: String::new(),
            llm_done: false,
            pending_synth: 0,
            awaiting_drain: false,
            last_state: State::Idle,
            history_keep,
        }
    }

    /// Where the conversation is.
    pub fn state(&self) -> (state: State)
        ensures
            state == self@.dialog.state,
    {
        self.dialog.state()
    }

    /// The turn whose reply is, or was last, under way.
    pub fn cur_turn(&self) -> (turn: u64)
        ensures
            turn == self@.cur_turn,
    {
        self.cur_turn
    }

    /// The conversation so far.
    pub fn history(&self) -> (turns: &[Turn])
        ensures
            crate::dialogue::turn_views(turns@) == self@.history,
    {
        self.conv.turns()
    }

    /// Should the player be asked whether it still plays?
    pub fn awaiting_drain(&self) -> (awaiting: bool)
        ensures
            awaiting == self@.awaiting_drain,
    {
        self.awaiting_drain
    }

    /// Can the message be counted?
    pub fn can_take(&self, m: &Msg) -> (answer: bool)
        ensures
            answer == self@.has_room_for(m@),
    {
        match m {
            Msg::Utterance(text) => self.dialog.can_take(&Event::UserUtterance(text.clone())),
            Msg::Chunk { turn, .. } => {
                let replying = match self.dialog.state() {
                    State::Thinking | State::Speaking => true,
                    State::Idle | State::Listening => false,
                };
                !(*turn == self.cur_turn && replying) || self.pending_synth < i64::MAX
            },
            Msg::SynthDone { turn } => *turn != self.cur_turn || self.pending_synth > i64::MIN,
            _ => true,
        }
    }

    /// Take in a worker's message; returns the actions to perform.
    pub fn handle(&mut self, m: Msg) -> (actions: Vec<Action>)
        requires
            old(self)@.valid(),
            old(self)@.has_room_for(m@),
        ensures
            final(self)@ == old(self)@.handle(m@).next,
            action_views(actions@) == old(self)@.handle(m@).actions,
            final(self)@.valid(),
    {
        proof {
            lemma_handle_keeps_valid(self@, m@);
        }
        match m {
            Msg::SpeechStarted => self.event(Event::UserSpeechStarted),
            Msg::Utterance(t) => self.event(Event::UserUtterance(t)),
            Msg::Chunk { turn, text } => {
                if turn == self.cur_turn {
                    self.event(Event::SpeakableChunk { turn, text })
                } else {
                    Vec::new()
                }
            },
            Msg::PlaybackStarted { turn } => {
                if turn == self.cur_turn {
                    self.event(Event::PlaybackStarted { turn })
                } else {
                    Vec::new()
                }
            },
            Msg::LlmDone { turn, full } => {
                if turn == self.cur_turn {
                    self.llm_done = true;
                    if !full.as_str().trim().is_empty() {
                        self.assistant_text = full;
                    }
                    self.maybe_complete();
                }
                Vec::new()
            },
            Msg::SynthDone { turn } => {
                if turn == self.cur_turn {
                    self.pending_synth -= 1;
                    self.maybe_complete();
                }
                Vec::new()
            },
        }
    }

    /// Take in the player's answer to whether it still plays. Called after each message and
    /// on the ticker: once the model is done and all chunks are enqueued, the turn completes
    /// as soon as the player has drained (so the commit reflects what was heard).
    pub fn check_drain(&mut self, draining: bool) -> (actions: Vec<Action>)
        requires
            old(self)@.valid(),
        ensures
            final(self)@ == old(self)@.check_drain(draining).next,
            action_views(actions@) == old(self)@.check_drain(draining).actions,
            final(self)@.valid(),
    {
        if !self.awaiting_drain || draining {
            return Vec::new();
        }
        proof {
            lemma_event_keeps_valid(
                self@,
                EventView::AssistantComplete { turn: self@.cur_turn },
            );
        }
        self.event(Event::AssistantComplete { turn: self.cur_turn })
    }

    fn event(&mut self, ev: Event) -> (actions: Vec<Action>)
        requires
            old(self)@.dialog.has_room_for(ev@),
            ev@ is SpeakableChunk && old(self)@.dialog.replying() ==> old(self)@.pending_synth
                < i64::MAX,
        ensures
            final(self)@ == old(self)@.event(ev@).next,
            action_views(actions@) == old(self)@.event(ev@).actions,
    {
        let ghost begin = self@;
        let ghost said = ev@;
        let ghost step = self@.dialog.step(ev@);
        let effects = self.dialog.on(ev);
        let ghost moved = self@;
        assert(moved == ControllerState { dialog: step.next, ..begin });
        let mut actions: Vec<Action> = Vec::new();
        let ghost views = crate::conversation::effect_views(effects@);
        let mut i: usize = 0;
        assert(views.take(0) == Seq::<EffectView>::empty());
        while i < effects.len()
            invariant
                i <= effects@.len(),
                views == crate::conversation::effect_views(effects@),
                views == begin.dialog.step(said).effects,
                said is SpeakableChunk && begin.dialog.replying() ==> begin.pending_synth < i64::MAX,
                moved.pending_synth == begin.pending_synth,
                self@ == moved.exec_all(views.take(i as int)).next,
                action_views(actions@) == moved.exec_all(views.take(i as int)).actions,
            decreases effects.len() - i,
        {
            proof {
                assert(views.take(i + 1).drop_last() == views.take(i as int));
                assert(views.take(i + 1).last() == views[i as int]);
                if views[i as int] is Synthesize {
                    crate::conversation::law_effects_need_a_reply(begin.dialog, said, i as int);
                    assert(said is SpeakableChunk);
                    assert(i == 0);
                    assert(views.take(0) == Seq::<EffectView>::empty());
                }
            }
            self.exec(&effects[i], &mut actions);
            i += 1;
        }
        assert(views.take(i as int) == views);
        self.emit_state(&mut actions);
        actions
    }

    fn exec(&mut self, e: &Effect, actions: &mut Vec<Action>)
        requires
            e@ is Synthesize ==> old(self)@.pending_synth < i64::MAX,
        ensures
            final(self)@ == old(self)@.exec(e@).next,
            action_views(final(actions)@) == action_views(old(actions)@) + old(self)@.exec(
                e@,
            ).actions,
    {
        let ghost before = actions@;
        match e {
            Effect::StartLlm { turn, .. } => {
                // The user's text is committed already, so the history ends with it, unless no
                // turn but the persona is kept.
                self.cur_turn = *turn;
                self.assistant_text = String::new();
                self.llm_done = false;
                self.pending_synth = 0;
                self.awaiting_drain = false;
                // Re-arm the player after any prior barge-in so this turn's audio plays.
                actions.push(Action::ResumePlayback);
                let history = copy_turns(self.conv.turns());
                actions.push(Action::StartLlm(LlmJob { turn: *turn, history }));
                proof {
                    lemma_action_push(before, actions@[before.len() as int]);
                    lemma_action_push(
                        before.push(actions@[before.len() as int]),
                        actions@[before.len() as int + 1],
                    );
                }
            },
            Effect::Synthesize { turn, text } => {
                self.pending_synth += 1;
                actions.push(Action::Synthesize(SynthJob { turn: *turn, text: text.clone() }));
            },
            Effect::CancelLlm { .. } | Effect::CancelTts { .. } => {
                actions.push(Action::Cancel);
            },
            Effect::StopPlayback => {
                actions.push(Action::StopPlayback);
            },
            Effect::CommitUser { text } => {
                self.conv.add_user(text.as_str());
                self.conv.truncate_keep_last(self.history_keep);
                actions.push(
                    Action::Emit(UiEvent::Turn { role: TurnRole::User, text: text.clone() }),
                );
            },
            Effect::CommitAssistant { .. } => {
                let mut text = String::new();
                std::mem::swap(&mut text, &mut self.assistant_text);
                if !text.as_str().trim().is_empty() {
                    self.conv.add_assistant(text.as_str());
                    actions.push(Action::Emit(UiEvent::Turn { role: TurnRole::Assistant, text }));
                }
                self.conv.truncate_keep_last(self.history_keep);
                self.awaiting_drain = false;
            },
        }
        proof {
            if actions@.len() == before.len() + 1 {
                lemma_action_push(before, actions@.last());
                assert(actions@ == before.push(actions@.last()));
            }
            assert(action_views(actions@) =~= action_views(before) + old(self)@.exec(e@).actions);
        }
    }

    fn maybe_complete(&mut self)
        ensures
            final(self)@ == old(self)@.maybe_complete(),
    {
        if self.llm_done && self.pending_synth <= 0 {
            self.awaiting_drain = true;
        }
    }

    fn emit_state(&mut self, actions: &mut Vec<Action>)
        ensures
            final(self)@ == old(self)@.emit_state().next,
            action_views(final(actions)@) == action_views(old(actions)@)
                + old(self)@.emit_state().actions,
    {
        let ghost before = actions@;
        let s = self.dialog.state();
        if s != self.last_state {
            self.last_state = s;
            actions.push(Action::Emit(UiEvent::State(conv_state(s))));
            proof {
                lemma_action_push(before, actions@.last());
            }
        }
        assert(action_views(actions@) =~= action_views(before) + old(self)@.emit_state().actions);
    }
}

// ---------------------------------------------------------------------------
// Laws
// ---------------------------------------------------------------------------

/// Output of any other turn than the current one is dropped: no action, no change.
pub proof fn law_stale_output_is_dropped(state: ControllerState, msg: MsgView)
    requires
        msg.of_turn() is Some,
        msg.of_turn() != Some(state.cur_turn),
    ensures
        state.handle(msg) == state.ignore(),
{
}

/// A barge-in cancels the turn under way, flushes the player, and says so to the UI. The
/// history stays as it was: what was cut off is not committed.
pub proof fn law_barge_in_cancels(state: ControllerState)
    requires
        state.valid(),
        state.dialog.replying(),
    ensures
        state.handle(MsgView::SpeechStarted).actions == seq![
            ActionView::Cancel,
            ActionView::Cancel,
            ActionView::StopPlayback,
            ActionView::Emit(UiEventView::State(crate::events::ConvState::Listening)),
        ],
        state.handle(MsgView::SpeechStarted).next.history == state.history,
        state.handle(MsgView::SpeechStarted).next.dialog.state == State::Listening,
        state.handle(MsgView::SpeechStarted).next.cur_turn == state.cur_turn,
{
    lemma_event(state, EventView::UserSpeechStarted);
}

/// An utterance heard out becomes a new turn: it joins the history, which is cut to its limit,
/// the player is re-armed, and a reply to the history is asked for, under the next id and with
/// no count left over from the turn before. The history that is sent starts with the persona
/// and ends with the utterance; only where no turn besides the persona is kept is it the
/// persona alone.
pub proof fn law_utterance_starts_turn(state: ControllerState, said: Seq<char>)
    requires
        state.valid(),
        state.dialog.state == State::Listening,
        !crate::text::blank(said),
        state.dialog.turn < u64::MAX,
    ensures
        ({
            let step = state.handle(MsgView::Utterance(said));
            let text = crate::text::trimmed(said);
            let history = crate::dialogue::keep_last(
                state.history.push(TurnView { role: Role::User, text }),
                state.history_keep,
            );
            &&& step.next.history == history
            &&& history[0] == state.history[0]
            &&& state.history_keep > 0 ==> history.last() == (TurnView { role: Role::User, text })
            &&& state.history_keep == 0 ==> history == seq![state.history[0]]
            &&& step.next.cur_turn == state.cur_turn + 1
            &&& step.next.pending_synth == 0
            &&& !step.next.llm_done
            &&& !step.next.awaiting_drain
            &&& step.next.assistant_text.len() == 0
            &&& step.actions == seq![
                ActionView::Emit(UiEventView::Turn { role: TurnRole::User, text }),
                ActionView::ResumePlayback,
                ActionView::StartLlm { turn: (state.cur_turn + 1) as u64, history },
                ActionView::Emit(UiEventView::State(crate::events::ConvState::Thinking)),
            ]
        }),
{
    lemma_event(state, EventView::UserUtterance(said));
}

/// A false start asks for nothing: the state is idle again and the history is unchanged.
pub proof fn law_false_start(state: ControllerState, said: Seq<char>)
    requires
        state.valid(),
        state.dialog.state == State::Listening,
        crate::text::blank(said),
    ensures
        state.handle(MsgView::Utterance(said)).actions == seq![
            ActionView::Emit(UiEventView::State(crate::events::ConvState::Idle)),
        ],
        state.handle(MsgView::Utterance(said)).next.history == state.history,
        state.handle(MsgView::Utterance(said)).next.cur_turn == state.cur_turn,
{
    lemma_event(state, EventView::UserUtterance(said));
}

/// A turn completes once the player has drained: the reply joins the history (unless it is
/// blank), the history is cut to its limit, and the state is idle. Until then the player's
/// answer changes nothing.
pub proof fn law_turn_completes_when_drained(state: ControllerState)
    requires
        state.valid(),
        state.awaiting_drain,
        state.dialog.replying(),
    ensures
        state.check_drain(true) == state.ignore(),
        ({
            let step = state.check_drain(false);
            let text = state.assistant_text;
            let said = TurnView { role: Role::Assistant, text };
            let told = ActionView::Emit(UiEventView::State(crate::events::ConvState::Idle));
            &&& step.next.dialog.state == State::Idle
            &&& !step.next.awaiting_drain
            &&& !crate::text::blank(text) ==> step.next.history == crate::dialogue::keep_last(
                state.history.push(said),
                state.history_keep,
            ) && step.actions == seq![
                ActionView::Emit(UiEventView::Turn { role: TurnRole::Assistant, text }),
                told,
            ]
            &&& crate::text::blank(text) ==> step.next.history == crate::dialogue::keep_last(
                state.history,
                state.history_keep,
            ) && step.actions == seq![told]
        }),
{
    lemma_event(state, EventView::AssistantComplete { turn: state.cur_turn });
}

/// A reply that was cut off is never committed: with no reply under way, the player's answer
/// changes nothing and asks for nothing, whatever the workers of the old turn have reported.
pub proof fn law_interrupted_reply_is_not_committed(state: ControllerState, draining: bool)
    requires
        state.valid(),
        !state.dialog.replying(),
    ensures
        state.check_drain(draining) == state.ignore(),
{
    lemma_event(state, EventView::AssistantComplete { turn: state.cur_turn });
}

/// The history changes in two ways only: an utterance that starts a turn adds it, and a
/// completion adds the reply, each cutting the history to its limit. No other message touches it.
pub proof fn law_history_changes_by_commits_only(state: ControllerState, msg: MsgView)
    requires
        state.valid(),
        state.has_room_for(msg),
    ensures
        !(msg matches MsgView::Utterance(said) && state.dialog.starts_turn(
            EventView::UserUtterance(said),
        )) ==> state.handle(msg).next.history == state.history,
{
    let replying = state.dialog.replying();
    match msg {
        MsgView::SpeechStarted => if replying {
            law_barge_in_only_listens(state);
        } else {
            law_user_outside_a_reply(state, seq![]);
        },
        MsgView::Utterance(said) => if state.dialog.state == State::Listening {
            if crate::text::blank(said) {
                law_false_start(state, said);
            }
        } else {
            law_user_outside_a_reply(state, said);
        },
        MsgView::Chunk { turn, text } => if turn == state.cur_turn && replying {
            law_reply_is_passed_on(state, text);
        } else {
            law_output_without_a_reply(state, turn, text);
        },
        MsgView::PlaybackStarted { turn } => if turn == state.cur_turn && replying {
            lemma_event(state, EventView::PlaybackStarted { turn });
        } else {
            law_output_without_a_reply(state, turn, seq![]);
        },
        _ => {},
    }
}

/// What no effect does: start waiting for the player, or touch the first message.
proof fn lemma_exec_frame(state: ControllerState, effect: EffectView)
    requires
        state.history.len() > 0,
        state.history_keep >= 0,
    ensures
        state.exec(effect).next.awaiting_drain ==> state.awaiting_drain,
        state.exec(effect).next.history.len() > 0,
        state.exec(effect).next.history[0] == state.history[0],
        state.exec(effect).next.history_keep == state.history_keep,
{
}

proof fn lemma_exec_all_frame(state: ControllerState, effects: Seq<EffectView>)
    requires
        state.history.len() > 0,
        state.history_keep >= 0,
    ensures
        state.exec_all(effects).next.awaiting_drain ==> state.awaiting_drain,
        state.exec_all(effects).next.history.len() > 0,
        state.exec_all(effects).next.history[0] == state.history[0],
        state.exec_all(effects).next.history_keep == state.history_keep,
    decreases effects.len(),
{
    if effects.len() > 0 {
        lemma_exec_all_frame(state, effects.drop_last());
        lemma_exec_frame(state.exec_all(effects.drop_last()).next, effects.last());
    }
}

proof fn lemma_event_frame(state: ControllerState, event: EventView)
    requires
        state.valid(),
    ensures
        state.event(event).next.awaiting_drain ==> state.awaiting_drain,
        state.event(event).next.history.len() > 0,
        state.event(event).next.history[0] == state.history[0],
{
    let step = state.dialog.step(event);
    lemma_exec_all_frame(ControllerState { dialog: step.next, ..state }, step.effects);
}

proof fn lemma_handle_frame(state: ControllerState, msg: MsgView)
    requires
        state.valid(),
    ensures
        state.handle(msg).next.history.len() > 0,
        state.handle(msg).next.history[0] == state.history[0],
        !state.awaiting_drain && state.handle(msg).next.awaiting_drain ==> (msg is LlmDone
            || msg is SynthDone),
{
    match msg {
        MsgView::SpeechStarted => lemma_event_frame(state, EventView::UserSpeechStarted),
        MsgView::Utterance(said) => lemma_event_frame(state, EventView::UserUtterance(said)),
        MsgView::Chunk { turn, text } => lemma_event_frame(
            state,
            EventView::SpeakableChunk { turn, text },
        ),
        MsgView::PlaybackStarted { turn } => lemma_event_frame(
            state,
            EventView::PlaybackStarted { turn },
        ),
        _ => {},
    }
}

/// The persona stays the first message of the history, through every message and answer.
pub proof fn law_persona_stays_first(state: ControllerState, msg: MsgView, draining: bool)
    requires
        state.valid(),
    ensures
        state.handle(msg).next.history.len() > 0,
        state.handle(msg).next.history[0] == state.history[0],
        state.check_drain(draining).next.history.len() > 0,
        state.check_drain(draining).next.history[0] == state.history[0],
{
    lemma_handle_frame(state, msg);
    lemma_event_frame(state, EventView::AssistantComplete { turn: state.cur_turn });
}

/// While a reply is under way, each chunk of it is handed to synthesis once and counted, and
/// each chunk synthesized is counted off; the last one of a finished reply leaves only the
/// player to wait for.
pub proof fn law_pending_chunks_are_counted(state: ControllerState, text: Seq<char>)
    requires
        state.valid(),
        state.dialog.replying(),
        state.pending_synth < i64::MAX,
    ensures
        ({
            let turn = state.cur_turn;
            let step = state.handle(MsgView::Chunk { turn, text });
            &&& step.actions == seq![ActionView::Synthesize { turn, text }]
            &&& step.next.pending_synth == state.pending_synth + 1
        }),
        state.pending_synth > 0 ==> ({
            let next = state.handle(MsgView::SynthDone { turn: state.cur_turn }).next;
            &&& next.pending_synth == state.pending_synth - 1
            &&& next.awaiting_drain == (state.awaiting_drain || (state.llm_done
                && state.pending_synth == 1))
        }),
{
    lemma_event(state, EventView::SpeakableChunk { turn: state.cur_turn, text });
}

/// A turn starts to wait for the player only on a report of its own, when the model is done
/// and nothing is left to synthesize.
pub proof fn law_waits_only_when_done(state: ControllerState, msg: MsgView)
    requires
        state.valid(),
        !state.awaiting_drain,
        state.handle(msg).next.awaiting_drain,
    ensures
        state.handle(msg).next.llm_done,
        state.handle(msg).next.pending_synth <= 0,
        msg.of_turn() == Some(state.cur_turn),
{
    lemma_handle_frame(state, msg);
}

// ---------------------------------------------------------------------------
// Whole conversations
// ---------------------------------------------------------------------------

/// What reaches a controller: a worker's message, or the player's answer.
#[verifier::ext_equal]
pub enum InputView {
    Message(MsgView),
    Draining(bool),
}

impl ControllerState {
    /// The step that an input leads to.
    pub open spec fn take(self, input: InputView) -> ControllerStep {
        match input {
            InputView::Message(msg) => self.handle(msg),
            InputView::Draining(draining) => self.check_drain(draining),
        }
    }

    /// The state after several inputs.
    pub open spec fn run(self, inputs: Seq<InputView>) -> ControllerState
        decreases inputs.len(),
    {
        if inputs.len() == 0 {
            self
        } else {
            self.run(inputs.drop_last()).take(inputs.last()).next
        }
    }

    /// Can the input be counted?
    pub open spec fn can_count(self, input: InputView) -> bool {
        input matches InputView::Message(msg) ==> self.has_room_for(msg)
    }

    /// Can each of several inputs be counted when it comes?
    pub open spec fn can_count_all(self, inputs: Seq<InputView>) -> bool
        decreases inputs.len(),
    {
        inputs.len() > 0 ==> self.can_count_all(inputs.drop_last()) && self.run(
            inputs.drop_last(),
        ).can_count(inputs.last())
    }
}

/// The dialog's event that an input is, if it is one for the current turn.
spec fn event_of(state: ControllerState, input: InputView) -> Option<EventView> {
    match input {
        InputView::Message(MsgView::SpeechStarted) => Some(EventView::UserSpeechStarted),
        InputView::Message(MsgView::Utterance(text)) => Some(EventView::UserUtterance(text)),
        InputView::Message(MsgView::Chunk { turn, text }) => if turn == state.cur_turn {
            Some(EventView::SpeakableChunk { turn, text })
        } else {
            None
        },
        InputView::Message(MsgView::PlaybackStarted { turn }) => if turn == state.cur_turn {
            Some(EventView::PlaybackStarted { turn })
        } else {
            None
        },
        InputView::Message(_) => None,
        InputView::Draining(draining) => if state.awaiting_drain && !draining {
            Some(EventView::AssistantComplete { turn: state.cur_turn })
        } else {
            None
        },
    }
}

proof fn lemma_take(state: ControllerState, input: InputView)
    ensures
        match event_of(state, input) {
            Some(event) => state.take(input) == state.event(event),
            None => {
                &&& state.take(input).next.dialog == state.dialog
                &&& state.take(input).next.cur_turn == state.cur_turn
                &&& state.take(input).actions.len() == 0
            },
        },
{
}

/// One input: the turn never falls, and outside a reply none begins but with a new turn.
proof fn lemma_take_turn(state: ControllerState, input: InputView)
    requires
        state.valid(),
        state.can_count(input),
    ensures
        state.take(input).next.valid(),
        state.take(input).next.cur_turn >= state.cur_turn,
        !state.dialog.replying() ==> state.take(input).next.cur_turn > state.cur_turn
            || !state.take(input).next.dialog.replying(),
{
    match input {
        InputView::Message(msg) => lemma_handle_keeps_valid(state, msg),
        InputView::Draining(draining) => lemma_event_keeps_valid(
            state,
            EventView::AssistantComplete { turn: state.cur_turn },
        ),
    }
    lemma_take(state, input);
    if let Some(event) = event_of(state, input) {
        lemma_event_dialog(state, event);
        assert(state.dialog.has_room_for(event));
        crate::conversation::law_turn_bumps_per_utterance(state.dialog, event);
    }
}

/// An event moves the dialog as the dialog says.
proof fn lemma_event_dialog(state: ControllerState, event: EventView)
    ensures
        state.event(event).next.dialog == state.dialog.step(event).next,
{
    let step = state.dialog.step(event);
    lemma_exec_all_dialog(ControllerState { dialog: step.next, ..state }, step.effects);
}

proof fn lemma_exec_all_dialog(state: ControllerState, effects: Seq<EffectView>)
    ensures
        state.exec_all(effects).next.dialog == state.dialog,
    decreases effects.len(),
{
    if effects.len() > 0 {
        lemma_exec_all_dialog(state, effects.drop_last());
    }
}

/// Speech is asked for, and a reply is told, only by effects that are there for it.
proof fn lemma_exec_all_actions(state: ControllerState, effects: Seq<EffectView>, i: int)
    requires
        0 <= i < state.exec_all(effects).actions.len(),
    ensures
        state.exec_all(effects).actions[i] matches ActionView::Synthesize { turn, .. } ==> exists|
            j: int,
        |
            0 <= j < effects.len() && (#[trigger] effects[j] matches EffectView::Synthesize {
                turn: t,
                ..
            } && t == turn),
        tells_reply(state.exec_all(effects).actions[i]) ==> exists|j: int|
            0 <= j < effects.len() && #[trigger] effects[j] is CommitAssistant,
    decreases effects.len(),
{
    if effects.len() > 0 {
        let front = effects.drop_last();
        let before = state.exec_all(front);
        if i < before.actions.len() {
            lemma_exec_all_actions(state, front, i);
            assert forall|j: int| 0 <= j < front.len() implies #[trigger] front[j]
                == effects[j] by {}
        } else {
            let action = before.next.exec(effects.last()).actions[i - before.actions.len()];
            assert(state.exec_all(effects).actions[i] == action);
            assert(effects[effects.len() - 1] == effects.last());
        }
    }
}

/// Speech is asked for, and a reply is told, only in a reply to the current turn.
proof fn lemma_take_actions(state: ControllerState, input: InputView, i: int)
    requires
        state.valid(),
        0 <= i < state.take(input).actions.len(),
    ensures
        state.take(input).actions[i] matches ActionView::Synthesize { turn, .. } ==> turn
            == state.cur_turn && state.dialog.replying(),
        tells_reply(state.take(input).actions[i]) ==> state.dialog.replying(),
{
    lemma_take(state, input);
    if let Some(event) = event_of(state, input) {
        let step = state.dialog.step(event);
        let moved = ControllerState { dialog: step.next, ..state };
        let done = moved.exec_all(step.effects);
        if i < done.actions.len() {
            lemma_exec_all_actions(moved, step.effects, i);
        }
    }
}

/// Does the action tell the UI what the assistant said?
pub open spec fn tells_reply(action: ActionView) -> bool {
    action matches ActionView::Emit(UiEventView::Turn { role: TurnRole::Assistant, .. })
}

/// Through any conversation the controller stays valid: its turn is the dialog's turn, the UI
/// knows the dialog's state, and the history holds the persona and at most `history_keep` other
/// turns, however often the user interrupts. The turn never falls.
pub proof fn law_valid_throughout(state: ControllerState, inputs: Seq<InputView>)
    requires
        state.valid(),
        state.can_count_all(inputs),
    ensures
        state.run(inputs).valid(),
        state.run(inputs).cur_turn >= state.cur_turn,
    decreases inputs.len(),
{
    if inputs.len() > 0 {
        law_valid_throughout(state, inputs.drop_last());
        lemma_take_turn(state.run(inputs.drop_last()), inputs.last());
    }
}

proof fn lemma_no_reply_until_next_turn(state: ControllerState, inputs: Seq<InputView>)
    requires
        state.valid(),
        state.can_count_all(inputs),
        !state.dialog.replying(),
    ensures
        state.run(inputs).valid(),
        state.run(inputs).cur_turn > state.cur_turn || (state.run(inputs).cur_turn
            == state.cur_turn && !state.run(inputs).dialog.replying()),
    decreases inputs.len(),
{
    if inputs.len() > 0 {
        lemma_no_reply_until_next_turn(state, inputs.drop_last());
        lemma_take_turn(state.run(inputs.drop_last()), inputs.last());
    }
}

/// Barge-in is free of races. Once no reply is under way (the user has interrupted, or the
/// turn is complete), nothing that is still in flight for that turn, in whatever order and
/// number it arrives, makes the agent speak for it or tell a reply: what is synthesized later
/// belongs to a later turn, and what is told as a reply comes after a later turn has begun.
pub proof fn law_interrupted_turn_stays_silent(
    state: ControllerState,
    inputs: Seq<InputView>,
    input: InputView,
    i: int,
)
    requires
        state.valid(),
        !state.dialog.replying(),
        state.can_count_all(inputs),
        0 <= i < state.run(inputs).take(input).actions.len(),
    ensures
        state.run(inputs).take(input).actions[i] matches ActionView::Synthesize { turn, .. }
            ==> turn > state.cur_turn,
        tells_reply(state.run(inputs).take(input).actions[i]) ==> state.run(inputs).cur_turn
            > state.cur_turn,
{
    lemma_no_reply_until_next_turn(state, inputs);
    lemma_take_actions(state.run(inputs), input, i);
}

// ---------------------------------------------------------------------------
// How a turn comes to its end
// ---------------------------------------------------------------------------

/// When the model is done, whatever the dialog is at, its text is kept (unless it is blank) and
/// the turn waits for the player if, and only if, it did already or nothing is left to
/// synthesize. Nothing else changes, and nothing is asked for.
pub proof fn law_model_done(state: ControllerState, full: Seq<char>)
    ensures
        ({
            let step = state.handle(MsgView::LlmDone { turn: state.cur_turn, full });
            &&& step.next == (ControllerState {
                llm_done: true,
                assistant_text: if crate::text::trimmed(full).len() == 0 {
                    state.assistant_text
                } else {
                    full
                },
                awaiting_drain: state.awaiting_drain || state.pending_synth <= 0,
                ..state
            })
            &&& step.actions.len() == 0
        }),
{
}

/// When a chunk has been synthesized, whatever the dialog is at, one fewer is pending, and the
/// turn waits for the player if, and only if, it did already or the model is done and nothing
/// is left to synthesize. Nothing else changes, and nothing is asked for.
pub proof fn law_chunk_done(state: ControllerState)
    requires
        state.pending_synth > i64::MIN,
    ensures
        ({
            let step = state.handle(MsgView::SynthDone { turn: state.cur_turn });
            &&& step.next == (ControllerState {
                pending_synth: (state.pending_synth - 1) as i64,
                awaiting_drain: state.awaiting_drain || (state.llm_done && state.pending_synth - 1
                    <= 0),
                ..state
            })
            &&& step.actions.len() == 0
        }),
{
}

/// Until a turn waits for the player, and while the player still plays, its answer changes
/// nothing and asks for nothing.
pub proof fn law_player_is_waited_for(state: ControllerState, draining: bool)
    requires
        !state.awaiting_drain || draining,
    ensures
        state.check_drain(draining).next == state,
        state.check_drain(draining).actions.len() == 0,
{
}

/// The end of a turn: a reply under way that waits is committed as soon as the player has
/// drained, and the agent is idle, with nothing left of the turn.
pub proof fn law_drained_turn_is_committed(state: ControllerState)
    requires
        state.valid(),
        state.awaiting_drain,
        state.dialog.state == State::Thinking || state.dialog.state == State::Speaking,
        crate::text::trimmed(state.assistant_text).len() > 0,
    ensures
        ({
            let step = state.check_drain(false);
            let text = state.assistant_text;
            &&& step.next.history == crate::dialogue::keep_last(
                state.history.push(TurnView { role: Role::Assistant, text }),
                state.history_keep,
            )
            &&& step.actions == seq![
                ActionView::Emit(UiEventView::Turn { role: TurnRole::Assistant, text }),
                ActionView::Emit(UiEventView::State(crate::events::ConvState::Idle)),
            ]
            &&& step.next.dialog.state == State::Idle
            &&& step.next.dialog.turn == state.dialog.turn
            &&& step.next.assistant_text.len() == 0
            &&& !step.next.awaiting_drain
        }),
{
    law_turn_completes_when_drained(state);
    lemma_event(state, EventView::AssistantComplete { turn: state.cur_turn });
}

/// Does a turn whose model is done, with nothing left to synthesize, wait for the player?
pub open spec fn waits_when_done(state: ControllerState) -> bool {
    (state.dialog.state == State::Thinking || state.dialog.state == State::Speaking)
        && state.llm_done && state.pending_synth <= 0 ==> state.awaiting_drain
}

/// No turn hangs: in any conversation, in whatever order the reports come, a reply whose model
/// is done and of which nothing is left to synthesize waits for the player, whose answer then
/// completes it.
pub proof fn law_no_turn_hangs(persona: Seq<char>, keep: int, inputs: Seq<InputView>)
    requires
        0 <= keep,
        ControllerState::start(persona, keep).can_count_all(inputs),
    ensures
        ({
            let state = ControllerState::start(persona, keep).run(inputs);
            &&& waits_when_done(state)
            &&& state.valid()
            &&& (state.dialog.state == State::Thinking || state.dialog.state == State::Speaking)
                && state.llm_done && state.pending_synth <= 0 ==> state.check_drain(
                false,
            ).next.dialog.state == State::Idle
        }),
    decreases inputs.len(),
{
    let start = ControllerState::start(persona, keep);
    let state = start.run(inputs);
    law_valid_throughout(start, inputs);
    if inputs.len() > 0 {
        law_no_turn_hangs(persona, keep, inputs.drop_last());
        law_valid_throughout(start, inputs.drop_last());
        let before = start.run(inputs.drop_last());
        lemma_take_waits(before, inputs.last());
    }
    if state.awaiting_drain && state.dialog.replying() {
        law_turn_completes_when_drained(state);
    }
}

proof fn lemma_take_waits(state: ControllerState, input: InputView)
    requires
        state.valid(),
        state.can_count(input),
        waits_when_done(state),
    ensures
        waits_when_done(state.take(input).next),
{
    if let Some(event) = event_of(state, input) {
        lemma_take(state, input);
        lemma_event_waits(state, event);
    }
}

proof fn lemma_event_waits(state: ControllerState, event: EventView)
    requires
        state.valid(),
        state.dialog.has_room_for(event),
        waits_when_done(state),
        event matches EventView::SpeakableChunk { .. } ==> state.pending_synth < i64::MAX
            || !state.dialog.replying(),
    ensures
        waits_when_done(state.event(event).next),
{
    lemma_event(state, event);
}

/// How many of the messages are chunks of the reply.
pub open spec fn chunks_in(messages: Seq<MsgView>) -> int
    decreases messages.len(),
{
    if messages.len() == 0 {
        0
    } else {
        chunks_in(messages.drop_last()) + if messages.last() is Chunk {
            1int
        } else {
            0
        }
    }
}

/// How many of the messages report a chunk as synthesized.
pub open spec fn synthesized_in(messages: Seq<MsgView>) -> int
    decreases messages.len(),
{
    if messages.len() == 0 {
        0
    } else {
        synthesized_in(messages.drop_last()) + if messages.last() is SynthDone {
            1int
        } else {
            0
        }
    }
}

/// The messages as inputs.
pub open spec fn as_inputs(messages: Seq<MsgView>) -> Seq<InputView> {
    Seq::new(messages.len(), |i: int| InputView::Message(messages[i]))
}

/// One message of the current turn in the books.
proof fn lemma_books(state: ControllerState, msg: MsgView)
    requires
        state.valid(),
        state.has_room_for(msg),
        state.dialog.replying(),
        msg.of_turn() == Some(state.cur_turn),
    ensures
        ({
            let next = state.handle(msg).next;
            &&& next.pending_synth == state.pending_synth + (if msg is Chunk {
                1int
            } else {
                0
            }) - (if msg is SynthDone {
                1int
            } else {
                0
            })
            &&& next.llm_done == (state.llm_done || msg is LlmDone)
            &&& next.history == state.history
            &&& next.cur_turn == state.cur_turn
            &&& next.dialog.replying()
        }),
{
    match msg {
        MsgView::Chunk { turn, text } => law_reply_is_passed_on(state, text),
        MsgView::PlaybackStarted { turn } => lemma_event(
            state,
            EventView::PlaybackStarted { turn },
        ),
        MsgView::LlmDone { turn, full } => law_model_done(state, full),
        _ => law_chunk_done(state),
    }
}

/// The model is done in some of the messages if it is in an earlier one or in the last.
proof fn lemma_done_in(messages: Seq<MsgView>)
    requires
        messages.len() > 0,
    ensures
        (exists|i: int| 0 <= i < messages.len() && #[trigger] messages[i] is LlmDone) <==> (exists|
            i: int,
        |
            0 <= i < messages.drop_last().len() && #[trigger] messages.drop_last()[i] is LlmDone)
            || messages.last() is LlmDone,
{
    let front = messages.drop_last();
    assert(messages[messages.len() - 1] == messages.last());
    if exists|i: int| 0 <= i < front.len() && #[trigger] front[i] is LlmDone {
        let i = choose|i: int| 0 <= i < front.len() && #[trigger] front[i] is LlmDone;
        assert(messages[i] is LlmDone);
    }
    if exists|i: int| 0 <= i < messages.len() && #[trigger] messages[i] is LlmDone {
        let i = choose|i: int| 0 <= i < messages.len() && #[trigger] messages[i] is LlmDone;
        if i < front.len() {
            assert(front[i] is LlmDone);
        }
    }
}

/// The books of a turn balance: through any messages of the current turn, in any order, what is
/// pending is what was pending, and the chunks, less those synthesized; the model is done if it
/// was or said so; and the turn, its reply and the history stay what they are.
#[verifier::spinoff_prover]
#[verifier::rlimit(60)]
pub proof fn law_pending_chunks_balance(state: ControllerState, messages: Seq<MsgView>)
    requires
        state.valid(),
        state.dialog.state == State::Thinking || state.dialog.state == State::Speaking,
        state.can_count_all(as_inputs(messages)),
        forall|i: int|
            0 <= i < messages.len() ==> (#[trigger] messages[i]).of_turn() == Some(state.cur_turn),
    ensures
        ({
            let after = state.run(as_inputs(messages));
            &&& after.pending_synth == state.pending_synth + chunks_in(messages) - synthesized_in(
                messages,
            )
            &&& after.llm_done <==> state.llm_done || exists|i: int|
                0 <= i < messages.len() && #[trigger] messages[i] is LlmDone
            &&& after.history == state.history
            &&& after.cur_turn == state.cur_turn
            &&& after.dialog.state == State::Thinking || after.dialog.state == State::Speaking
            &&& after.valid()
        }),
    decreases messages.len(),
{
    if messages.len() > 0 {
        let front = messages.drop_last();
        let last = messages.last();
        assert forall|i: int| 0 <= i < front.len() implies (#[trigger] front[i]).of_turn() == Some(
            state.cur_turn,
        ) by {
            assert(front[i] == messages[i]);
        }
        assert(as_inputs(messages).drop_last() =~= as_inputs(front));
        assert(as_inputs(messages).last() == InputView::Message(last));
        law_pending_chunks_balance(state, front);
        let before = state.run(as_inputs(front));
        assert(last.of_turn() == Some(state.cur_turn));
        lemma_handle_keeps_valid(before, last);
        lemma_books(before, last);
        assert(state.run(as_inputs(messages)) == before.handle(last).next);
        lemma_done_in(messages);
    } else {
        assert(as_inputs(messages) =~= Seq::<InputView>::empty());
    }
}

/// While a reply is under way its chunks are handed on as they come, without a change but to
/// the count, and its first audio means speaking, which the UI is told once.
pub proof fn law_reply_is_passed_on(state: ControllerState, text: Seq<char>)
    requires
        state.valid(),
        state.dialog.state == State::Thinking || state.dialog.state == State::Speaking,
        state.pending_synth < i64::MAX,
    ensures
        ({
            let turn = state.cur_turn;
            let chunk = state.handle(MsgView::Chunk { turn, text });
            let audio = state.handle(MsgView::PlaybackStarted { turn });
            &&& chunk.actions == seq![ActionView::Synthesize { turn, text }]
            &&& chunk.next == (ControllerState {
                pending_synth: (state.pending_synth + 1) as i64,
                ..state
            })
            &&& audio.next == (ControllerState {
                dialog: DialogState { state: State::Speaking, turn: state.dialog.turn },
                last_state: State::Speaking,
                ..state
            })
            &&& state.dialog.state == State::Thinking ==> audio.actions == seq![
                ActionView::Emit(UiEventView::State(crate::events::ConvState::Speaking)),
            ]
            &&& state.dialog.state == State::Speaking ==> audio.actions.len() == 0
        }),
{
    lemma_event(state, EventView::SpeakableChunk { turn: state.cur_turn, text });
    lemma_event(state, EventView::PlaybackStarted { turn: state.cur_turn });
}

/// Speech outside a reply only makes the agent listen, and an utterance outside listening does
/// nothing.
pub proof fn law_user_outside_a_reply(state: ControllerState, said: Seq<char>)
    requires
        state.valid(),
    ensures
        state.dialog.state == State::Idle ==> {
            let step = state.handle(MsgView::SpeechStarted);
            &&& step.actions == seq![
                ActionView::Emit(UiEventView::State(crate::events::ConvState::Listening)),
            ]
            &&& step.next == (ControllerState {
                dialog: DialogState { state: State::Listening, turn: state.dialog.turn },
                last_state: State::Listening,
                ..state
            })
        },
        state.dialog.state == State::Listening ==> {
            let step = state.handle(MsgView::SpeechStarted);
            step.actions.len() == 0 && step.next == state
        },
        state.dialog.state != State::Listening ==> {
            let step = state.handle(MsgView::Utterance(said));
            step.actions.len() == 0 && step.next == state
        },
{
    lemma_event(state, EventView::UserSpeechStarted);
    lemma_event(state, EventView::UserUtterance(said));
}

/// A barge-in changes nothing but what the dialog is at: the turn's text, its counts and the
/// history stay.
pub proof fn law_barge_in_only_listens(state: ControllerState)
    requires
        state.valid(),
        state.dialog.state == State::Thinking || state.dialog.state == State::Speaking,
    ensures
        state.handle(MsgView::SpeechStarted).next == (ControllerState {
            dialog: DialogState { state: State::Listening, turn: state.dialog.turn },
            last_state: State::Listening,
            ..state
        }),
        state.handle(MsgView::SpeechStarted).actions == seq![
            ActionView::Cancel,
            ActionView::Cancel,
            ActionView::StopPlayback,
            ActionView::Emit(UiEventView::State(crate::events::ConvState::Listening)),
        ],
{
    lemma_event(state, EventView::UserSpeechStarted);
}

/// Messages of another turn than the current one do nothing at all.
pub proof fn law_other_turns_do_nothing(
    state: ControllerState,
    turn: u64,
    text: Seq<char>,
)
    requires
        turn != state.cur_turn,
    ensures
        state.handle(MsgView::Chunk { turn, text }).next == state,
        state.handle(MsgView::Chunk { turn, text }).actions.len() == 0,
        state.handle(MsgView::LlmDone { turn, full: text }).next == state,
        state.handle(MsgView::LlmDone { turn, full: text }).actions.len() == 0,
        state.handle(MsgView::PlaybackStarted { turn }).next == state,
        state.handle(MsgView::PlaybackStarted { turn }).actions.len() == 0,
        state.handle(MsgView::SynthDone { turn }).next == state,
        state.handle(MsgView::SynthDone { turn }).actions.len() == 0,
{
}

/// Without a reply under way, chunks and first audio do nothing, whatever turn they are of.
pub proof fn law_output_without_a_reply(state: ControllerState, turn: u64, text: Seq<char>)
    requires
        state.valid(),
        turn != state.cur_turn || state.dialog.state == State::Idle || state.dialog.state
            == State::Listening,
    ensures
        state.handle(MsgView::Chunk { turn, text }).next == state,
        state.handle(MsgView::Chunk { turn, text }).actions.len() == 0,
        state.handle(MsgView::PlaybackStarted { turn }).next == state,
        state.handle(MsgView::PlaybackStarted { turn }).actions.len() == 0,
{
    lemma_event(state, EventView::SpeakableChunk { turn, text });
    lemma_event(state, EventView::PlaybackStarted { turn });
}

/// A false start makes the agent idle and changes nothing else.
pub proof fn law_false_start_only_idles(state: ControllerState, said: Seq<char>)
    requires
        state.valid(),
        state.dialog.state == State::Listening,
        forall|i: int| 0 <= i < said.len() ==> crate::text::white_space(#[trigger] said[i]),
    ensures
        state.handle(MsgView::Utterance(said)).next == (ControllerState {
            dialog: DialogState { state: State::Idle, turn: state.dialog.turn },
            last_state: State::Idle,
            ..state
        }),
        state.handle(MsgView::Utterance(said)).actions == seq![
            ActionView::Emit(UiEventView::State(crate::events::ConvState::Idle)),
        ],
{
    crate::text::law_blank(said);
    lemma_event(state, EventView::UserUtterance(said));
}

/// A reply without words leaves no trace: its turn ends, the agent is idle, and the history is
/// what it was.
pub proof fn law_silent_reply_leaves_no_trace(state: ControllerState)
    requires
        state.valid(),
        state.awaiting_drain,
        state.dialog.state == State::Thinking || state.dialog.state == State::Speaking,
        crate::text::trimmed(state.assistant_text).len() == 0,
    ensures
        state.check_drain(false).next == (ControllerState {
            dialog: DialogState { state: State::Idle, turn: state.dialog.turn },
            last_state: State::Idle,
            assistant_text: Seq::<char>::empty(),
            awaiting_drain: false,
            ..state
        }),
        state.check_drain(false).actions == seq![
            ActionView::Emit(UiEventView::State(crate::events::ConvState::Idle)),
        ],
{
    lemma_event(state, EventView::AssistantComplete { turn: state.cur_turn });
}

/// A controller starts idle, with the persona for its history and nothing under way.
pub proof fn law_controller_starts_idle(persona: Seq<char>, keep: int)
    ensures
        ({
            let start = ControllerState::start(persona, keep);
            &&& start.history == seq![TurnView { role: Role::System, text: persona }]
            &&& start.dialog.state == State::Idle
            &&& start.last_state == State::Idle
            &&& start.dialog.turn == 0
            &&& start.cur_turn == 0
            &&& start.history_keep == keep
            &&& start.pending_synth == 0
            &&& !start.llm_done
            &&& !start.awaiting_drain
            &&& start.assistant_text.len() == 0
        }),
{
}

/// A message is refused only where a count would not fit: of turns, or of pending chunks.
pub proof fn law_only_counts_run_out(state: ControllerState, msg: MsgView)
    requires
        state.dialog.turn < u64::MAX,
        i64::MIN < state.pending_synth < i64::MAX,
    ensures
        state.has_room_for(msg),
{
}

} // verus!
