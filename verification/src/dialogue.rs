//! Conversation history and the low-latency sentence chunker.
//!
//! [`Conversation`] is the message log that is handed to the language model.
//! [`SentenceChunker`] splits a streaming token feed into speakable chunks so the synthesizer
//! can start on the first phrase instead of waiting for the whole reply: the first chunk may
//! break early at a comma (lower time to first audio), later chunks break on sentence
//! terminators.

use crate::text::chars_of;
use crate::text::string_of;
use vstd::prelude::*;

verus! {

// ---------------------------------------------------------------------------
// Conversation history
// ---------------------------------------------------------------------------

/// Who produced a turn.
#[derive(Clone, Copy, PartialEq, Eq, Debug, Structural)]
pub enum Role {
    System,
    User,
    Assistant,
}

/// One message in the conversation.
#[derive(PartialEq, Eq, Debug)]
pub struct Turn {
    pub role: Role,
    pub text: String,
}

/// A message as a mathematical value.
#[verifier::ext_equal]
pub struct TurnView {
    pub role: Role,
    pub text: Seq<char>,
}

impl View for Turn {
    type V = TurnView;

    open spec fn view(&self) -> TurnView {
        TurnView { role: self.role, text: self.text@ }
    }
}

impl Clone for Turn {
    fn clone(&self) -> (copy: Self)
        ensures
            copy == *self,
    {
        Turn { role: self.role, text: self.text.clone() }
    }
}

/// The messages of a list as mathematical values.
pub open spec fn turn_views(turns: Seq<Turn>) -> Seq<TurnView> {
    Seq::new(turns.len(), |i: int| turns[i]@)
}

/// A copy of a list of messages.
pub fn copy_turns(turns: &[Turn]) -> (copy: Vec<Turn>)
    ensures
        copy@ == turns@,
{
    let mut copy: Vec<Turn> = Vec::new();
    let mut i: usize = 0;
    while i < turns.len()
        invariant
            i <= turns@.len(),
            copy@ == turns@.take(i as int),
        decreases turns.len() - i,
    {
        copy.push(turns[i].clone());
        i += 1;
        assert(turns@.take(i as int) == turns@.take(i - 1).push(turns@[i - 1]));
    }
    assert(turns@.take(i as int) == turns@);
    copy
}

/// A history that starts with the persona.
pub open spec fn opening(system: Seq<char>) -> Seq<TurnView> {
    seq![TurnView { role: Role::System, text: system }]
}

/// A history cut to its first turn and its last `n`.
pub open spec fn keep_last(turns: Seq<TurnView>, n: int) -> Seq<TurnView> {
    if turns.len() <= 1 + n {
        turns
    } else {
        turns.take(1) + turns.skip(turns.len() - n)
    }
}

/// The running conversation: a system turn followed by user and assistant turns.
#[derive(Debug)]
pub struct Conversation {
    turns: Vec<Turn>,
}

impl View for Conversation {
    type V = Seq<TurnView>;

    closed spec fn view(&self) -> Seq<TurnView> {
        turn_views(self.turns@)
    }
}

impl Clone for Conversation {
    fn clone(&self) -> (copy: Self)
        ensures
            copy@ == self@,
    {
        Conversation { turns: copy_turns(self.turns.as_slice()) }
    }
}

impl Conversation {
    /// Start a conversation with a system persona.
    pub fn new(system: &str) -> (conversation: Self)
        ensures
            conversation@ == opening(system@),
    {
        let mut turns: Vec<Turn> = Vec::new();
        turns.push(Turn { role: Role::System, text: system.to_string() });
        Conversation { turns }
    }

    pub fn add_user(&mut self, text: &str)
        ensures
            final(self)@ == old(self)@.push(TurnView { role: Role::User, text: text@ }),
    {
        let ghost before = self.turns@;
        self.turns.push(Turn { role: Role::User, text: text.to_string() });
        assert(turn_views(self.turns@) == turn_views(before).push(self.turns@.last()@));
    }

    pub fn add_assistant(&mut self, text: &str)
        ensures
            final(self)@ == old(self)@.push(TurnView { role: Role::Assistant, text: text@ }),
    {
        let ghost before = self.turns@;
        self.turns.push(Turn { role: Role::Assistant, text: text.to_string() });
        assert(turn_views(self.turns@) == turn_views(before).push(self.turns@.last()@));
    }

    pub fn turns(&self) -> (turns: &[Turn])
        ensures
            turn_views(turns@) == self@,
    {
        self.turns.as_slice()
    }

    /// Keep the system turn plus the most recent `n` turns (caps context and memory).
    pub fn truncate_keep_last(&mut self, n: usize)
        ensures
            final(self)@ == keep_last(old(self)@, n as int),
    {
        if self.turns.len() == 0 || self.turns.len() - 1 <= n {
            return;
        }
        let ghost before = self.turns@;
        let start: usize = self.turns.len() - n;
        let mut tail = self.turns.split_off(start);
        self.turns.truncate(1);  // keep only the system turn
        self.turns.append(&mut tail);
        assert(turn_views(self.turns@) == turn_views(before).take(1) + turn_views(before).skip(
            before.len() - n,
        ));
    }
}

/// The system turn stays first: it is what every history starts with, and neither adding a
/// turn nor cutting the history changes the first turn.
pub proof fn law_system_turn_stays_first(
    system: Seq<char>,
    turns: Seq<TurnView>,
    added: TurnView,
    n: int,
)
    requires
        turns.len() > 0,
        0 <= n,
    ensures
        opening(system)[0].role == Role::System,
        turns.push(added)[0] == turns[0],
        keep_last(turns, n).len() > 0,
        keep_last(turns, n)[0] == turns[0],
{
}

/// A cut history has at most the system turn and `n` others, and they are the latest, in
/// order; cutting it again changes nothing.
pub proof fn law_keep_last_is_bounded(turns: Seq<TurnView>, n: int)
    requires
        turns.len() > 0,
        0 <= n,
    ensures
        keep_last(turns, n).len() <= 1 + n,
        keep_last(turns, n).len() <= turns.len(),
        keep_last(turns, n).skip(1).is_suffix_of(turns),
        keep_last(keep_last(turns, n), n) == keep_last(turns, n),
{
    let kept = keep_last(turns, n);
    let rest = kept.skip(1);
    assert(rest == turns.skip(turns.len() - rest.len()));
}

// ---------------------------------------------------------------------------
// Sentence chunking
// ---------------------------------------------------------------------------

/// The characters that end a sentence.
pub open spec fn terminator(c: char) -> bool {
    c == '.' || c == '!' || c == '?' || c == '\n' || c == '…'
}

/// How many characters come before an early break at a comma, at least.
pub const MIN_FIRST: usize = 12;

/// May a chunk end with the character at `i`?
pub open spec fn breaks_at(text: Seq<char>, i: int, first_done: bool) -> bool {
    terminator(text[i]) || (!first_done && text[i] == ',' && i >= MIN_FIRST)
}

/// The first place from `from` on where a chunk may end; the length of the text if there is
/// none.
pub open spec fn first_break(text: Seq<char>, from: int, first_done: bool) -> int
    decreases text.len() - from,
{
    if from >= text.len() || breaks_at(text, from, first_done) {
        from
    } else {
        first_break(text, from + 1, first_done)
    }
}

/// A chunk as it is spoken: trimmed, and not at all if nothing is left.
pub open spec fn speakable(raw: Seq<char>) -> Option<Seq<char>> {
    if crate::text::blank(raw) {
        None
    } else {
        Some(crate::text::trimmed(raw))
    }
}

/// A chunker's state.
#[verifier::ext_equal]
pub struct ChunkerState {
    /// The text that no chunk has taken yet.
    pub buf: Seq<char>,
    /// Has the first chunk been taken?
    pub first_done: bool,
}

impl ChunkerState {
    /// Where a chunker starts.
    pub open spec fn start() -> ChunkerState {
        ChunkerState { buf: seq![], first_done: false }
    }

    /// How much of the text a push takes, out of what is there then.
    pub open spec fn takes(self, delta: Seq<char>) -> int {
        let all = self.buf + delta;
        let i = first_break(all, 0, self.first_done);
        if i < all.len() {
            i + 1
        } else {
            0
        }
    }

    /// The text that a push takes: up to and with the first break.
    pub open spec fn taken(self, delta: Seq<char>) -> Seq<char> {
        (self.buf + delta).take(self.takes(delta))
    }

    /// The state after a push.
    pub open spec fn push(self, delta: Seq<char>) -> ChunkerState {
        ChunkerState {
            buf: (self.buf + delta).skip(self.takes(delta)),
            first_done: self.first_done || self.takes(delta) > 0,
        }
    }

    /// The state after a flush.
    pub open spec fn flush(self) -> ChunkerState {
        ChunkerState { buf: seq![], first_done: true }
    }

    /// The state after several pushes.
    pub open spec fn push_all(self, deltas: Seq<Seq<char>>) -> ChunkerState
        decreases deltas.len(),
    {
        if deltas.len() == 0 {
            self
        } else {
            self.push_all(deltas.drop_last()).push(deltas.last())
        }
    }

    /// All the text that several pushes take.
    pub open spec fn taken_by_all(self, deltas: Seq<Seq<char>>) -> Seq<char>
        decreases deltas.len(),
    {
        if deltas.len() == 0 {
            seq![]
        } else {
            let front = deltas.drop_last();
            self.taken_by_all(front) + self.push_all(front).taken(deltas.last())
        }
    }
}

/// An optional string by its characters.
pub open spec fn optional_text(text: Option<String>) -> Option<Seq<char>> {
    match text {
        Some(text) => Some(text@),
        None => None,
    }
}

/// Splits a streaming token feed into speakable chunks.
///
/// The **first** chunk of a reply may break early at a comma once `MIN_FIRST` characters
/// precede it, to minimize time to first audio. After the first chunk, breaks happen only at
/// sentence terminators. Call [`SentenceChunker::flush`] at end of stream to emit any
/// trailing partial sentence.
#[derive(Debug)]
pub struct SentenceChunker {
    buf: String,
    first_done: bool,
}

impl View for SentenceChunker {
    type V = ChunkerState;

    closed spec fn view(&self) -> ChunkerState {
        ChunkerState { buf: self.buf@, first_done: self.first_done }
    }
}

impl Default for SentenceChunker {
    fn default() -> (chunker: Self)
        ensures
            chunker@ == ChunkerState::start(),
    {
        SentenceChunker { buf: String::new(), first_done: false }
    }
}

impl SentenceChunker {
    pub fn new() -> (chunker: Self)
        ensures
            chunker@ == ChunkerState::start(),
    {
        SentenceChunker::default()
    }

    /// Feed a token/delta. Returns a speakable chunk if a break point was reached.
    pub fn push(&mut self, delta: &str) -> (chunk: Option<String>)
        ensures
            final(self)@ == old(self)@.push(delta@),
            optional_text(chunk) == speakable(old(self)@.taken(delta@)),
    {
        let ghost begin = self@;
        self.buf.append(delta);
        let chars = chars_of(self.buf.as_str());
        assert(chars@ == begin.buf + delta@);
        let end: usize = find_break(&chars, self.first_done);
        if end == chars.len() {
            proof {
                assert(chars@.skip(0) == chars@);
                assert(begin.taken(delta@) == Seq::<char>::empty());
                crate::text::law_blank(Seq::<char>::empty());
            }
            return None;
        }
        self.take_through(&chars, end + 1)
    }

    /// Emit any remaining buffered text as a final chunk (end of stream).
    pub fn flush(&mut self) -> (chunk: Option<String>)
        ensures
            final(self)@ == old(self)@.flush(),
            optional_text(chunk) == speakable(old(self)@.buf),
    {
        let mut rest = String::new();
        std::mem::swap(&mut rest, &mut self.buf);
        self.first_done = true;
        spoken(rest.as_str())
    }

    /// Take the first `end` characters as a chunk; `chars` are those of the buffer.
    fn take_through(&mut self, chars: &Vec<char>, end: usize) -> (chunk: Option<String>)
        requires
            chars@ == old(self)@.buf,
            end <= chars@.len(),
        ensures
            final(self)@ == (ChunkerState {
                buf: old(self)@.buf.skip(end as int),
                first_done: true,
            }),
            optional_text(chunk) == speakable(old(self)@.buf.take(end as int)),
    {
        let chunk = string_of(chars, 0, end);
        self.buf = string_of(chars, end, chars.len());
        self.first_done = true;
        assert(chars@.subrange(0, end as int) == chars@.take(end as int));
        assert(chars@.subrange(end as int, chars@.len() as int) == chars@.skip(end as int));
        spoken(chunk.as_str())
    }
}

/// The first place where a chunk may end; the length of the text if there is none.
fn find_break(chars: &Vec<char>, first_done: bool) -> (i: usize)
    ensures
        i == first_break(chars@, 0, first_done),
        i <= chars@.len(),
{
    let mut i: usize = 0;
    while i < chars.len() && !(is_terminator(chars[i]) || (!first_done && chars[i] == ',' && i
        >= MIN_FIRST))
        invariant
            i <= chars@.len(),
            first_break(chars@, 0, first_done) == first_break(chars@, i as int, first_done),
        decreases chars.len() - i,
    {
        i += 1;
    }
    i
}

fn is_terminator(c: char) -> (answer: bool)
    ensures
        answer == terminator(c),
{
    c == '.' || c == '!' || c == '?' || c == '\n' || c == '…'
}

/// A chunk as it is spoken: trimmed, and not at all if nothing is left.
fn spoken(raw: &str) -> (chunk: Option<String>)
    ensures
        optional_text(chunk) == speakable(raw@),
{
    let text = raw.trim();
    if text.is_empty() {
        None
    } else {
        Some(text.to_string())
    }
}

// ---------------------------------------------------------------------------
// Laws
// ---------------------------------------------------------------------------

proof fn lemma_first_break(text: Seq<char>, from: int, first_done: bool)
    requires
        0 <= from <= text.len(),
    ensures
        from <= first_break(text, from, first_done) <= text.len(),
        first_break(text, from, first_done) < text.len() ==> breaks_at(
            text,
            first_break(text, from, first_done),
            first_done,
        ),
        forall|i: int|
            from <= i < first_break(text, from, first_done) ==> !#[trigger] breaks_at(
                text,
                i,
                first_done,
            ),
    decreases text.len() - from,
{
    if from >= text.len() || breaks_at(text, from, first_done) {
    } else {
        lemma_first_break(text, from + 1, first_done);
    }
}

/// The deltas one after the other.
pub open spec fn whole(deltas: Seq<Seq<char>>) -> Seq<char>
    decreases deltas.len(),
{
    if deltas.len() == 0 {
        seq![]
    } else {
        whole(deltas.drop_last()) + deltas.last()
    }
}

/// No text is lost, repeated or reordered: what a run of pushes takes, followed by what is
/// still buffered (and a flush will take), is the text that was fed.
pub proof fn law_chunks_are_the_text(deltas: Seq<Seq<char>>)
    ensures
        ChunkerState::start().taken_by_all(deltas) + ChunkerState::start().push_all(deltas).buf
            == whole(deltas),
    decreases deltas.len(),
{
    let start = ChunkerState::start();
    if deltas.len() > 0 {
        let front = deltas.drop_last();
        law_chunks_are_the_text(front);
        let mid = start.push_all(front);
        let delta = deltas.last();
        let all = mid.buf + delta;
        lemma_first_break(all, 0, mid.first_done);
        assert(mid.taken(delta) + mid.push(delta).buf == all);
        assert(start.taken_by_all(deltas) + start.push_all(deltas).buf == start.taken_by_all(front)
            + all);
    }
}

/// A chunk that a push takes ends where it first may: with a terminator, or, for the first
/// chunk, with a comma that enough characters precede; and nowhere before that.
pub proof fn law_chunk_ends_at_first_break(chunker: ChunkerState, delta: Seq<char>)
    requires
        chunker.takes(delta) > 0,
    ensures
        ({
            let raw = chunker.taken(delta);
            &&& raw.len() > 0
            &&& terminator(raw.last()) || (!chunker.first_done && raw.last() == ',' && raw.len()
                > MIN_FIRST)
            &&& forall|i: int| 0 <= i < raw.len() - 1 ==> !terminator(#[trigger] raw[i])
        }),
{
    let all = chunker.buf + delta;
    lemma_first_break(all, 0, chunker.first_done);
    let raw = chunker.taken(delta);
    assert forall|i: int| 0 <= i < raw.len() - 1 implies !terminator(#[trigger] raw[i]) by {
        assert(!breaks_at(all, i, chunker.first_done));
    }
}

/// After the first chunk a comma never breaks: every later chunk that a push takes ends with
/// a terminator.
pub proof fn law_later_chunks_end_sentences(chunker: ChunkerState, delta: Seq<char>)
    requires
        chunker.first_done,
        chunker.takes(delta) > 0,
    ensures
        terminator(chunker.taken(delta).last()),
        chunker.push(delta).first_done,
{
    law_chunk_ends_at_first_break(chunker, delta);
}

/// What is spoken is the text that was taken, but for white space at its two ends; what is
/// not spoken is white space only.
pub proof fn law_silent_chunks_are_blank(raw: Seq<char>)
    ensures
        speakable(raw) is None <==> forall|i: int|
            0 <= i < raw.len() ==> crate::text::white_space(#[trigger] raw[i]),
        speakable(raw) matches Some(text) ==> text == crate::text::trimmed(raw) && text.len() > 0,
{
    crate::text::law_blank(raw);
}

/// A chunk is taken exactly when the text has a place to break: a full stop, an exclamation or
/// question mark, a line end, an ellipsis, or, before the first chunk, a comma that at least
/// twelve characters precede. It then runs through the first such place.
pub proof fn law_chunk_runs_through_the_first_break(chunker: ChunkerState, delta: Seq<char>, i: int)
    requires
        0 <= i < chunker.buf.len() + delta.len(),
    ensures
        ({
            let all = chunker.buf + delta;
            let c = all[i];
            let raw = chunker.taken(delta);
            let breaks = c == '.' || c == '!' || c == '?' || c == '\n' || c == '…' || (c == ','
                && i >= 12 && !chunker.first_done);
            &&& raw + chunker.push(delta).buf == all
            &&& breaks ==> 0 < raw.len() <= i + 1
            &&& raw.len() == i + 1 ==> breaks
        }),
{
    let all = chunker.buf + delta;
    lemma_first_break(all, 0, chunker.first_done);
    let k = first_break(all, 0, chunker.first_done);
    assert(chunker.taken(delta) + chunker.push(delta).buf =~= all);
    if breaks_at(all, i, chunker.first_done) {
        assert(k <= i);
    }
}

/// Any chunk that is taken, wherever it ends, is the first chunk's end: from then on only the
/// end of a sentence breaks. Until a chunk is taken, and in no other way, the first one is
/// still to come; a flush ends it too, and leaves nothing.
pub proof fn law_first_chunk_is_over_once_taken(chunker: ChunkerState, delta: Seq<char>)
    ensures
        chunker.push(delta).first_done <==> chunker.first_done || chunker.taken(delta).len() > 0,
        chunker.taken(delta).len() == 0 ==> chunker.push(delta).buf == chunker.buf + delta,
        chunker.flush().first_done,
        chunker.flush().buf.len() == 0,
        !ChunkerState::start().first_done,
        ChunkerState::start().buf.len() == 0,
{
    let all = chunker.buf + delta;
    lemma_first_break(all, 0, chunker.first_done);
    if chunker.taken(delta).len() == 0 {
        assert(all.skip(0) =~= all);
    }
}

/// In a whole reply only the first chunk may end with a comma: once a push has taken one, every
/// chunk that a later push takes ends with a full stop, an exclamation or question mark, a line
/// end or an ellipsis.
pub proof fn law_only_the_first_chunk_is_early(
    chunker: ChunkerState,
    delta: Seq<char>,
    between: Seq<Seq<char>>,
    later: Seq<char>,
)
    requires
        chunker.taken(delta).len() > 0,
        chunker.push(delta).push_all(between).taken(later).len() > 0,
    ensures
        ({
            let end = chunker.push(delta).push_all(between).taken(later).last();
            end == '.' || end == '!' || end == '?' || end == '\n' || end == '…'
        }),
{
    law_first_chunk_is_over_once_taken(chunker, delta);
    lemma_first_done_stays(chunker.push(delta), between);
    let mid = chunker.push(delta).push_all(between);
    let n = mid.taken(later).len() as int;
    lemma_first_break(mid.buf + later, 0, mid.first_done);
    law_chunk_runs_through_the_first_break(mid, later, n - 1);
}

proof fn lemma_first_done_stays(chunker: ChunkerState, deltas: Seq<Seq<char>>)
    requires
        chunker.first_done,
    ensures
        chunker.push_all(deltas).first_done,
    decreases deltas.len(),
{
    if deltas.len() > 0 {
        lemma_first_done_stays(chunker, deltas.drop_last());
    }
}

/// A cut history is the first turn and the latest others, as many as there are and are to be
/// kept: its last turns are the last turns, one by one.
pub proof fn law_keep_last_keeps_the_latest(turns: Seq<TurnView>, n: int, i: int)
    requires
        turns.len() > 0,
        0 <= n,
        0 <= i < keep_last(turns, n).len(),
    ensures
        keep_last(turns, n).len() == if turns.len() <= 1 + n {
            turns.len() as int
        } else {
            1 + n
        },
        keep_last(turns, n)[0] == turns[0],
        i > 0 ==> keep_last(turns, n)[i] == turns[turns.len() - keep_last(turns, n).len() + i],
{
}

/// A chunk is spoken without the white space around it, and not at all if it is nothing else.
pub proof fn law_chunks_are_spoken_trimmed(raw: Seq<char>)
    ensures
        speakable(raw) is None <==> forall|i: int|
            0 <= i < raw.len() ==> crate::text::white_space(#[trigger] raw[i]),
        speakable(raw) matches Some(text) ==> text == crate::text::trimmed(raw) && text.len() > 0,
{
    crate::text::law_blank(raw);
}

/// A flush leaves nothing to speak, and the first chunk is over.
pub proof fn law_flush_leaves_nothing(chunker: ChunkerState)
    ensures
        chunker.flush().buf.len() == 0,
        chunker.flush().first_done,
        ChunkerState::start().buf.len() == 0,
        !ChunkerState::start().first_done,
{
}

} // verus!
