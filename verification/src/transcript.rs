//! What flows to the UI: a streaming **delta** event ([`TranscriptUpdate`]) plus a pure
//! accumulator ([`TranscriptView`]) that the UI applies it to. Emitting deltas (not the whole
//! transcript) keeps per-step cost proportional to new words, so hour-long sessions stay
//! cheap.

use crate::stabilize::StabilizerState;
use crate::word::copy_words;
use crate::word::join_words;
use crate::word::Word;
use crate::word::WordView;
use vstd::prelude::*;

verus! {

/// A streaming transcript event for one source.
#[derive(Debug, PartialEq)]
pub struct TranscriptUpdate {
    /// Short human label for the source, e.g. "Mic" or "System".
    pub source: String,
    /// Words promoted to committed since the last update (final).
    pub newly_committed: Vec<Word>,
    /// The current volatile tail (replaces the previous tail; may change again).
    pub volatile: Vec<Word>,
}

/// An update as a mathematical value.
#[verifier::ext_equal]
pub struct UpdateView {
    pub source: Seq<char>,
    pub newly_committed: Seq<WordView>,
    pub volatile: Seq<WordView>,
}

impl View for TranscriptUpdate {
    type V = UpdateView;

    open spec fn view(&self) -> UpdateView {
        UpdateView {
            source: self.source@,
            newly_committed: crate::word::word_views(self.newly_committed@),
            volatile: crate::word::word_views(self.volatile@),
        }
    }
}

impl Default for TranscriptUpdate {
    fn default() -> (update: Self)
        ensures
            update@ == (UpdateView { source: seq![], newly_committed: seq![], volatile: seq![] }),
    {
        TranscriptUpdate {
            source: String::new(),
            newly_committed: Vec::new(),
            volatile: Vec::new(),
        }
    }
}

impl Clone for TranscriptUpdate {
    fn clone(&self) -> (copy: Self)
        ensures
            copy@ == self@,
    {
        TranscriptUpdate {
            source: self.source.clone(),
            newly_committed: copy_words(&self.newly_committed),
            volatile: copy_words(&self.volatile),
        }
    }
}

/// The accumulated transcript for one source, built by applying updates in order.
#[derive(Debug, PartialEq)]
pub struct TranscriptView {
    pub committed: Vec<Word>,
    pub volatile: Vec<Word>,
}

/// A transcript as a mathematical value.
#[verifier::ext_equal]
pub struct Transcript {
    pub committed: Seq<WordView>,
    pub volatile: Seq<WordView>,
}

impl Transcript {
    /// The transcript before any update.
    pub open spec fn blank() -> Transcript {
        Transcript { committed: seq![], volatile: seq![] }
    }

    /// The transcript after one update: the new words appended, the tail replaced.
    pub open spec fn apply(self, update: UpdateView) -> Transcript {
        Transcript {
            committed: self.committed + update.newly_committed,
            volatile: update.volatile,
        }
    }

    /// The transcript after several updates.
    pub open spec fn apply_all(self, updates: Seq<UpdateView>) -> Transcript
        decreases updates.len(),
    {
        if updates.len() == 0 {
            self
        } else {
            self.apply_all(updates.drop_last()).apply(updates.last())
        }
    }

    /// What is visually on screen.
    pub open spec fn on_screen(self) -> Seq<char> {
        let stable = crate::word::displayed(self.committed);
        let tail = crate::word::displayed(self.volatile);
        if stable.len() == 0 {
            tail
        } else if tail.len() == 0 {
            stable
        } else {
            stable + seq![' '] + tail
        }
    }
}

impl View for TranscriptView {
    type V = Transcript;

    open spec fn view(&self) -> Transcript {
        Transcript {
            committed: crate::word::word_views(self.committed@),
            volatile: crate::word::word_views(self.volatile@),
        }
    }
}

impl Default for TranscriptView {
    fn default() -> (view: Self)
        ensures
            view@ == Transcript::blank(),
    {
        TranscriptView { committed: Vec::new(), volatile: Vec::new() }
    }
}

impl Clone for TranscriptView {
    fn clone(&self) -> (copy: Self)
        ensures
            copy@ == self@,
    {
        TranscriptView {
            committed: copy_words(&self.committed),
            volatile: copy_words(&self.volatile),
        }
    }
}

impl TranscriptView {
    /// Fold in one update: append the newly-committed words, replace the tail.
    pub fn apply(&mut self, update: &TranscriptUpdate)
        ensures
            final(self)@ == old(self)@.apply(update@),
    {
        let ghost before = self.committed@;
        let mut more = copy_words(&update.newly_committed);
        self.committed.append(&mut more);
        self.volatile = copy_words(&update.volatile);
        assert(crate::word::word_views(self.committed@) == crate::word::word_views(before)
            + crate::word::word_views(update.newly_committed@));
    }

    /// Stable text only.
    pub fn committed_text(&self) -> (text: String)
        ensures
            text@ == crate::word::displayed(self@.committed),
    {
        join_words(self.committed.as_slice())
    }

    /// Committed + volatile tail (what's visually on screen).
    pub fn full_text(&self) -> (text: String)
        ensures
            text@ == self@.on_screen(),
    {
        let c = self.committed_text();
        let v = join_words(self.volatile.as_slice());
        if c.as_str().is_empty() {
            v
        } else if v.as_str().is_empty() {
            c
        } else {
            let mut text = c;
            text.push(' ');
            text.append(v.as_str());
            text
        }
    }

    pub fn is_empty(&self) -> (answer: bool)
        ensures
            answer == (self@.committed.len() == 0 && self@.volatile.len() == 0),
    {
        self.committed.len() == 0 && self.volatile.len() == 0
    }
}

/// The update that tells of one hypothesis: what it committed and what it left volatile.
pub open spec fn update_of(
    source: Seq<char>,
    state: StabilizerState,
    words: Seq<WordView>,
) -> UpdateView {
    UpdateView {
        source,
        newly_committed: state.newly(words),
        volatile: state.observe(words).tail,
    }
}

/// The updates that tell of a run of hypotheses.
pub open spec fn updates_of(
    source: Seq<char>,
    state: StabilizerState,
    hypotheses: Seq<Seq<WordView>>,
) -> Seq<UpdateView>
    decreases hypotheses.len(),
{
    if hypotheses.len() == 0 {
        seq![]
    } else {
        let front = hypotheses.drop_last();
        updates_of(source, state, front).push(
            update_of(source, state.observe_all(front), hypotheses.last()),
        )
    }
}

/// Deltas add up: a view that applies the updates of a run of hypotheses, in order, shows
/// exactly what the stabilizer holds at the end, committed words and tail.
pub proof fn law_updates_replay(
    source: Seq<char>,
    state: StabilizerState,
    hypotheses: Seq<Seq<WordView>>,
)
    ensures
        ({
            let shown = (Transcript { committed: state.committed, volatile: state.tail }).apply_all(
                updates_of(source, state, hypotheses),
            );
            let end = state.observe_all(hypotheses);
            shown.committed == end.committed && shown.volatile == end.tail
        }),
    decreases hypotheses.len(),
{
    if hypotheses.len() > 0 {
        let front = hypotheses.drop_last();
        law_updates_replay(source, state, front);
        let updates = updates_of(source, state, hypotheses);
        assert(updates.drop_last() == updates_of(source, state, front));
        crate::stabilize::law_committed_is_append_only(
            state.observe_all(front),
            hypotheses.last(),
        );
    }
}

/// Updates only ever append to the committed part.
pub proof fn law_committed_only_grows(view: Transcript, updates: Seq<UpdateView>)
    ensures
        view.committed.is_prefix_of(view.apply_all(updates).committed),
    decreases updates.len(),
{
    if updates.len() > 0 {
        law_committed_only_grows(view, updates.drop_last());
        let mid = view.apply_all(updates.drop_last()).committed;
        let end = view.apply_all(updates).committed;
        let n = view.committed.len() as int;
        assert(end.take(n) == mid.take(n));
    }
}

/// An update appends what it commits and replaces the tail: applied one after the other,
/// updates append one after the other, and the last tail stays.
pub proof fn law_update_appends_and_replaces(view: Transcript, update: UpdateView)
    ensures
        view.apply(update).committed == view.committed + update.newly_committed,
        view.apply(update).volatile == update.volatile,
        Transcript::blank().committed.len() == 0,
        Transcript::blank().volatile.len() == 0,
{
}

/// The screen shows all the words in one line, the committed ones first, as long as no word is
/// empty.
pub proof fn law_screen_shows_all_words(view: Transcript)
    requires
        forall|i: int|
            0 <= i < view.committed.len() ==> (#[trigger] view.committed[i]).text.len() > 0,
        forall|i: int|
            0 <= i < view.volatile.len() ==> (#[trigger] view.volatile[i]).text.len() > 0,
    ensures
        view.on_screen() == crate::word::displayed(view.committed + view.volatile),
{
    crate::word::law_words_are_spaced(view.committed, view.volatile);
    crate::word::law_words_are_spaced(view.volatile, view.committed);
    if view.committed.len() > 0 {
        crate::word::lemma_displayed_some(view.committed);
    }
    if view.volatile.len() > 0 {
        crate::word::lemma_displayed_some(view.volatile);
    }
    if view.committed.len() == 0 {
        assert(view.committed + view.volatile =~= view.volatile);
    }
    if view.volatile.len() == 0 {
        assert(view.committed + view.volatile =~= view.committed);
    }
}

/// An update says what a hypothesis changes: what it commits is just what the committed words
/// grow by, and its tail is the tail that is left.
pub proof fn law_update_tells_the_change(
    source: Seq<char>,
    state: StabilizerState,
    words: Seq<WordView>,
)
    ensures
        ({
            let update = update_of(source, state, words);
            &&& update.source == source
            &&& state.observe(words).committed == state.committed + update.newly_committed
            &&& update.volatile == state.observe(words).tail
        }),
{
    crate::stabilize::law_committed_is_append_only(state, words);
}

} // verus!
