//! LocalAgreement-2 word stabilization.
//!
//! The transcriber is a batch model; streaming comes from transcribing an overlapping
//! window again at each step and only **committing** words once two consecutive hypotheses
//! agree on them. Committed words never change; the unconfirmed tail is "volatile" and may
//! be revised at the next step. Words carry timestamps, so the audio buffer can be trimmed
//! at committed boundaries.
//!
//! Inputs are **absolute-time** [`Word`]s.

use crate::word::copy_words;
use crate::word::Word;
use crate::word::WordView;
use vstd::prelude::*;

verus! {

/// Result of feeding one hypothesis.
#[derive(Debug, PartialEq)]
pub struct StabilizeOutcome {
    /// Words promoted to "committed" this step (final, never revised).
    pub newly_committed: Vec<Word>,
    /// The current volatile tail (shown dimmer; may change next step).
    pub volatile: Vec<Word>,
    /// Absolute centisecond end-time of the last committed word: the audio buffer may be
    /// trimmed up to here.
    pub committed_up_to_cs: u32,
}

/// An outcome as a mathematical value.
#[verifier::ext_equal]
pub struct OutcomeView {
    pub newly_committed: Seq<WordView>,
    pub volatile: Seq<WordView>,
    pub committed_up_to_cs: u32,
}

impl View for StabilizeOutcome {
    type V = OutcomeView;

    open spec fn view(&self) -> OutcomeView {
        OutcomeView {
            newly_committed: crate::word::word_views(self.newly_committed@),
            volatile: crate::word::word_views(self.volatile@),
            committed_up_to_cs: self.committed_up_to_cs,
        }
    }
}

impl Clone for StabilizeOutcome {
    fn clone(&self) -> (copy: Self)
        ensures
            copy@ == self@,
    {
        StabilizeOutcome {
            newly_committed: copy_words(&self.newly_committed),
            volatile: copy_words(&self.volatile),
            committed_up_to_cs: self.committed_up_to_cs,
        }
    }
}

// ---------------------------------------------------------------------------
// The policy
// ---------------------------------------------------------------------------

/// A stabilizer's state.
#[verifier::ext_equal]
pub struct StabilizerState {
    /// Everything committed so far.
    pub committed: Seq<WordView>,
    /// What the latest hypothesis left uncommitted.
    pub tail: Seq<WordView>,
    /// The end of the last committed word.
    pub last_committed_cs: u32,
    /// The longest run of repeated boundary words that is looked for.
    pub max_overlap: nat,
}

/// Do the two runs have the same keys, one by one?
pub open spec fn same_keys(a: Seq<WordView>, b: Seq<WordView>) -> bool {
    a.len() == b.len() && forall|i: int| 0 <= i < a.len() ==> (#[trigger] a[i]).key() == b[i].key()
}

/// How many words at the start of both runs have equal keys.
pub open spec fn agreement(a: Seq<WordView>, b: Seq<WordView>) -> nat
    decreases a.len(),
{
    if a.len() > 0 && b.len() > 0 && a[0].key() == b[0].key() {
        1 + agreement(a.drop_first(), b.drop_first())
    } else {
        0
    }
}

/// Do the last `n` words of `committed` come again as the first `n` of `fresh`?
pub open spec fn repeats(committed: Seq<WordView>, fresh: Seq<WordView>, n: int) -> bool {
    same_keys(committed.skip(committed.len() - n), fresh.take(n))
}

/// The largest `n` up to `max` such that the last `n` words of `committed` come again as the
/// first `n` of `fresh`; zero if there is none.
pub open spec fn overlap(committed: Seq<WordView>, fresh: Seq<WordView>, max: nat) -> nat
    decreases max,
{
    if max == 0 {
        0
    } else if max <= committed.len() && max <= fresh.len() && repeats(
        committed,
        fresh,
        max as int,
    ) {
        max
    } else {
        overlap(committed, fresh, (max - 1) as nat)
    }
}

/// The words that end later than `last_cs`.
pub open spec fn later_than(words: Seq<WordView>, last_cs: u32) -> Seq<WordView> {
    words.filter(|w: WordView| w.t1_cs > last_cs)
}

impl StabilizerState {
    /// Where a stabilizer starts.
    pub open spec fn start() -> StabilizerState {
        StabilizerState {
            committed: seq![],
            tail: seq![],
            last_committed_cs: 0,
            max_overlap: 5,
        }
    }

    /// What a hypothesis says that is not committed yet: its words that end after the last
    /// committed one, without the boundary words that it repeats.
    pub open spec fn fresh(self, words: Seq<WordView>) -> Seq<WordView> {
        let later = later_than(words, self.last_committed_cs);
        later.skip(overlap(self.committed, later, self.max_overlap) as int)
    }

    /// The words that a hypothesis commits: those on which it agrees with the one before.
    pub open spec fn agreed(self, words: Seq<WordView>) -> Seq<WordView> {
        self.fresh(words).take(agreement(self.tail, self.fresh(words)) as int)
    }

    /// The state with `words` committed and `tail` volatile.
    pub open spec fn with(self, words: Seq<WordView>, tail: Seq<WordView>) -> StabilizerState {
        StabilizerState {
            committed: self.committed + words,
            tail,
            last_committed_cs: if words.len() > 0 {
                words.last().t1_cs
            } else {
                self.last_committed_cs
            },
            max_overlap: self.max_overlap,
        }
    }

    /// The state after a hypothesis. One that says nothing new leaves the state as it is.
    pub open spec fn observe(self, words: Seq<WordView>) -> StabilizerState {
        if later_than(words, self.last_committed_cs).len() == 0 {
            self
        } else {
            let agreed = self.agreed(words);
            self.with(agreed, self.fresh(words).skip(agreed.len() as int))
        }
    }

    /// What a hypothesis newly commits.
    pub open spec fn newly(self, words: Seq<WordView>) -> Seq<WordView> {
        if later_than(words, self.last_committed_cs).len() == 0 {
            seq![]
        } else {
            self.agreed(words)
        }
    }

    /// The state after the whole tail has been committed.
    pub open spec fn flush(self) -> StabilizerState {
        self.with(self.tail, seq![])
    }

    /// The state after several hypotheses.
    pub open spec fn observe_all(self, hypotheses: Seq<Seq<WordView>>) -> StabilizerState
        decreases hypotheses.len(),
    {
        if hypotheses.len() == 0 {
            self
        } else {
            self.observe_all(hypotheses.drop_last()).observe(hypotheses.last())
        }
    }
}

// ---------------------------------------------------------------------------
// The stabilizer
// ---------------------------------------------------------------------------

/// Accumulates committed words and stabilizes via two-window agreement.
#[derive(Debug)]
pub struct Stabilizer {
    committed: Vec<Word>,
    /// The previous hypothesis's uncommitted tail (absolute time).
    prev_tail: Vec<Word>,
    last_committed_cs: u32,
    max_overlap_ngram: usize,
}

impl View for Stabilizer {
    type V = StabilizerState;

    closed spec fn view(&self) -> StabilizerState {
        StabilizerState {
            committed: crate::word::word_views(self.committed@),
            tail: crate::word::word_views(self.prev_tail@),
            last_committed_cs: self.last_committed_cs,
            max_overlap: self.max_overlap_ngram as nat,
        }
    }
}

impl Default for Stabilizer {
    fn default() -> (stabilizer: Self)
        ensures
            stabilizer@ == StabilizerState::start(),
    {
        Stabilizer {
            committed: Vec::new(),
            prev_tail: Vec::new(),
            last_committed_cs: 0,
            max_overlap_ngram: 5,
        }
    }
}

impl Clone for Stabilizer {
    fn clone(&self) -> (copy: Self)
        ensures
            copy@ == self@,
    {
        Stabilizer {
            committed: copy_words(&self.committed),
            prev_tail: copy_words(&self.prev_tail),
            last_committed_cs: self.last_committed_cs,
            max_overlap_ngram: self.max_overlap_ngram,
        }
    }
}

impl Stabilizer {
    pub fn new() -> (stabilizer: Self)
        ensures
            stabilizer@ == StabilizerState::start(),
    {
        Stabilizer::default()
    }

    /// Full committed transcript so far.
    pub fn committed(&self) -> (words: &[Word])
        ensures
            crate::word::word_views(words@) == self@.committed,
    {
        self.committed.as_slice()
    }

    pub fn last_committed_cs(&self) -> (cs: u32)
        ensures
            cs == self@.last_committed_cs,
    {
        self.last_committed_cs
    }

    /// Feed the latest window hypothesis (absolute-time words). Returns what was newly
    /// committed and the current volatile tail.
    pub fn observe(&mut self, words: Vec<Word>) -> (outcome: StabilizeOutcome)
        ensures
            final(self)@ == old(self)@.observe(crate::word::word_views(words@)),
            outcome@ == (OutcomeView {
                newly_committed: old(self)@.newly(crate::word::word_views(words@)),
                volatile: final(self)@.tail,
                committed_up_to_cs: final(self)@.last_committed_cs,
            }),
    {
        let ghost said = crate::word::word_views(words@);
        // Words that end at or before the last committed time are already final.
        let mut new = keep_later(&words, self.last_committed_cs);

        // An empty hypothesis carries no agreement information: a silent window must not
        // erase the words still pending from the previous one.
        if new.len() == 0 {
            return StabilizeOutcome {
                newly_committed: Vec::new(),
                volatile: copy_words(&self.prev_tail),
                committed_up_to_cs: self.last_committed_cs,
            };
        }
        // If the head repeats the tail of the committed transcript, drop it.

        self.strip_committed_overlap(&mut new);
        assert(crate::word::word_views(new@) == self@.fresh(said));

        // Commit the longest prefix on which the two hypotheses agree.
        let n: usize = common_prefix_len(&self.prev_tail, &new);
        let ghost fresh = new@;
        let tail = new.split_off(n);
        let newly = new;
        if newly.len() > 0 {
            self.last_committed_cs = newly[newly.len() - 1].t1_cs;
        }
        let ghost before = self.committed@;
        let mut more = copy_words(&newly);
        self.committed.append(&mut more);
        let volatile = copy_words(&tail);
        self.prev_tail = tail;
        proof {
            let all = crate::word::word_views(fresh);
            assert(crate::word::word_views(newly@) == all.take(n as int));
            assert(crate::word::word_views(tail@) == all.skip(n as int));
            assert(crate::word::word_views(self.committed@) == crate::word::word_views(before)
                + crate::word::word_views(newly@));
        }
        StabilizeOutcome {
            newly_committed: newly,
            volatile,
            committed_up_to_cs: self.last_committed_cs,
        }
    }

    /// Commit the entire volatile tail (call on utterance end or stop). Returns the flushed
    /// words.
    pub fn flush(&mut self) -> (flushed: Vec<Word>)
        ensures
            crate::word::word_views(flushed@) == old(self)@.tail,
            final(self)@ == old(self)@.flush(),
    {
        let mut flushed: Vec<Word> = Vec::new();
        std::mem::swap(&mut flushed, &mut self.prev_tail);
        if flushed.len() > 0 {
            self.last_committed_cs = flushed[flushed.len() - 1].t1_cs;
        }
        let ghost before = self.committed@;
        let mut more = copy_words(&flushed);
        self.committed.append(&mut more);
        proof {
            assert(crate::word::word_views(self.committed@) == crate::word::word_views(before)
                + crate::word::word_views(flushed@));
        }
        flushed
    }

    /// Drop from the head of `new` the longest run (up to the limit) that repeats the
    /// committed tail by key.
    fn strip_committed_overlap(&self, new: &mut Vec<Word>)
        ensures
            crate::word::word_views(final(new)@) == crate::word::word_views(old(new)@).skip(
                overlap(
                    self@.committed,
                    crate::word::word_views(old(new)@),
                    self@.max_overlap,
                ) as int,
            ),
    {
        let ghost committed = self@.committed;
        let ghost fresh = crate::word::word_views(new@);
        let mut n: usize = self.max_overlap_ngram;
        // Longer runs than either side has cannot repeat.
        while n > 0 && !(n <= self.committed.len() && n <= new.len() && keys_equal(
            &self.committed,
            self.committed.len() - n,
            new,
            n,
        ))
            invariant
                n <= self.max_overlap_ngram,
                committed == self@.committed,
                fresh == crate::word::word_views(new@),
                committed.len() == self.committed@.len(),
                fresh.len() == new@.len(),
                overlap(committed, fresh, self.max_overlap_ngram as nat) == overlap(
                    committed,
                    fresh,
                    n as nat,
                ),
            decreases n,
        {
            n -= 1;
        }
        let ghost whole = new@;
        if n > 0 {
            let rest = new.split_off(n);
            *new = rest;
        }
        assert(crate::word::word_views(new@) == fresh.skip(n as int));
    }
}

/// The words that end later than `last_cs`.
fn keep_later(words: &Vec<Word>, last_cs: u32) -> (kept: Vec<Word>)
    ensures
        crate::word::word_views(kept@) == later_than(crate::word::word_views(words@), last_cs),
{
    let ghost all = crate::word::word_views(words@);
    let ghost late = |w: WordView| w.t1_cs > last_cs;
    let mut kept: Vec<Word> = Vec::new();
    let mut i: usize = 0;
    assert(all.take(0).filter(late) == Seq::<WordView>::empty()) by {
        reveal(Seq::filter);
    }
    while i < words.len()
        invariant
            i <= words@.len(),
            all == crate::word::word_views(words@),
            late == (|w: WordView| w.t1_cs > last_cs),
            crate::word::word_views(kept@) == all.take(i as int).filter(late),
        decreases words.len() - i,
    {
        let ghost before = kept@;
        if words[i].t1_cs > last_cs {
            kept.push(words[i].clone());
            assert(crate::word::word_views(kept@) == crate::word::word_views(before).push(
                all[i as int],
            ));
        }
        proof {
            reveal(Seq::filter);
            assert(all.take(i + 1).drop_last() == all.take(i as int));
        }
        i += 1;
    }
    assert(all.take(i as int) == all);
    kept
}

fn common_prefix_len(a: &Vec<Word>, b: &Vec<Word>) -> (n: usize)
    ensures
        n == agreement(crate::word::word_views(a@), crate::word::word_views(b@)),
        n <= a@.len(),
        n <= b@.len(),
{
    let ghost x = crate::word::word_views(a@);
    let ghost y = crate::word::word_views(b@);
    let mut n: usize = 0;
    assert(x.skip(0) == x && y.skip(0) == y);
    while n < a.len() && n < b.len() && a[n].key() == b[n].key()
        invariant
            n <= a@.len(),
            n <= b@.len(),
            x == crate::word::word_views(a@),
            y == crate::word::word_views(b@),
            agreement(x, y) == n + agreement(x.skip(n as int), y.skip(n as int)),
        decreases a.len() - n,
    {
        proof {
            let p = x.skip(n as int);
            let q = y.skip(n as int);
            assert(p.drop_first() == x.skip(n + 1));
            assert(q.drop_first() == y.skip(n + 1));
        }
        n += 1;
    }
    n
}

/// Do the first `n` words of `b` have the keys of the words of `a` from `from` on?
fn keys_equal(a: &Vec<Word>, from: usize, b: &Vec<Word>, n: usize) -> (same: bool)
    requires
        n <= b@.len(),
        from + n == a@.len(),
    ensures
        same == same_keys(
            crate::word::word_views(a@).skip(from as int),
            crate::word::word_views(b@).take(n as int),
        ),
{
    let ghost x = crate::word::word_views(a@).skip(from as int);
    let ghost y = crate::word::word_views(b@).take(n as int);
    let mut i: usize = 0;
    while i < n
        invariant
            i <= n,
            n <= b@.len(),
            from + n == a.len(),
            x == crate::word::word_views(a@).skip(from as int),
            y == crate::word::word_views(b@).take(n as int),
            forall|j: int| 0 <= j < i ==> (#[trigger] x[j]).key() == y[j].key(),
        decreases n - i,
    {
        if a[from + i].key() != b[i].key() {
            assert(x[i as int].key() != y[i as int].key());
            return false;
        }
        i += 1;
    }
    true
}

// ---------------------------------------------------------------------------
// Laws
// ---------------------------------------------------------------------------

proof fn lemma_agreement(a: Seq<WordView>, b: Seq<WordView>)
    ensures
        agreement(a, b) <= a.len(),
        agreement(a, b) <= b.len(),
        same_keys(a.take(agreement(a, b) as int), b.take(agreement(a, b) as int)),
        agreement(a, b) < a.len() && agreement(a, b) < b.len() ==> a[agreement(a, b) as int].key()
            != b[agreement(a, b) as int].key(),
    decreases a.len(),
{
    if a.len() > 0 && b.len() > 0 && a[0].key() == b[0].key() {
        let p = a.drop_first();
        let q = b.drop_first();
        lemma_agreement(p, q);
        let n = agreement(p, q);
        let x = a.take(n as int + 1);
        let y = b.take(n as int + 1);
        assert forall|i: int| 0 <= i < x.len() implies (#[trigger] x[i]).key() == y[i].key() by {
            if i > 0 {
                assert(x[i] == p.take(n as int)[i - 1]);
                assert(y[i] == q.take(n as int)[i - 1]);
            }
        }
    }
}

proof fn lemma_overlap(committed: Seq<WordView>, fresh: Seq<WordView>, max: nat)
    ensures
        overlap(committed, fresh, max) <= max,
        overlap(committed, fresh, max) <= committed.len(),
        overlap(committed, fresh, max) <= fresh.len(),
        repeats(committed, fresh, overlap(committed, fresh, max) as int),
        forall|n: int|
            overlap(committed, fresh, max) < n <= max && n <= committed.len() && n <= fresh.len()
                ==> !#[trigger] repeats(committed, fresh, n),
    decreases max,
{
    if max == 0 {
    } else if max <= committed.len() && max <= fresh.len() && repeats(
        committed,
        fresh,
        max as int,
    ) {
    } else {
        lemma_overlap(committed, fresh, (max - 1) as nat);
    }
}

/// Committed words never change: a hypothesis and a flush only append to them.
pub proof fn law_committed_is_append_only(state: StabilizerState, words: Seq<WordView>)
    ensures
        state.observe(words).committed == state.committed + state.newly(words),
        state.flush().committed == state.committed + state.tail,
        state.committed.is_prefix_of(state.observe(words).committed),
        state.committed.is_prefix_of(state.flush().committed),
{
    assert(state.committed + Seq::<WordView>::empty() == state.committed);
}

/// Whatever a run of hypotheses does, what was committed before it stays, word for word.
pub proof fn law_committed_survives(state: StabilizerState, hypotheses: Seq<Seq<WordView>>)
    ensures
        state.committed.is_prefix_of(state.observe_all(hypotheses).committed),
    decreases hypotheses.len(),
{
    if hypotheses.len() > 0 {
        let before = state.observe_all(hypotheses.drop_last());
        law_committed_survives(state, hypotheses.drop_last());
        law_committed_is_append_only(before, hypotheses.last());
        let mid = before.committed;
        let end = state.observe_all(hypotheses).committed;
        assert(end.take(state.committed.len() as int) == mid.take(state.committed.len() as int));
    }
}

/// Only agreed words are committed: what a hypothesis newly commits has, word by word, the
/// keys with which the tail of the one before starts, and where it stops the two differ or
/// one of them ends. The words are those of the later hypothesis.
pub proof fn law_commits_agreement(state: StabilizerState, words: Seq<WordView>)
    requires
        later_than(words, state.last_committed_cs).len() > 0,
    ensures
        ({
            let newly = state.newly(words);
            let n = newly.len() as int;
            &&& n <= state.tail.len()
            &&& same_keys(state.tail.take(n), newly)
            &&& newly.is_prefix_of(state.fresh(words))
            &&& n < state.tail.len() && n < state.fresh(words).len() ==> state.tail[n].key()
                != state.fresh(words)[n].key()
        }),
{
    lemma_agreement(state.tail, state.fresh(words));
}

/// What is new in a hypothesis is either committed or volatile, and nothing else becomes
/// volatile.
pub proof fn law_commit_and_tail_split_fresh(state: StabilizerState, words: Seq<WordView>)
    requires
        later_than(words, state.last_committed_cs).len() > 0,
    ensures
        state.newly(words) + state.observe(words).tail == state.fresh(words),
{
    lemma_agreement(state.tail, state.fresh(words));
}

/// The first hypothesis commits nothing; all of it that lasts past time zero is volatile.
pub proof fn law_first_hypothesis_commits_nothing(words: Seq<WordView>)
    ensures
        StabilizerState::start().newly(words).len() == 0,
        StabilizerState::start().observe(words).committed.len() == 0,
        StabilizerState::start().observe(words).tail == later_than(words, 0),
{
    let start = StabilizerState::start();
    let later = later_than(words, 0);
    lemma_overlap(start.committed, later, 5);
    assert(later.skip(0) == later);
    assert(agreement(start.tail, later) == 0);
    assert(later.take(0) == Seq::<WordView>::empty());
    if later.len() == 0 {
        assert(later == Seq::<WordView>::empty());
    }
}

/// A hypothesis with nothing new in it keeps the volatile tail and commits nothing.
pub proof fn law_silence_keeps_tail(state: StabilizerState)
    ensures
        state.observe(seq![]) == state,
        state.newly(seq![]).len() == 0,
{
    reveal(Seq::filter);
}

/// A flush commits the whole tail and leaves none; a second one does nothing.
pub proof fn law_flush_commits_all(state: StabilizerState)
    ensures
        state.flush().tail.len() == 0,
        state.flush().committed == state.committed + state.tail,
        state.flush().flush() == state.flush(),
{
    assert(state.flush().flush().committed == state.flush().committed);
}

/// The committed time never moves back while hypotheses come in.
pub proof fn law_committed_time_monotone(state: StabilizerState, words: Seq<WordView>)
    ensures
        state.last_committed_cs <= state.observe(words).last_committed_cs,
{
    let late = |w: WordView| w.t1_cs > state.last_committed_cs;
    let later = words.filter(late);
    if later.len() > 0 {
        lemma_overlap(state.committed, later, state.max_overlap);
        lemma_agreement(state.tail, state.fresh(words));
        let agreed = state.agreed(words);
        if agreed.len() > 0 {
            let k = overlap(state.committed, later, state.max_overlap) + agreed.len() - 1;
            assert(agreed.last() == later[k]);
            words.lemma_filter_pred(late, k);
            assert(late(later[k]));
        }
    }
}

/// Every word that a hypothesis commits or leaves volatile ends after what was committed
/// before it.
pub proof fn law_fresh_is_later(state: StabilizerState, words: Seq<WordView>, i: int)
    requires
        0 <= i < state.fresh(words).len(),
    ensures
        state.fresh(words)[i].t1_cs > state.last_committed_cs,
{
    let late = |w: WordView| w.t1_cs > state.last_committed_cs;
    let later = words.filter(late);
    lemma_overlap(state.committed, later, state.max_overlap);
    let k = overlap(state.committed, later, state.max_overlap) + i;
    words.lemma_filter_pred(late, k);
    assert(late(later[k]));
}

/// The boundary words that a hypothesis repeats are dropped, as many as can be found: no
/// longer run up to the limit repeats the end of the transcript.
pub proof fn law_no_longer_overlap(state: StabilizerState, words: Seq<WordView>, n: int)
    requires
        ({
            let later = later_than(words, state.last_committed_cs);
            &&& overlap(state.committed, later, state.max_overlap) < n <= state.max_overlap
            &&& n <= state.committed.len()
            &&& n <= later.len()
        }),
    ensures
        !repeats(state.committed, later_than(words, state.last_committed_cs), n),
{
    lemma_overlap(
        state.committed,
        later_than(words, state.last_committed_cs),
        state.max_overlap,
    );
}

/// Two equal hypotheses in a row commit all that the first one left volatile, unless it
/// repeats the words that precede it.
pub proof fn law_repeated_hypothesis_commits(state: StabilizerState, words: Seq<WordView>)
    requires
        state.tail.len() > 0,
        state.fresh(words) == state.tail,
        later_than(words, state.last_committed_cs).len() > 0,
    ensures
        state.newly(words) == state.tail,
        state.observe(words).tail.len() == 0,
{
    let tail = state.tail;
    lemma_agreement(tail, tail);
    assert(tail.take(tail.len() as int) == tail);
}

proof fn lemma_later_push(words: Seq<WordView>, word: WordView, last_cs: u32)
    ensures
        later_than(words.push(word), last_cs) == if word.t1_cs > last_cs {
            later_than(words, last_cs).push(word)
        } else {
            later_than(words, last_cs)
        },
{
    reveal(Seq::filter);
    assert(words.push(word).drop_last() =~= words);
}

/// No word is passed over: of a hypothesis exactly the words that end after the committed time
/// are looked at, each once and in order. What comes of a longer hypothesis is what comes of
/// its parts, one after the other.
pub proof fn law_later_words_are_kept(a: Seq<WordView>, b: Seq<WordView>, last_cs: u32)
    ensures
        later_than(a + b, last_cs) == later_than(a, last_cs) + later_than(b, last_cs),
        forall|w: WordView|
            #![trigger later_than(seq![w], last_cs)]
            later_than(seq![w], last_cs) == if w.t1_cs > last_cs {
                seq![w]
            } else {
                seq![]
            },
        later_than(seq![], last_cs).len() == 0,
    decreases b.len(),
{
    let none = Seq::<WordView>::empty();
    reveal(Seq::filter);
    assert(later_than(none, last_cs) =~= none);
    assert forall|w: WordView|
        #![trigger later_than(seq![w], last_cs)]
        later_than(seq![w], last_cs) == if w.t1_cs > last_cs {
            seq![w]
        } else {
            none
        } by {
        lemma_later_push(none, w, last_cs);
        assert(none.push(w) =~= seq![w]);
    }
    if b.len() == 0 {
        assert(a + b =~= a);
        assert(b =~= none);
        assert(later_than(a, last_cs) + later_than(b, last_cs) =~= later_than(a, last_cs));
    } else {
        let front = b.drop_last();
        law_later_words_are_kept(a, front, last_cs);
        assert((a + front).push(b.last()) =~= a + b);
        assert(front.push(b.last()) =~= b);
        lemma_later_push(a + front, b.last(), last_cs);
        lemma_later_push(front, b.last(), last_cs);
        assert(later_than(a + b, last_cs) =~= later_than(a, last_cs) + later_than(b, last_cs));
    }
}

/// Every word of a hypothesis that ends after the committed time has its place in what is
/// looked at: right behind those of the words before it.
pub proof fn law_later_word_has_its_place(words: Seq<WordView>, last_cs: u32, i: int)
    requires
        0 <= i < words.len(),
        words[i].t1_cs > last_cs,
    ensures
        ({
            let place = later_than(words.take(i), last_cs).len() as int;
            place < later_than(words, last_cs).len() && later_than(words, last_cs)[place]
                == words[i]
        }),
{
    let front = words.take(i);
    let rest = words.skip(i + 1);
    law_later_words_are_kept(front + seq![words[i]], rest, last_cs);
    law_later_words_are_kept(front, seq![words[i]], last_cs);
    assert(words =~= (front + seq![words[i]]) + rest);
}

/// The agreement of two runs of words is the longest common beginning of their keys.
pub proof fn law_agreement_is_longest(a: Seq<WordView>, b: Seq<WordView>)
    ensures
        agreement(a, b) <= a.len(),
        agreement(a, b) <= b.len(),
        forall|i: int|
            0 <= i < agreement(a, b) ==> crate::word::key_of((#[trigger] a[i]).text)
                == crate::word::key_of(b[i].text),
        agreement(a, b) < a.len() && agreement(a, b) < b.len() ==> crate::word::key_of(
            a[agreement(a, b) as int].text,
        ) != crate::word::key_of(b[agreement(a, b) as int].text),
{
    lemma_agreement(a, b);
    let n = agreement(a, b) as int;
    assert forall|i: int| 0 <= i < n implies crate::word::key_of((#[trigger] a[i]).text)
        == crate::word::key_of(b[i].text) by {
        assert(a.take(n)[i].key() == b.take(n)[i].key());
    }
}

/// Do the first `n` words of `said` have the keys of the last `n` of `committed`, one by one?
pub open spec fn says_again(committed: Seq<WordView>, said: Seq<WordView>, n: int) -> bool {
    forall|i: int|
        0 <= i < n ==> crate::word::key_of((#[trigger] said[i]).text) == crate::word::key_of(
            committed[committed.len() - n + i].text,
        )
}

proof fn lemma_says_again(committed: Seq<WordView>, said: Seq<WordView>, n: int)
    requires
        0 <= n <= committed.len(),
        n <= said.len(),
    ensures
        repeats(committed, said, n) == says_again(committed, said, n),
{
    let a = committed.skip(committed.len() - n);
    let b = said.take(n);
    if repeats(committed, said, n) {
        assert forall|i: int| 0 <= i < n implies crate::word::key_of((#[trigger] said[i]).text)
            == crate::word::key_of(committed[committed.len() - n + i].text) by {
            assert(a[i].key() == b[i].key());
        }
    }
    if says_again(committed, said, n) {
        assert forall|i: int| 0 <= i < a.len() implies (#[trigger] a[i]).key() == b[i].key() by {
            assert(said[i] == b[i]);
            assert(a[i] == committed[committed.len() - n + i]);
        }
    }
}

/// Nothing is lost and nothing is repeated: of the words that end after the committed time, a
/// run at the start that says the end of the transcript again is dropped, and no more than
/// that; the longest such run, up to the limit. All the others are in order either newly
/// committed or volatile: committed as far as they agree with the volatile words of the
/// hypothesis before, and no further.
pub proof fn law_words_are_committed_or_volatile(state: StabilizerState, words: Seq<WordView>)
    requires
        later_than(words, state.last_committed_cs).len() > 0,
    ensures
        ({
            let later = later_than(words, state.last_committed_cs);
            let newly = state.newly(words);
            let after = state.observe(words);
            let dropped = later.len() - (newly.len() + after.tail.len());
            &&& 0 <= dropped <= state.max_overlap
            &&& dropped <= state.committed.len()
            &&& newly + after.tail == later.skip(dropped)
            &&& says_again(state.committed, later, dropped)
            &&& forall|n: int|
                dropped < n <= state.max_overlap && n <= state.committed.len() && n <= later.len()
                    ==> !#[trigger] says_again(state.committed, later, n)
            &&& after.committed == state.committed + newly
            &&& newly.len() <= state.tail.len()
            &&& forall|i: int|
                0 <= i < newly.len() ==> crate::word::key_of((#[trigger] newly[i]).text)
                    == crate::word::key_of(state.tail[i].text)
            &&& newly.len() < state.tail.len() && after.tail.len() > 0 ==> crate::word::key_of(
                after.tail[0].text,
            ) != crate::word::key_of(state.tail[newly.len() as int].text)
        }),
{
    let later = later_than(words, state.last_committed_cs);
    let k = overlap(state.committed, later, state.max_overlap) as int;
    let fresh = state.fresh(words);
    let newly = state.newly(words);
    let after = state.observe(words);
    lemma_overlap(state.committed, later, state.max_overlap);
    law_agreement_is_longest(state.tail, fresh);
    assert(newly + after.tail =~= fresh);
    lemma_says_again(state.committed, later, k);
    assert forall|n: int|
        k < n <= state.max_overlap && n <= state.committed.len() && n <= later.len() implies !
    #[trigger] says_again(state.committed, later, n) by {
        lemma_says_again(state.committed, later, n);
        assert(!repeats(state.committed, later, n));
    }
    assert forall|i: int| 0 <= i < newly.len() implies crate::word::key_of(
        (#[trigger] newly[i]).text,
    ) == crate::word::key_of(state.tail[i].text) by {
        assert(newly[i] == fresh[i]);
        assert(crate::word::key_of(state.tail[i].text) == crate::word::key_of(fresh[i].text));
    }
}

/// A hypothesis none of whose words end after the committed time changes nothing.
pub proof fn law_old_words_change_nothing(state: StabilizerState, words: Seq<WordView>)
    requires
        forall|i: int|
            0 <= i < words.len() ==> (#[trigger] words[i]).t1_cs <= state.last_committed_cs,
    ensures
        state.observe(words) == state,
        state.newly(words).len() == 0,
    decreases words.len(),
{
    lemma_none_later(words, state.last_committed_cs);
}

proof fn lemma_none_later(words: Seq<WordView>, last_cs: u32)
    requires
        forall|i: int| 0 <= i < words.len() ==> (#[trigger] words[i]).t1_cs <= last_cs,
    ensures
        later_than(words, last_cs).len() == 0,
    decreases words.len(),
{
    reveal(Seq::filter);
    if words.len() > 0 {
        let front = words.drop_last();
        assert forall|i: int| 0 <= i < front.len() implies (#[trigger] front[i]).t1_cs
            <= last_cs by {
            assert(front[i] == words[i]);
        }
        lemma_none_later(front, last_cs);
        lemma_later_push(front, words.last(), last_cs);
        assert(front.push(words.last()) =~= words);
    }
}

/// The committed time is the end of the last word that was committed, by a hypothesis or by a
/// flush; while none is, it stays.
pub proof fn law_committed_time_is_the_last_words(state: StabilizerState, words: Seq<WordView>)
    ensures
        state.newly(words).len() > 0 ==> state.observe(words).last_committed_cs == state.observe(
            words,
        ).committed.last().t1_cs,
        state.newly(words).len() == 0 ==> state.observe(words).last_committed_cs
            == state.last_committed_cs,
        state.tail.len() > 0 ==> state.flush().last_committed_cs == state.tail.last().t1_cs,
        state.tail.len() == 0 ==> state.flush().last_committed_cs == state.last_committed_cs,
{
}

/// The limit on repeated boundary words is five, for good.
pub proof fn law_overlap_limit_is_five(hypotheses: Seq<Seq<WordView>>)
    ensures
        StabilizerState::start().observe_all(hypotheses).max_overlap == 5,
        StabilizerState::start().observe_all(hypotheses).flush().max_overlap == 5,
    decreases hypotheses.len(),
{
    if hypotheses.len() > 0 {
        law_overlap_limit_is_five(hypotheses.drop_last());
    }
}

} // verus!
