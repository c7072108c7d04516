//! A transcriber's output: timestamped [`Word`]s grouped into [`Segment`]s, all inside a
//! [`Hypothesis`]. Timestamps are **centiseconds** (hundredths of a second). A hypothesis is
//! relative to its window until its words are shifted to absolute time with
//! [`Word::shifted`].

use crate::binary32::Binary32;
use crate::text::split_words;
use crate::text::trim_to_alphanumeric;
use vstd::prelude::*;

verus! {

// ---------------------------------------------------------------------------
// Words
// ---------------------------------------------------------------------------

/// A single transcribed word with centisecond start/end timestamps.
#[derive(Debug, PartialEq)]
pub struct Word {
    pub text: String,
    pub t0_cs: u32,
    pub t1_cs: u32,
}

/// A word as a mathematical value.
#[verifier::ext_equal]
pub struct WordView {
    pub text: Seq<char>,
    pub t0_cs: u32,
    pub t1_cs: u32,
}

impl View for Word {
    type V = WordView;

    open spec fn view(&self) -> WordView {
        WordView { text: self.text@, t0_cs: self.t0_cs, t1_cs: self.t1_cs }
    }
}

/// The words of a list as mathematical values.
pub open spec fn word_views(words: Seq<Word>) -> Seq<WordView> {
    Seq::new(words.len(), |i: int| words[i]@)
}

/// The key that two transcriptions of one word share: the text without the punctuation at
/// its two ends, in lower case.
pub open spec fn key_of(text: Seq<char>) -> Seq<char> {
    crate::text::lowercase(
        crate::text::trim_of(text, |c: char| !crate::text::alphanumeric(c)),
    )
}

impl WordView {
    /// The word's key.
    pub open spec fn key(self) -> Seq<char> {
        key_of(self.text)
    }

    /// The word, `offset_cs` later.
    pub open spec fn shifted(self, offset_cs: u32) -> WordView {
        WordView {
            text: self.text,
            t0_cs: (self.t0_cs + offset_cs) as u32,
            t1_cs: (self.t1_cs + offset_cs) as u32,
        }
    }

    /// Can both timestamps be moved later by `offset_cs`?
    pub open spec fn shiftable(self, offset_cs: u32) -> bool {
        self.t0_cs + offset_cs <= u32::MAX && self.t1_cs + offset_cs <= u32::MAX
    }
}

impl Clone for Word {
    fn clone(&self) -> (copy: Self)
        ensures
            copy == *self,
    {
        Word { text: self.text.clone(), t0_cs: self.t0_cs, t1_cs: self.t1_cs }
    }
}

impl Word {
    pub fn new(text: &str, t0_cs: u32, t1_cs: u32) -> (word: Self)
        ensures
            word@ == (WordView { text: text@, t0_cs, t1_cs }),
    {
        Word { text: text.to_string(), t0_cs, t1_cs }
    }

    /// Return a copy with both timestamps shifted later by `offset_cs`.
    pub fn shifted(&self, offset_cs: u32) -> (word: Word)
        requires
            self@.shiftable(offset_cs),
        ensures
            word@ == self@.shifted(offset_cs),
    {
        Word {
            text: self.text.clone(),
            t0_cs: self.t0_cs + offset_cs,
            t1_cs: self.t1_cs + offset_cs,
        }
    }

    /// Can both timestamps be shifted later by `offset_cs`?
    pub fn can_shift(&self, offset_cs: u32) -> (answer: bool)
        ensures
            answer == self@.shiftable(offset_cs),
    {
        self.t0_cs.checked_add(offset_cs).is_some() && self.t1_cs.checked_add(offset_cs).is_some()
    }

    /// Normalized comparison key for agreement matching: lowercased and stripped of
    /// surrounding non-alphanumerics, so `"Fox"` matches `"fox,"`.
    pub fn key(&self) -> (key: String)
        ensures
            key@ == self@.key(),
    {
        trim_to_alphanumeric(self.text.as_str()).as_str().to_lowercase()
    }
}

/// A copy of a list of words.
pub fn copy_words(words: &Vec<Word>) -> (copy: Vec<Word>)
    ensures
        copy@ == words@,
{
    let mut copy: Vec<Word> = Vec::new();
    let mut i: usize = 0;
    while i < words.len()
        invariant
            i <= words@.len(),
            copy@ == words@.take(i as int),
        decreases words.len() - i,
    {
        copy.push(words[i].clone());
        i += 1;
        assert(words@.take(i as int) == words@.take(i - 1).push(words@[i - 1]));
    }
    assert(words@.take(i as int) == words@);
    copy
}

/// The texts of a list of words.
pub open spec fn word_texts(words: Seq<WordView>) -> Seq<Seq<char>> {
    Seq::new(words.len(), |i: int| words[i].text)
}

/// The words as displayed: their texts with single spaces between them.
pub open spec fn displayed(words: Seq<WordView>) -> Seq<char> {
    crate::text::joined(word_texts(words), seq![' '])
}

/// Join words into displayable text with single spaces.
pub fn join_words(words: &[Word]) -> (text: String)
    ensures
        text@ == displayed(word_views(words@)),
{
    let ghost parts = word_texts(word_views(words@));
    let mut text = String::new();
    let mut i: usize = 0;
    while i < words.len()
        invariant
            i <= words@.len(),
            parts == word_texts(word_views(words@)),
            text@ == crate::text::joined(parts.take(i as int), seq![' ']),
        decreases words.len() - i,
    {
        if i > 0 {
            text.push(' ');
        }
        text.append(words[i].text.as_str());
        i += 1;
        proof {
            let upto = parts.take(i as int);
            assert(upto.drop_last() == parts.take(i - 1));
            assert(upto.last() == words@[i - 1].text@);
            let before = crate::text::joined(parts.take(i - 1), seq![' ']);
            assert(before.push(' ') == before + seq![' ']);
            if i == 1 {
                assert(text@ == words@[0].text@);
            }
        }
    }
    assert(parts.take(i as int) == parts);
    text
}

// ---------------------------------------------------------------------------
// Segments
// ---------------------------------------------------------------------------

/// A transcribed phrase with its time bounds and the transcriber's confidence signals.
#[derive(Debug, PartialEq)]
pub struct Segment {
    pub text: String,
    pub t0_cs: u32,
    pub t1_cs: u32,
    /// The transcriber's probability that this segment is *not* speech. High means a
    /// likely hallucination over silence or noise.
    pub no_speech_prob: Binary32,
    /// Average token log-probability. Low means low-confidence garbage.
    pub avg_logprob: Binary32,
}

impl Clone for Segment {
    fn clone(&self) -> (copy: Self)
        ensures
            copy == *self,
    {
        Segment {
            text: self.text.clone(),
            t0_cs: self.t0_cs,
            t1_cs: self.t1_cs,
            no_speech_prob: self.no_speech_prob,
            avg_logprob: self.avg_logprob,
        }
    }
}

impl Segment {
    /// The duration of the segment; zero if it ends before it starts.
    pub open spec fn span(self) -> int {
        if self.t1_cs > self.t0_cs {
            self.t1_cs - self.t0_cs
        } else {
            0
        }
    }

    /// The boundary between the words `i - 1` and `i` of the segment's `n`.
    pub open spec fn boundary(self, i: int, n: int) -> u32 {
        (self.t0_cs + self.span() * i / n) as u32
    }

    /// The segment's words, its span spread evenly over them.
    pub open spec fn split(self) -> Seq<WordView> {
        let tokens = crate::text::words_of(self.text@);
        Seq::new(
            tokens.len(),
            |i: int|
                WordView {
                    text: tokens[i],
                    t0_cs: self.boundary(i, tokens.len() as int),
                    t1_cs: self.boundary(i + 1, tokens.len() as int),
                },
        )
    }

    /// Can the span be spread over the words in the width of a timestamp?
    pub open spec fn splittable(self) -> bool {
        let n = crate::text::words_of(self.text@).len();
        n <= u32::MAX && self.span() * n <= u32::MAX
    }

    /// Does the segment pass the confidence gate?
    pub open spec fn confident(self, no_speech_max: Binary32, logprob_min: Binary32) -> bool {
        self.no_speech_prob.le(no_speech_max) && logprob_min.le(self.avg_logprob)
    }

    proof fn lemma_boundary(self, i: int, n: int)
        requires
            0 <= i <= n,
            0 < n,
            self.span() * n <= u32::MAX,
        ensures
            0 <= self.span() * i <= u32::MAX,
            0 <= self.span() * i / n <= self.span(),
            self.t0_cs + self.span() * i / n <= u32::MAX,
    {
        let span = self.span();
        assert(0 <= span * i <= span * n) by (nonlinear_arith)
            requires
                0 <= i <= n,
                0 <= span,
        ;
        assert(0 <= span * i / n <= span) by (nonlinear_arith)
            requires
                0 <= span * i <= span * n,
                0 < n,
        ;
    }

    /// Split this segment's text into [`Word`]s, distributing the segment's time span
    /// evenly across words.
    pub fn to_words(&self) -> (words: Vec<Word>)
        requires
            self.splittable(),
        ensures
            word_views(words@) == self.split(),
    {
        let tokens = split_words(self.text.as_str());
        let mut words: Vec<Word> = Vec::new();
        let ghost all = crate::text::words_of(self.text@);
        assert(tokens@.len() == all.len()) by {
            assert(crate::text::texts(tokens@).len() == all.len());
        }
        let span: u32 = self.t1_cs.saturating_sub(self.t0_cs);
        let n: u32 = tokens.len() as u32;
        let mut i: u32 = 0;
        while i < n
            invariant
                n == tokens@.len(),
                i <= n,
                span == self.span(),
                self.span() * n <= u32::MAX,
                all == crate::text::words_of(self.text@),
                crate::text::texts(tokens@) == all,
                word_views(words@) == self.split().take(i as int),
            decreases n - i,
        {
            proof {
                self.lemma_boundary(i as int, n as int);
                self.lemma_boundary(i + 1, n as int);
            }
            let token = tokens[i as usize].as_str();
            let word = Word::new(
                token,
                self.t0_cs + span * i / n,
                self.t0_cs + span * (i + 1) / n,
            );
            assert(token@ == all[i as int]) by {
                assert(crate::text::texts(tokens@)[i as int] == tokens@[i as int]@);
            }
            let ghost before = words@;
            words.push(word);
            i += 1;
            proof {
                assert(word_views(words@) == word_views(before).push(word@));
                assert(self.split().take(i as int) == self.split().take(i - 1).push(
                    self.split()[i - 1],
                ));
            }
        }
        assert(self.split().take(i as int) == self.split());
        words
    }

    /// Can the span be spread over the words in the width of a timestamp?
    pub fn can_split(&self) -> (answer: bool)
        ensures
            answer == self.splittable(),
    {
        let tokens = split_words(self.text.as_str());
        assert(tokens@.len() == crate::text::texts(tokens@).len());
        let span: u32 = self.t1_cs.saturating_sub(self.t0_cs);
        let n: usize = tokens.len();
        if n as u64 > u32::MAX as u64 {
            return false;
        }
        assert(0 <= span * n <= 0xffff_ffff * 0xffff_ffff) by (nonlinear_arith)
            requires
                0 <= span <= 0xffff_ffff,
                0 <= n <= 0xffff_ffff,
        ;
        span as u64 * n as u64 <= u32::MAX as u64
    }

    /// Does the segment pass the confidence gate?
    pub fn is_confident(&self, no_speech_max: Binary32, logprob_min: Binary32) -> (answer: bool)
        ensures
            answer == self.confident(no_speech_max, logprob_min),
    {
        self.no_speech_prob.at_most(no_speech_max) && logprob_min.at_most(self.avg_logprob)
    }
}

/// The words of a segment fill its span without a gap: the first starts where the segment
/// does, each next one starts where the one before it ends, the last ends where the segment
/// does, and none ends before it starts.
pub proof fn law_split_fills_span(segment: Segment)
    requires
        segment.splittable(),
        segment.split().len() > 0,
    ensures
        segment.split()[0].t0_cs == segment.t0_cs,
        segment.split().last().t1_cs == segment.t0_cs + segment.span(),
        forall|i: int|
            0 <= i < segment.split().len() - 1 ==> (#[trigger] segment.split()[i]).t1_cs
                == segment.split()[i + 1].t0_cs,
        forall|i: int|
            0 <= i < segment.split().len() ==> (#[trigger] segment.split()[i]).t0_cs
                <= segment.split()[i].t1_cs,
{
    let n = segment.split().len() as int;
    let span = segment.span();
    segment.lemma_boundary(0, n);
    segment.lemma_boundary(n, n);
    assert(span * 0 / n == 0) by (nonlinear_arith)
        requires
            0 < n,
    ;
    assert(span * n / n == span) by (nonlinear_arith)
        requires
            0 < n,
    ;
    assert forall|i: int| 0 <= i < n implies (#[trigger] segment.split()[i]).t0_cs
        <= segment.split()[i].t1_cs by {
        segment.lemma_boundary(i, n);
        segment.lemma_boundary(i + 1, n);
        assert(span * i / n <= span * (i + 1) / n) by (nonlinear_arith)
            requires
                0 <= span,
                0 < n,
        ;
    }
}

/// Nothing is lost of a segment's text but the white space: its words are the words of the
/// text.
pub proof fn law_split_keeps_words(segment: Segment)
    ensures
        word_texts(segment.split()) == crate::text::words_of(segment.text@),
{
}

// ---------------------------------------------------------------------------
// Hypotheses
// ---------------------------------------------------------------------------

/// One pass of the transcriber over an audio window.
#[derive(Debug, PartialEq)]
pub struct Hypothesis {
    pub segments: Vec<Segment>,
}

/// The words of the segments that pass the confidence gate, in order.
pub open spec fn confident_part(
    segments: Seq<Segment>,
    no_speech_max: Binary32,
    logprob_min: Binary32,
) -> Seq<WordView>
    decreases segments.len(),
{
    if segments.len() == 0 {
        seq![]
    } else {
        let before = confident_part(segments.drop_last(), no_speech_max, logprob_min);
        if segments.last().confident(no_speech_max, logprob_min) {
            before + segments.last().split()
        } else {
            before
        }
    }
}

/// Can every segment that passes the confidence gate be split into words?
pub open spec fn confident_part_fits(
    segments: Seq<Segment>,
    no_speech_max: Binary32,
    logprob_min: Binary32,
) -> bool {
    forall|i: int|
        0 <= i < segments.len() && (#[trigger] segments[i]).confident(no_speech_max, logprob_min)
            ==> segments[i].splittable()
}

impl Default for Hypothesis {
    fn default() -> (hypothesis: Self)
        ensures
            hypothesis.segments@.len() == 0,
    {
        Hypothesis { segments: Vec::new() }
    }
}

impl Clone for Hypothesis {
    fn clone(&self) -> (copy: Self)
        ensures
            copy.segments@ == self.segments@,
    {
        let mut segments: Vec<Segment> = Vec::new();
        let mut i: usize = 0;
        while i < self.segments.len()
            invariant
                i <= self.segments@.len(),
                segments@ == self.segments@.take(i as int),
            decreases self.segments.len() - i,
        {
            segments.push(self.segments[i].clone());
            i += 1;
            assert(self.segments@.take(i as int) == self.segments@.take(i - 1).push(
                self.segments@[i - 1],
            ));
        }
        assert(self.segments@.take(i as int) == self.segments@);
        Hypothesis { segments }
    }
}

impl Hypothesis {
    /// Build a single-segment hypothesis from plain text spanning `[t0_cs, t1_cs]`,
    /// marked fully confident. Handy for tests and simple transcribers.
    pub fn from_text(text: &str, t0_cs: u32, t1_cs: u32) -> (hypothesis: Self)
        ensures
            hypothesis.segments@.len() == 1,
            hypothesis.segments@[0].text@ == text@,
            hypothesis.segments@[0].t0_cs == t0_cs,
            hypothesis.segments@[0].t1_cs == t1_cs,
            hypothesis.segments@[0].no_speech_prob == (Binary32 { bits: 0 }),
            hypothesis.segments@[0].avg_logprob == (Binary32 { bits: 0 }),
    {
        let mut segments: Vec<Segment> = Vec::new();
        segments.push(
            Segment {
                text: text.to_string(),
                t0_cs,
                t1_cs,
                no_speech_prob: Binary32 { bits: 0 },
                avg_logprob: Binary32 { bits: 0 },
            },
        );
        Hypothesis { segments }
    }

    /// Flatten to words, **dropping segments that fail the confidence gate**. A segment is
    /// kept only if `no_speech_prob <= no_speech_max` AND `avg_logprob >= logprob_min`.
    pub fn confident_words(&self, no_speech_max: Binary32, logprob_min: Binary32) -> (words: Vec<
        Word,
    >)
        requires
            confident_part_fits(self.segments@, no_speech_max, logprob_min),
        ensures
            word_views(words@) == confident_part(self.segments@, no_speech_max, logprob_min),
    {
        let mut words: Vec<Word> = Vec::new();
        let mut i: usize = 0;
        while i < self.segments.len()
            invariant
                i <= self.segments@.len(),
                confident_part_fits(self.segments@, no_speech_max, logprob_min),
                word_views(words@) == confident_part(
                    self.segments@.take(i as int),
                    no_speech_max,
                    logprob_min,
                ),
            decreases self.segments.len() - i,
        {
            assert(self.segments@.take(i + 1).drop_last() == self.segments@.take(i as int));
            if self.segments[i].is_confident(no_speech_max, logprob_min) {
                let ghost before = words@;
                let mut more = self.segments[i].to_words();
                let ghost added = more@;
                words.append(&mut more);
                assert(word_views(words@) == word_views(before) + word_views(added));
            }
            i += 1;
        }
        assert(self.segments@.take(i as int) == self.segments@);
        words
    }

    /// Can every segment that passes the confidence gate be split into words?
    pub fn can_split_confident(&self, no_speech_max: Binary32, logprob_min: Binary32) -> (answer:
        bool)
        ensures
            answer == confident_part_fits(self.segments@, no_speech_max, logprob_min),
    {
        let mut i: usize = 0;
        while i < self.segments.len()
            invariant
                i <= self.segments@.len(),
                forall|j: int|
                    0 <= j < i && (#[trigger] self.segments@[j]).confident(
                        no_speech_max,
                        logprob_min,
                    ) ==> self.segments@[j].splittable(),
            decreases self.segments.len() - i,
        {
            if self.segments[i].is_confident(no_speech_max, logprob_min)
                && !self.segments[i].can_split() {
                return false;
            }
            i += 1;
        }
        true
    }
}

/// Every word that passes the filter comes from a segment that passes it.
pub proof fn law_gate_is_per_segment(
    segments: Seq<Segment>,
    no_speech_max: Binary32,
    logprob_min: Binary32,
    k: int,
)
    requires
        0 <= k < confident_part(segments, no_speech_max, logprob_min).len(),
    ensures
        exists|i: int, j: int|
            0 <= i < segments.len() && segments[i].confident(no_speech_max, logprob_min) && 0 <= j
                < segments[i].split().len() && #[trigger] segments[i].split()[j]
                == confident_part(segments, no_speech_max, logprob_min)[k],
    decreases segments.len(),
{
    let front = segments.drop_last();
    let before = confident_part(front, no_speech_max, logprob_min);
    let whole = confident_part(segments, no_speech_max, logprob_min);
    let last = segments.len() - 1;
    if k < before.len() {
        law_gate_is_per_segment(front, no_speech_max, logprob_min, k);
        let (i, j) = choose|i: int, j: int|
            0 <= i < front.len() && front[i].confident(no_speech_max, logprob_min) && 0 <= j
                < front[i].split().len() && #[trigger] front[i].split()[j] == before[k];
        assert(front[i] == segments[i]);
        assert(segments[i].split()[j] == whole[k]);
    } else {
        assert(segments[last].split()[k - before.len()] == whole[k]);
    }
}

/// Plain text always passes a filter that lets fully confident segments through.
pub proof fn law_full_confidence_passes(
    segment: Segment,
    no_speech_max: Binary32,
    logprob_min: Binary32,
)
    requires
        segment.no_speech_prob == (Binary32 { bits: 0 }),
        segment.avg_logprob == (Binary32 { bits: 0 }),
        (Binary32 { bits: 0 }).le(no_speech_max),
        logprob_min.le(Binary32 { bits: 0 }),
    ensures
        confident_part(seq![segment], no_speech_max, logprob_min) == segment.split(),
{
    let one = seq![segment];
    assert(one.drop_last() == Seq::<Segment>::empty());
    assert(one.last() == segment);
    assert(confident_part(one.drop_last(), no_speech_max, logprob_min) == Seq::<WordView>::empty());
    assert(Seq::<WordView>::empty() + segment.split() == segment.split());
}

/// The filter takes whole segments, in order: what comes of segments one after the other is
/// what comes of the ones, followed by what comes of the others. Of a single segment all words
/// come, in order, if its no-speech probability is at most the one limit and its
/// log-probability at least the other, and none if not.
pub proof fn law_gate_keeps_order(
    a: Seq<Segment>,
    b: Seq<Segment>,
    no_speech_max: Binary32,
    logprob_min: Binary32,
)
    ensures
        confident_part(a + b, no_speech_max, logprob_min) == confident_part(
            a,
            no_speech_max,
            logprob_min,
        ) + confident_part(b, no_speech_max, logprob_min),
        forall|s: Segment|
            #![trigger confident_part(seq![s], no_speech_max, logprob_min)]
            confident_part(seq![s], no_speech_max, logprob_min) == if s.no_speech_prob.le(
                no_speech_max,
            ) && logprob_min.le(s.avg_logprob) {
                s.split()
            } else {
                seq![]
            },
        confident_part(seq![], no_speech_max, logprob_min).len() == 0,
    decreases b.len(),
{
    let none = Seq::<WordView>::empty();
    assert forall|s: Segment|
        #![trigger confident_part(seq![s], no_speech_max, logprob_min)]
        confident_part(seq![s], no_speech_max, logprob_min) == if s.no_speech_prob.le(
            no_speech_max,
        ) && logprob_min.le(s.avg_logprob) {
            s.split()
        } else {
            none
        } by {
        assert(seq![s].drop_last() =~= Seq::<Segment>::empty());
        assert(none + s.split() =~= s.split());
        assert(confident_part(seq![s].drop_last(), no_speech_max, logprob_min) =~= none);
    }
    if b.len() == 0 {
        assert(a + b =~= a);
        let x = confident_part(a, no_speech_max, logprob_min);
        assert(x + confident_part(b, no_speech_max, logprob_min) =~= x);
    } else {
        law_gate_keeps_order(a, b.drop_last(), no_speech_max, logprob_min);
        assert((a + b).drop_last() =~= a + b.drop_last());
        assert(confident_part(a + b, no_speech_max, logprob_min) =~= confident_part(
            a,
            no_speech_max,
            logprob_min,
        ) + confident_part(b, no_speech_max, logprob_min));
    }
}

/// The words of a segment are spread evenly: after `i` of `n` words, `i` parts in `n` of its
/// time have gone, rounded down to a whole centisecond.
pub proof fn law_split_is_even(segment: Segment, i: int)
    requires
        segment.splittable(),
        0 <= i < segment.split().len(),
    ensures
        ({
            let n = segment.split().len() as int;
            let span = if segment.t1_cs > segment.t0_cs {
                segment.t1_cs - segment.t0_cs
            } else {
                0
            };
            let from = segment.split()[i].t0_cs - segment.t0_cs;
            let to = segment.split()[i].t1_cs - segment.t0_cs;
            &&& n == crate::text::words_of(segment.text@).len()
            &&& segment.split()[i].text == crate::text::words_of(segment.text@)[i]
            &&& n * from <= span * i < n * (from + 1)
            &&& n * to <= span * (i + 1) < n * (to + 1)
        }),
{
    let n = segment.split().len() as int;
    let span = segment.span();
    segment.lemma_boundary(i, n);
    segment.lemma_boundary(i + 1, n);
    let a = span * i;
    let b = span * (i + 1);
    assert(n * (a / n) <= a < n * (a / n + 1)) by (nonlinear_arith)
        requires
            0 < n,
            0 <= a,
    ;
    assert(n * (b / n) <= b < n * (b / n + 1)) by (nonlinear_arith)
        requires
            0 < n,
            0 <= b,
    ;
}

/// To shift a word is to move both its times by the offset and to keep its text.
pub proof fn law_shift_moves_times(word: WordView, offset_cs: u32)
    requires
        word.t0_cs + offset_cs <= u32::MAX,
        word.t1_cs + offset_cs <= u32::MAX,
    ensures
        word.shiftable(offset_cs),
        word.shifted(offset_cs).text == word.text,
        word.shifted(offset_cs).t0_cs - word.t0_cs == offset_cs,
        word.shifted(offset_cs).t1_cs - word.t1_cs == offset_cs,
{
}

/// The key of a word is its core in lower case: what is left without the characters at its two
/// ends that are neither letters nor numbers.
pub proof fn law_key_is_the_core(text: Seq<char>)
    ensures
        exists|from: int, to: int|
            #![trigger text.subrange(from, to)]
            0 <= from <= to <= text.len() && key_of(text) == crate::text::lowercase(
                text.subrange(from, to),
            ) && (forall|i: int|
                0 <= i < text.len() && !(from <= i < to) ==> !crate::text::alphanumeric(
                    #[trigger] text[i],
                )) && (from < to ==> crate::text::alphanumeric(text[from])
                && crate::text::alphanumeric(text[to - 1])),
{
    let drop = |c: char| !crate::text::alphanumeric(c);
    let front = crate::text::trim_start_of(text, drop);
    let core = crate::text::trim_of(text, drop);
    crate::text::lemma_trim_start(text, drop);
    crate::text::lemma_trim_end(front, drop);
    let from = text.len() - front.len();
    let to = from + core.len();
    assert(core =~= text.subrange(from, to));
    assert forall|i: int| 0 <= i < text.len() && !(from <= i < to) implies
        !crate::text::alphanumeric(#[trigger] text[i]) by {
        if i < from {
            assert(drop(text[i]));
        } else {
            assert(front[i - from] == text[i]);
            assert(drop(front[i - from]));
        }
    }
    if from < to {
        assert(core[0] == text[from]);
        assert(core[0] == front[0]);
        assert(core.last() == text[to - 1]);
    }
}

/// Words are shown in order, with one space between two of them and none at the ends.
pub proof fn law_words_are_spaced(first: Seq<WordView>, later: Seq<WordView>)
    ensures
        first.len() > 0 && later.len() > 0 ==> displayed(first + later) == displayed(first)
            + seq![' '] + displayed(later),
        first.len() == 1 ==> displayed(first) == first[0].text,
        first.len() == 0 ==> displayed(first).len() == 0,
{
    if first.len() > 0 && later.len() > 0 {
        crate::text::law_join_in_order(word_texts(first), word_texts(later), seq![' ']);
        assert(word_texts(first + later) =~= word_texts(first) + word_texts(later));
    }
}

/// Words that are not empty show as something.
pub(crate) proof fn lemma_displayed_some(words: Seq<WordView>)
    requires
        words.len() > 0,
        words.last().text.len() > 0,
    ensures
        displayed(words).len() > 0,
{
    if words.len() > 1 {
        let front = words.drop_last();
        assert(front + seq![words.last()] =~= words);
        law_words_are_spaced(front, seq![words.last()]);
    } else {
        law_words_are_spaced(words, words);
    }
}

/// What can be done with words and segments is limited by the width of a timestamp alone: a
/// word can be moved while its times fit, and a segment can be split while its duration times
/// its words does.
pub proof fn law_only_width_limits(word: WordView, segment: Segment, offset_cs: u32)
    ensures
        word.shiftable(offset_cs) <==> word.t0_cs + offset_cs <= 0xffff_ffff && word.t1_cs
            + offset_cs <= 0xffff_ffff,
        ({
            let n = crate::text::words_of(segment.text@).len();
            segment.splittable() <==> n <= 0xffff_ffff && (segment.t1_cs <= segment.t0_cs || (
            segment.t1_cs - segment.t0_cs) * n <= 0xffff_ffff)
        }),
{
    let n = crate::text::words_of(segment.text@).len();
    assert(0 * n == 0) by (nonlinear_arith);
}

/// Whether a hypothesis can be split is a matter of its segments, each for itself: of those that
/// pass the filter, every one has to be.
pub proof fn law_fits_segment_by_segment(
    segments: Seq<Segment>,
    segment: Segment,
    no_speech_max: Binary32,
    logprob_min: Binary32,
)
    ensures
        confident_part_fits(Seq::<Segment>::empty(), no_speech_max, logprob_min),
        confident_part_fits(segments.push(segment), no_speech_max, logprob_min) <==> (
        confident_part_fits(segments, no_speech_max, logprob_min) && (segment.no_speech_prob.le(
            no_speech_max,
        ) && logprob_min.le(segment.avg_logprob) ==> segment.splittable())),
{
    let all = segments.push(segment);
    if confident_part_fits(all, no_speech_max, logprob_min) {
        assert(all[segments.len() as int] == segment);
        assert forall|i: int|
            0 <= i < segments.len() && (#[trigger] segments[i]).confident(
                no_speech_max,
                logprob_min,
            ) implies segments[i].splittable() by {
            assert(all[i] == segments[i]);
        }
    }
}

} // verus!
