//! Words, stabilization and the transcript.

use hearsay::binary32::Binary32;
use hearsay::stabilize::Stabilizer;
use hearsay::transcript::{TranscriptUpdate, TranscriptView};
use hearsay::word::{join_words, Hypothesis, Segment, Word};

fn b(x: f32) -> Binary32 {
    Binary32::from_bits(x.to_bits())
}

fn segment(text: &str, t0_cs: u32, t1_cs: u32, no_speech: f32, logprob: f32) -> Segment {
    Segment {
        text: text.to_string(),
        t0_cs,
        t1_cs,
        no_speech_prob: b(no_speech),
        avg_logprob: b(logprob),
    }
}

// --- words -----------------------------------------------------------------

#[test]
fn key_normalizes_case_and_punctuation() {
    assert_eq!(Word::new("Fox", 0, 1).key(), "fox");
    assert_eq!(Word::new("fox,", 0, 1).key(), "fox");
    assert_eq!(Word::new("\"Hello!\"", 0, 1).key(), "hello");
    assert_eq!(Word::new("don't", 0, 1).key(), "don't"); // inner apostrophe kept
}

#[test]
fn shifted_moves_both_timestamps() {
    let w = Word::new("hi", 10, 20).shifted(100);
    assert_eq!((w.t0_cs, w.t1_cs), (110, 120));
}

#[test]
fn segment_to_words_distributes_time() {
    let seg = segment("a b c", 0, 30, 0.0, 0.0);
    let ws = seg.to_words();
    assert_eq!(ws.len(), 3);
    assert_eq!(ws[0], Word::new("a", 0, 10));
    assert_eq!(ws[1], Word::new("b", 10, 20));
    assert_eq!(ws[2], Word::new("c", 20, 30));
}

#[test]
fn empty_segment_yields_no_words() {
    let seg = segment("   ", 0, 10, 0.0, 0.0);
    assert!(seg.to_words().is_empty());
}

#[test]
fn confident_words_filters_hallucinated_segment() {
    let hyp = Hypothesis {
        segments: vec![
            segment("real speech", 0, 20, 0.1, -0.3),
            segment("thank you for watching", 20, 40, 0.92, -0.8),
        ],
    };
    let words = hyp.confident_words(b(0.6), b(-1.0));
    assert_eq!(join_words(&words), "real speech");
}

#[test]
fn confident_words_filters_low_logprob() {
    let hyp = Hypothesis {
        segments: vec![segment("garbled", 0, 10, 0.2, -2.5)],
    };
    assert!(hyp.confident_words(b(0.6), b(-1.0)).is_empty());
}

#[test]
fn from_text_is_fully_confident() {
    let hyp = Hypothesis::from_text("hello world", 0, 100);
    assert_eq!(join_words(&hyp.confident_words(b(0.6), b(-1.0))), "hello world");
}

#[test]
fn key_of_other_scripts_is_lowercased() {
    assert_eq!(Word::new("«ÉCOLE»", 0, 1).key(), "école");
    assert_eq!(Word::new("--", 0, 1).key(), "");
    assert_eq!(Word::new("", 0, 1).key(), "");
}

#[test]
fn split_fills_the_span_without_gaps() {
    let ws = segment("one two three", 100, 110, 0.0, 0.0).to_words();
    let times: Vec<(u32, u32)> = ws.iter().map(|w| (w.t0_cs, w.t1_cs)).collect();
    assert_eq!(times, vec![(100, 103), (103, 106), (106, 110)]);
}

#[test]
fn backward_segment_has_no_span() {
    let ws = segment("a b", 50, 20, 0.0, 0.0).to_words();
    assert_eq!(ws, vec![Word::new("a", 50, 50), Word::new("b", 50, 50)]);
}

#[test]
fn words_are_split_at_any_white_space() {
    let ws = segment("\ta\u{a0}b\u{3000}c \n", 0, 3, 0.0, 0.0).to_words();
    assert_eq!(join_words(&ws), "a b c");
}

#[test]
fn oversized_spans_are_noticed() {
    assert!(segment("a b", 0, 10, 0.0, 0.0).can_split());
    assert!(!segment("a b c", 0, u32::MAX, 0.0, 0.0).can_split());
    let hyp = Hypothesis {
        segments: vec![segment("a b c", 0, u32::MAX, 0.0, 0.0)],
    };
    assert!(!hyp.can_split_confident(b(0.6), b(-1.0)));
    // a segment that the filter drops does not matter
    assert!(hyp.can_split_confident(b(-0.5), b(-1.0)));
    assert!(Word::new("x", 0, 10).can_shift(5));
    assert!(!Word::new("x", 0, 10).can_shift(u32::MAX));
}

#[test]
fn gate_lets_the_bounds_through() {
    let hyp = Hypothesis {
        segments: vec![segment("edge", 0, 10, 0.6, -1.0)],
    };
    assert_eq!(join_words(&hyp.confident_words(b(0.6), b(-1.0))), "edge");
}

#[test]
fn gate_drops_scores_that_are_not_numbers() {
    let hyp = Hypothesis {
        segments: vec![segment("nan", 0, 10, f32::NAN, 0.0), segment("nan", 0, 10, 0.0, f32::NAN)],
    };
    assert!(hyp.confident_words(b(0.6), b(-1.0)).is_empty());
}

// --- stabilization ---------------------------------------------------------

/// Words with sequential 10cs spans starting at `start_cs`.
fn words(texts: &[&str], start_cs: u32) -> Vec<Word> {
    texts
        .iter()
        .enumerate()
        .map(|(i, t)| {
            let t0 = start_cs + i as u32 * 10;
            Word::new(t, t0, t0 + 10)
        })
        .collect()
}

#[test]
fn first_hypothesis_commits_nothing() {
    let mut s = Stabilizer::new();
    let out = s.observe(words(&["the", "quick", "brown"], 0));
    assert!(out.newly_committed.is_empty());
    assert_eq!(join_words(&out.volatile), "the quick brown");
}

#[test]
fn agreement_commits_the_agreed_prefix() {
    let mut s = Stabilizer::new();
    s.observe(words(&["the", "quick", "brown"], 0));
    let out = s.observe(words(&["the", "quick", "brown", "fox"], 0));
    assert_eq!(join_words(&out.newly_committed), "the quick brown");
    assert_eq!(join_words(&out.volatile), "fox");
    assert_eq!(join_words(s.committed()), "the quick brown");
}

#[test]
fn disagreement_keeps_tail_volatile_and_revises() {
    let mut s = Stabilizer::new();
    s.observe(words(&["the", "quick"], 0));
    // second window disagrees after "the"
    let out = s.observe(words(&["the", "slow"], 0));
    assert_eq!(join_words(&out.newly_committed), "the");
    assert_eq!(join_words(&out.volatile), "slow");
    // a third window can still revise the volatile tail
    let out3 = s.observe(words(&["slow", "loris"], 10));
    assert_eq!(join_words(&out3.newly_committed), "slow");
    assert_eq!(join_words(&out3.volatile), "loris");
}

#[test]
fn case_and_punctuation_differences_still_agree() {
    let mut s = Stabilizer::new();
    s.observe(words(&["The", "quick"], 0));
    let out = s.observe(words(&["the,", "QUICK"], 0));
    assert_eq!(out.newly_committed.len(), 2);
    // display text comes from the latest hypothesis
    assert_eq!(join_words(&out.newly_committed), "the, QUICK");
}

#[test]
fn committed_time_advances_to_last_word_end() {
    let mut s = Stabilizer::new();
    s.observe(words(&["a", "b", "c"], 0));
    let out = s.observe(words(&["a", "b", "c", "d"], 0));
    // committed a,b,c -> last end = 30cs
    assert_eq!(out.committed_up_to_cs, 30);
}

#[test]
fn ngram_overlap_prevents_duplicate_boundary_words() {
    let mut s = Stabilizer::new();
    // commit "the quick brown fox"
    s.observe(words(&["the", "quick", "brown", "fox"], 0));
    s.observe(words(&["the", "quick", "brown", "fox"], 0));
    assert_eq!(join_words(s.committed()), "the quick brown fox");
    // the next window (after a trim) re-emits "fox" as pre-roll, then continues
    let mut w = words(&["fox", "jumps", "over"], 35);
    // a timestamp that survives the time filter (t1 > 40), so that the overlap removal and
    // not the time filter is what removes it
    w[0] = Word::new("fox", 38, 46);
    // the same continuation twice, so that both windows fully agree
    s.observe(w.clone());
    s.observe(w);
    // "fox" must appear exactly once
    assert_eq!(join_words(s.committed()), "the quick brown fox jumps over");
    assert_eq!(
        s.committed().iter().filter(|w| w.key() == "fox").count(),
        1,
        "boundary word 'fox' must not be duplicated"
    );
}

#[test]
fn empty_hypothesis_preserves_volatile_tail() {
    let mut s = Stabilizer::new();
    s.observe(words(&["pending", "words"], 0));
    // a silent window returns nothing: the tail must survive, not be wiped
    let out = s.observe(Vec::new());
    assert_eq!(join_words(&out.volatile), "pending words");
    assert!(out.newly_committed.is_empty());
    // and it can still be flushed afterwards
    assert_eq!(join_words(&s.flush()), "pending words");
}

#[test]
fn flush_commits_volatile_tail() {
    let mut s = Stabilizer::new();
    s.observe(words(&["hello", "there"], 0));
    s.observe(words(&["hello", "there", "friend"], 0)); // commit hello,there; tail=friend
    let flushed = s.flush();
    assert_eq!(join_words(&flushed), "friend");
    assert_eq!(join_words(s.committed()), "hello there friend");
}

#[test]
fn already_committed_words_are_filtered_by_time() {
    let mut s = Stabilizer::new();
    s.observe(words(&["one", "two"], 0));
    s.observe(words(&["one", "two", "three"], 0)); // commit one,two (end 20)
    // a stale window re-presenting only old words commits nothing new
    let out = s.observe(words(&["one", "two"], 0));
    assert!(out.newly_committed.is_empty());
}

#[test]
fn committed_words_survive_later_hypotheses() {
    let mut s = Stabilizer::new();
    s.observe(words(&["a", "b"], 0));
    s.observe(words(&["a", "b"], 0));
    let before = s.committed().to_vec();
    s.observe(words(&["x", "y"], 20));
    s.observe(words(&["z"], 30));
    s.flush();
    assert_eq!(&s.committed()[..before.len()], &before[..]);
    assert_eq!(s.last_committed_cs(), 40);
}

#[test]
fn longest_repeated_run_is_dropped() {
    let mut s = Stabilizer::new();
    s.observe(words(&["so", "so", "so"], 0));
    s.observe(words(&["so", "so", "so"], 0));
    assert_eq!(s.committed().len(), 3);
    // two of three words repeat the end of the transcript; "yes" is new
    let out = s.observe(words(&["so", "so", "yes"], 30));
    assert_eq!(join_words(&out.volatile), "yes");
}

#[test]
fn second_flush_does_nothing() {
    let mut s = Stabilizer::new();
    s.observe(words(&["a"], 0));
    assert_eq!(s.flush().len(), 1);
    assert!(s.flush().is_empty());
    assert_eq!(s.committed().len(), 1);
    let copy = s.clone();
    assert_eq!(join_words(copy.committed()), "a");
}

// --- transcript ------------------------------------------------------------

fn w(t: &str) -> Word {
    Word::new(t, 0, 1)
}

#[test]
fn view_accumulates_committed_and_replaces_volatile() {
    let mut view = TranscriptView::default();
    view.apply(&TranscriptUpdate {
        source: "Mic".into(),
        newly_committed: vec![w("the"), w("quick")],
        volatile: vec![w("brown")],
    });
    assert_eq!(view.committed_text(), "the quick");
    assert_eq!(view.full_text(), "the quick brown");

    // next update commits "brown", revises tail to "fox"
    view.apply(&TranscriptUpdate {
        source: "Mic".into(),
        newly_committed: vec![w("brown")],
        volatile: vec![w("fox")],
    });
    assert_eq!(view.committed_text(), "the quick brown");
    assert_eq!(view.full_text(), "the quick brown fox");
}

#[test]
fn empty_view_is_empty() {
    assert!(TranscriptView::default().is_empty());
    assert_eq!(TranscriptView::default().full_text(), "");
}

#[test]
fn full_text_without_one_of_its_parts() {
    let mut view = TranscriptView::default();
    view.apply(&TranscriptUpdate {
        volatile: vec![w("tail")],
        ..TranscriptUpdate::default()
    });
    assert_eq!(view.full_text(), "tail");
    assert!(!view.is_empty());
    view.apply(&TranscriptUpdate {
        newly_committed: vec![w("head")],
        ..TranscriptUpdate::default()
    });
    assert_eq!(view.full_text(), "head");
    assert_eq!(view.clone(), view);
}

#[test]
fn updates_replay_the_stabilizer() {
    let mut s = Stabilizer::new();
    let mut view = TranscriptView::default();
    for texts in [vec!["a", "b"], vec!["a", "b", "c"], vec!["a", "b", "c", "d"]] {
        let out = s.observe(words(&texts, 0));
        view.apply(&TranscriptUpdate {
            source: "Mic".into(),
            newly_committed: out.newly_committed,
            volatile: out.volatile,
        });
    }
    assert_eq!(view.committed, s.committed().to_vec());
    assert_eq!(join_words(&view.volatile), "d");
}
