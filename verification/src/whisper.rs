//! From the transcription model's raw segments to a [`Hypothesis`], and the settings it is run
//! with.

use crate::binary32::Binary32;
use crate::config::ModelChoice;
use crate::word::Hypothesis;
use crate::word::Segment;
use vstd::prelude::*;

verus! {

/// A segment as the model gives it. Times are in centiseconds.
#[derive(Debug)]
pub struct RawSegment {
    pub text: String,
    pub start: i64,
    pub end: i64,
    pub no_speech_prob: Binary32,
    pub avg_logprob: Binary32,
}

/// A time that is not negative, in the width of a timestamp.
pub open spec fn time_of(cs: i64) -> u32 {
    if cs < 0 {
        0
    } else {
        cs as u32
    }
}

/// Is `segment` what is made of the raw one?
pub open spec fn made_of(segment: Segment, raw: RawSegment) -> bool {
    &&& segment.text@ == crate::text::trimmed(raw.text@)
    &&& segment.t0_cs == time_of(raw.start)
    &&& segment.t1_cs == time_of(raw.end)
    &&& segment.no_speech_prob == raw.no_speech_prob
    &&& segment.avg_logprob == raw.avg_logprob
}

/// The raw segments that say anything.
pub open spec fn spoken(raw: Seq<RawSegment>) -> Seq<RawSegment> {
    raw.filter(|r: RawSegment| !crate::text::blank(r.text@))
}

fn time(cs: i64) -> (t: u32)
    ensures
        t == time_of(cs),
{
    if cs < 0 {
        0
    } else {
        cs as u32
    }
}

/// The hypothesis that raw segments make: blank ones are left out, the others trimmed.
pub fn hypothesis_of(raw: &Vec<RawSegment>) -> (hypothesis: Hypothesis)
    ensures
        hypothesis.segments@.len() == spoken(raw@).len(),
        forall|i: int|
            0 <= i < spoken(raw@).len() ==> made_of(
                #[trigger] hypothesis.segments@[i],
                spoken(raw@)[i],
            ),
{
    let ghost says = |r: RawSegment| !crate::text::blank(r.text@);
    let mut segments: Vec<Segment> = Vec::new();
    let mut i: usize = 0;
    assert(raw@.take(0).filter(says).len() == 0) by {
        reveal(Seq::filter);
    }
    while i < raw.len()
        invariant
            i <= raw@.len(),
            says == (|r: RawSegment| !crate::text::blank(r.text@)),
            segments@.len() == raw@.take(i as int).filter(says).len(),
            forall|k: int|
                0 <= k < segments@.len() ==> made_of(
                    #[trigger] segments@[k],
                    raw@.take(i as int).filter(says)[k],
                ),
        decreases raw.len() - i,
    {
        let r = &raw[i];
        let text = r.text.as_str().trim();
        proof {
            reveal(Seq::filter);
            assert(raw@.take(i + 1).drop_last() == raw@.take(i as int));
            assert(raw@.take(i + 1).last() == raw@[i as int]);
        }
        if !text.is_empty() {
            segments.push(
                Segment {
                    text: text.to_string(),
                    t0_cs: time(r.start),
                    t1_cs: time(r.end),
                    no_speech_prob: r.no_speech_prob,
                    avg_logprob: r.avg_logprob,
                },
            );
        }
        i += 1;
    }
    assert(raw@.take(i as int) == raw@);
    Hypothesis { segments }
}

/// Does every segment of a hypothesis say something?
pub proof fn law_segments_are_spoken(raw: Seq<RawSegment>, i: int)
    requires
        0 <= i < spoken(raw).len(),
    ensures
        !crate::text::blank(spoken(raw)[i].text@),
{
    let says = |r: RawSegment| !crate::text::blank(r.text@);
    raw.lemma_filter_pred(says, i);
    assert(says(raw.filter(says)[i]));
}

/// The language that the model is told, if it knows only one.
pub fn language(model: ModelChoice) -> (language: Option<&'static str>)
    ensures
        match language {
            Some(name) => model != ModelChoice::LargeV3Turbo && name@ == "en"@,
            None => model == ModelChoice::LargeV3Turbo,
        },
{
    if model.is_english_only() {
        Some("en")
    } else {
        None
    }
}

/// How many threads transcription gets: two cores are left for capture and the UI, but it has
/// two at least, and four if the number of cores is unknown.
pub fn worker_threads(cores: Option<usize>) -> (n: i32)
    ensures
        match cores {
            Some(cores) => if cores < 4 {
                n == 2
            } else {
                n == (cores - 2) as i32
            },
            None => n == 4,
        },
{
    match cores {
        Some(cores) => {
            let left: usize = cores.saturating_sub(2);
            if left < 2 {
                2
            } else {
                left as i32
            }
        },
        None => 4,
    }
}

/// The segments that say something are kept, all of them and in order, and no others.
pub proof fn law_spoken_segments_are_kept(raw: Seq<RawSegment>, next: RawSegment)
    ensures
        spoken(Seq::<RawSegment>::empty()).len() == 0,
        (exists|i: int| 0 <= i < next.text@.len() && !crate::text::white_space(
            #[trigger] next.text@[i],
        )) ==> spoken(raw.push(next)) == spoken(raw).push(next),
        (forall|i: int| 0 <= i < next.text@.len() ==> crate::text::white_space(
            #[trigger] next.text@[i],
        )) ==> spoken(raw.push(next)) == spoken(raw),
{
    reveal(Seq::filter);
    crate::text::law_blank(next.text@);
    assert(raw.push(next).drop_last() =~= raw);
}

/// A segment keeps its scores and its times, negative ones counting as zero, and its text
/// without the white space around it.
pub proof fn law_segment_keeps_what_was_said(segment: Segment, raw: RawSegment)
    requires
        made_of(segment, raw),
    ensures
        segment.text@ == crate::text::trimmed(raw.text@),
        raw.start < 0 ==> segment.t0_cs == 0,
        0 <= raw.start <= u32::MAX ==> segment.t0_cs == raw.start,
        raw.end < 0 ==> segment.t1_cs == 0,
        0 <= raw.end <= u32::MAX ==> segment.t1_cs == raw.end,
        segment.no_speech_prob == raw.no_speech_prob,
        segment.avg_logprob == raw.avg_logprob,
{
}

} // verus!
