//! Transcription from end to end: source, window, transcriber, stabilizer, sink. Generic over
//! the ports, so nothing here knows of a device or a model.

use crate::aggregator::Window;
use crate::aggregator::WindowAggregator;
use crate::aggregator::WindowState;
use crate::binary32::Binary32;
use crate::config::SessionConfig;
use crate::error::CaptureError;
use crate::error::PipelineError;
use crate::error::TranscribeError;
use crate::ports::AudioSource;
use crate::ports::Transcriber;
use crate::ports::TranscriptSink;
use crate::stabilize::Stabilizer;
use crate::stabilize::StabilizerState;
use crate::transcript::TranscriptUpdate;
use crate::transcript::UpdateView;
use crate::vad::Reading;
use crate::vad::VadConfig;
use crate::word::Hypothesis;
use crate::word::Segment;
use crate::word::Word;
use crate::word::WordView;
use vstd::prelude::*;

verus! {

/// Result of transcribing one window.
#[derive(Debug, PartialEq)]
pub struct StepOutcome {
    pub update: TranscriptUpdate,
    /// Absolute centiseconds the audio buffer may now be trimmed up to.
    pub committed_up_to_cs: u32,
}

impl Clone for StepOutcome {
    fn clone(&self) -> (copy: Self)
        ensures
            copy.update@ == self.update@,
            copy.committed_up_to_cs == self.committed_up_to_cs,
    {
        StepOutcome {
            update: self.update.clone(),
            committed_up_to_cs: self.committed_up_to_cs,
        }
    }
}

// ---------------------------------------------------------------------------
// One hypothesis
// ---------------------------------------------------------------------------

/// The words of a hypothesis that count: those that pass the filter.
pub open spec fn gated(segments: Seq<Segment>, cfg: SessionConfig) -> Seq<WordView> {
    crate::word::confident_part(segments, cfg.no_speech_max, cfg.logprob_min)
}

/// Words moved to absolute time.
pub open spec fn shifted_words(words: Seq<WordView>, offset_cs: u32) -> Seq<WordView> {
    Seq::new(words.len(), |i: int| words[i].shifted(offset_cs))
}

/// What a hypothesis about a window says, in absolute time.
pub open spec fn heard_words(
    segments: Seq<Segment>,
    offset_cs: u32,
    cfg: SessionConfig,
) -> Seq<WordView> {
    shifted_words(gated(segments, cfg), offset_cs)
}

/// Do all the timestamps of a hypothesis fit, in the window and in absolute time?
pub open spec fn in_range(segments: Seq<Segment>, offset_cs: u32, cfg: SessionConfig) -> bool {
    &&& crate::word::confident_part_fits(segments, cfg.no_speech_max, cfg.logprob_min)
    &&& forall|i: int|
        0 <= i < gated(segments, cfg).len() ==> (#[trigger] gated(segments, cfg)[i]).shiftable(
            offset_cs,
        )
}

/// Do all the timestamps of a hypothesis fit, in the window and in absolute time?
pub fn is_in_range(hyp: &Hypothesis, offset_cs: u32, cfg: &SessionConfig) -> (answer: bool)
    ensures
        answer == in_range(hyp.segments@, offset_cs, *cfg),
{
    if !hyp.can_split_confident(cfg.no_speech_max, cfg.logprob_min) {
        return false;
    }
    let words = hyp.confident_words(cfg.no_speech_max, cfg.logprob_min);
    let ghost views = gated(hyp.segments@, *cfg);
    assert(views.len() == words@.len()) by {
        assert(crate::word::word_views(words@).len() == words@.len());
    }
    let mut i: usize = 0;
    while i < words.len()
        invariant
            i <= words@.len(),
            views == gated(hyp.segments@, *cfg),
            views == crate::word::word_views(words@),
            forall|j: int| 0 <= j < i ==> (#[trigger] views[j]).shiftable(offset_cs),
        decreases words.len() - i,
    {
        assert(views[i as int] == words@[i as int]@);
        if !words[i].can_shift(offset_cs) {
            return false;
        }
        i += 1;
    }
    true
}

/// Gate the words of a hypothesis, shift them to absolute time, and fold them into the
/// stabilizer. Returns the UI delta and the new committed boundary.
pub fn infer_hypothesis(
    stabilizer: &mut Stabilizer,
    hyp: &Hypothesis,
    offset_cs: u32,
    label: &str,
    cfg: &SessionConfig,
) -> (outcome: StepOutcome)
    requires
        in_range(hyp.segments@, offset_cs, *cfg),
    ensures
        final(stabilizer)@ == old(stabilizer)@.observe(
            heard_words(hyp.segments@, offset_cs, *cfg),
        ),
        outcome.update@ == crate::transcript::update_of(
            label@,
            old(stabilizer)@,
            heard_words(hyp.segments@, offset_cs, *cfg),
        ),
        outcome.committed_up_to_cs == final(stabilizer)@.last_committed_cs,
{
    let words = hyp.confident_words(cfg.no_speech_max, cfg.logprob_min);
    let ghost views = gated(hyp.segments@, *cfg);
    let mut shifted: Vec<Word> = Vec::new();
    assert(views.len() == words@.len()) by {
        assert(crate::word::word_views(words@).len() == words@.len());
    }
    let mut i: usize = 0;
    while i < words.len()
        invariant
            i <= words@.len(),
            in_range(hyp.segments@, offset_cs, *cfg),
            views == gated(hyp.segments@, *cfg),
            views == crate::word::word_views(words@),
            crate::word::word_views(shifted@) == shifted_words(views, offset_cs).take(i as int),
        decreases words.len() - i,
    {
        assert(views[i as int] == words@[i as int]@);
        let ghost before = shifted@;
        shifted.push(words[i].shifted(offset_cs));
        i += 1;
        assert(crate::word::word_views(shifted@) =~= crate::word::word_views(before).push(
            shifted@.last()@,
        ));
        assert(shifted_words(views, offset_cs).take(i as int) =~= shifted_words(
            views,
            offset_cs,
        ).take(i - 1).push(views[i - 1].shifted(offset_cs)));
    }
    assert(shifted_words(views, offset_cs).take(i as int) =~= shifted_words(views, offset_cs));
    let outcome = stabilizer.observe(shifted);
    StepOutcome {
        update: TranscriptUpdate {
            source: label.to_string(),
            newly_committed: outcome.newly_committed,
            volatile: outcome.volatile,
        },
        committed_up_to_cs: outcome.committed_up_to_cs,
    }
}

/// What is said of a hypothesis whose timestamps do not fit.
pub open spec fn out_of_range_text() -> Seq<char> {
    "timestamps out of range"@
}

/// What is said of more audio than can be counted.
pub open spec fn uncountable_text() -> Seq<char> {
    "too much audio to count"@
}

/// Does `result` follow from what the transcriber said about a window that starts at
/// `offset_cs`, and is `after` the state it leaves?
pub open spec fn inferred(
    before: StabilizerState,
    after: StabilizerState,
    said: Result<Seq<Segment>, TranscribeError>,
    offset_cs: u32,
    label: Seq<char>,
    cfg: SessionConfig,
    result: Result<StepOutcome, PipelineError>,
) -> bool {
    match said {
        Err(error) => result == Err::<StepOutcome, PipelineError>(
            PipelineError::Transcribe(error),
        ) && after == before,
        Ok(segments) => if in_range(segments, offset_cs, cfg) {
            let words = heard_words(segments, offset_cs, cfg);
            &&& after == before.observe(words)
            &&& result matches Ok(outcome) && outcome.update@ == crate::transcript::update_of(
                label,
                before,
                words,
            ) && outcome.committed_up_to_cs == after.last_committed_cs
        } else {
            &&& after == before
            &&& result matches Err(PipelineError::Transcribe(TranscribeError::Inference(why)))
                && why@ == out_of_range_text()
        },
    }
}

/// Is this what comes of polling the source?
pub open spec fn capture_of<S, A: AudioSource<S>>(
    source: &mut A,
    captured: Result<Seq<S>, CaptureError>,
) -> bool {
    exists|answer: Result<Vec<S>, CaptureError>|
        #[trigger] call_ensures(A::poll, (source,), answer) && captured == match answer {
            Ok(audio) => Ok::<Seq<S>, CaptureError>(audio@),
            Err(error) => Err(error),
        }
}

/// Is this what comes of handing the transcriber this audio?
pub open spec fn transcription_of<S, T: Transcriber<S>>(
    transcriber: &mut T,
    audio: Seq<S>,
    said: Result<Seq<Segment>, TranscribeError>,
) -> bool {
    exists|samples: &[S], answer: Result<Hypothesis, TranscribeError>|
        #[trigger] call_ensures(T::transcribe, (transcriber, samples), answer) && samples@ == audio
            && said == match answer {
            Ok(hyp) => Ok::<Seq<Segment>, TranscribeError>(hyp.segments@),
            Err(error) => Err(error),
        }
}

/// Transcribe one window, gate hallucinations, shift to absolute time, and fold into the
/// stabilizer. Returns the UI delta and the new committed boundary, or the transcriber's
/// error.
pub fn infer_window<S, T: Transcriber<S>>(
    transcriber: &mut T,
    stabilizer: &mut Stabilizer,
    window: &Window<S>,
    label: &str,
    cfg: &SessionConfig,
) -> (result: Result<StepOutcome, PipelineError>)
    ensures
        exists|asked: &mut T, said: Result<Seq<Segment>, TranscribeError>|
            #[trigger] transcription_of(asked, window.samples@, said) && *asked == *old(transcriber)
                && *final(asked) == *final(transcriber) && #[trigger] inferred(
                old(stabilizer)@,
                final(stabilizer)@,
                said,
                window.offset_cs,
                label@,
                *cfg,
                result,
            ),
{
    let ghost before = stabilizer@;
    let ghost listener = *transcriber;
    let samples = window.samples.as_slice();
    let answer = transcriber.transcribe(samples);
    let ghost asked = choose|asked: &mut T|
        #[trigger] call_ensures(T::transcribe, (asked, samples), answer) && *asked == listener
            && *final(asked) == *transcriber;
    match answer {
        Ok(hyp) => {
            let ghost said: Result<Seq<Segment>, TranscribeError> = Ok(hyp.segments@);
            assert(transcription_of(asked, window.samples@, said));
            if !is_in_range(&hyp, window.offset_cs, cfg) {
                let why = "timestamps out of range".to_string();
                let result = Err(PipelineError::Transcribe(TranscribeError::Inference(why)));
                assert(inferred(
                    before,
                    stabilizer@,
                    said,
                    window.offset_cs,
                    label@,
                    *cfg,
                    result,
                ));
                return result;
            }
            let outcome = infer_hypothesis(stabilizer, &hyp, window.offset_cs, label, cfg);
            let result = Ok(outcome);
            assert(inferred(before, stabilizer@, said, window.offset_cs, label@, *cfg, result));
            result
        },
        Err(error) => {
            let ghost said: Result<Seq<Segment>, TranscribeError> = Err(error);
            assert(transcription_of(asked, window.samples@, said));
            let result = Err(PipelineError::Transcribe(error));
            assert(inferred(before, stabilizer@, said, window.offset_cs, label@, *cfg, result));
            result
        },
    }
}

/// The update of a flush: the whole tail committed, nothing volatile.
pub open spec fn flush_update(label: Seq<char>, state: StabilizerState) -> UpdateView {
    UpdateView { source: label, newly_committed: state.tail, volatile: seq![] }
}

/// Commit the stabilizer's volatile tail (utterance end / stop). The returned update has an
/// empty volatile tail.
pub fn flush(stabilizer: &mut Stabilizer, label: &str) -> (update: TranscriptUpdate)
    ensures
        final(stabilizer)@ == old(stabilizer)@.flush(),
        update@ == flush_update(label@, old(stabilizer)@),
{
    let flushed = stabilizer.flush();
    TranscriptUpdate { source: label.to_string(), newly_committed: flushed, volatile: Vec::new() }
}

// ---------------------------------------------------------------------------
// The pipeline
// ---------------------------------------------------------------------------

/// A single-source, single-threaded transcription pipeline. Drives one `tick()` at a time:
/// pull, buffer, (maybe) transcribe + stabilize + emit + trim, (maybe) flush on utterance end.
pub struct Pipeline<
    S: Copy,
    A: AudioSource<S>,
    T: Transcriber<S>,
    K: TranscriptSink,
    F: Fn(&[S], &VadConfig, Binary32) -> Reading,
> {
    source: A,
    transcriber: T,
    sink: K,
    aggregator: WindowAggregator<S>,
    stabilizer: Stabilizer,
    cfg: SessionConfig,
    label: String,
    measure: F,
}

/// A pipeline's state, as far as it is the library's.
#[verifier::ext_equal]
pub struct PipelineState<S> {
    pub window: WindowState<S>,
    pub words: StabilizerState,
    /// The updates emitted so far.
    pub emitted: Seq<UpdateView>,
    pub cfg: SessionConfig,
    pub label: Seq<char>,
}

impl<S> PipelineState<S> {
    /// Can this much more audio be counted?
    pub open spec fn can_hear(self, audio: Seq<S>) -> bool {
        crate::audio::countable_samples(self.window.total() + audio.len()) && self.window.total()
            + audio.len() <= usize::MAX
    }

    /// Is the transcriber asked after this has been captured?
    pub open spec fn asks(
        self,
        captured: Result<Seq<S>, CaptureError>,
        readings: Seq<Reading>,
    ) -> bool {
        captured matches Ok(audio) && self.can_hear(audio) && self.window.push(
            audio,
            readings,
        ).window_due()
    }

    /// The state after `audio`, whose frames measure as `readings`, and a poll for a window.
    pub open spec fn hear(self, audio: Seq<S>, readings: Seq<Reading>) -> PipelineState<S> {
        PipelineState { window: self.window.push(audio, readings).polled(), ..self }
    }

    /// The state after the words of a window: told to the sink, and the audio trimmed.
    pub open spec fn learn(self, words: Seq<WordView>) -> PipelineState<S> {
        let learned = self.words.observe(words);
        PipelineState {
            words: learned,
            emitted: self.emitted.push(
                crate::transcript::update_of(self.label, self.words, words),
            ),
            window: self.window.trim_to(learned.last_committed_cs),
            ..self
        }
    }

    /// The state after the tail has been committed; the sink is told if there was one.
    pub open spec fn flush(self) -> PipelineState<S> {
        PipelineState {
            words: self.words.flush(),
            emitted: if self.words.tail.len() > 0 {
                self.emitted.push(flush_update(self.label, self.words))
            } else {
                self.emitted
            },
            ..self
        }
    }

    /// The state after a look at whether the utterance has ended.
    pub open spec fn settle(self) -> PipelineState<S> {
        if self.window.utterance_ended() {
            PipelineState { window: self.window.flushed(), ..self.flush() }
        } else {
            self
        }
    }

    /// Does `result` follow from what the source and, where a window was due, the transcriber
    /// said, and is `after` the state it leaves?
    pub open spec fn ticked(
        self,
        captured: Result<Seq<S>, CaptureError>,
        readings: Seq<Reading>,
        said: Result<Seq<Segment>, TranscribeError>,
        after: PipelineState<S>,
        result: Result<(), PipelineError>,
    ) -> bool {
        match captured {
            Err(error) => after == self && result == Err::<(), PipelineError>(
                PipelineError::Capture(error),
            ),
            Ok(audio) => {
                let heard = self.hear(audio, readings);
                let offset = crate::audio::cs_of_samples(heard.window.offset);
                if !self.can_hear(audio) {
                    &&& after == self
                    &&& result matches Err(PipelineError::Capture(CaptureError::Backend(why)))
                        && why@ == uncountable_text()
                } else if !self.window.push(audio, readings).window_due() {
                    after == heard.settle() && result == Ok::<(), PipelineError>(())
                } else {
                    match said {
                        Err(error) => after == heard && result == Err::<(), PipelineError>(
                            PipelineError::Transcribe(error),
                        ),
                        Ok(segments) => if in_range(segments, offset, self.cfg) {
                            after == heard.learn(
                                heard_words(segments, offset, self.cfg),
                            ).settle() && result == Ok::<(), PipelineError>(())
                        } else {
                            &&& after == heard
                            &&& result matches Err(
                                PipelineError::Transcribe(TranscribeError::Inference(why)),
                            ) && why@ == out_of_range_text()
                        },
                    }
                }
            },
        }
    }
}

impl<
    S: Copy,
    A: AudioSource<S>,
    T: Transcriber<S>,
    K: TranscriptSink,
    F: Fn(&[S], &VadConfig, Binary32) -> Reading,
> View for Pipeline<S, A, T, K, F> {
    type V = PipelineState<S>;

    closed spec fn view(&self) -> PipelineState<S> {
        PipelineState {
            window: self.aggregator@,
            words: self.stabilizer@,
            emitted: self.sink.emitted(),
            cfg: self.cfg,
            label: self.label@,
        }
    }
}

impl<
    S: Copy,
    A: AudioSource<S>,
    T: Transcriber<S>,
    K: TranscriptSink,
    F: Fn(&[S], &VadConfig, Binary32) -> Reading,
> Pipeline<S, A, T, K, F> {
    /// How frames are measured.
    pub closed spec fn measure(&self) -> F {
        self.measure
    }

    /// Where the audio comes from.
    pub closed spec fn source(&self) -> A {
        self.source
    }

    /// What turns audio into words.
    pub closed spec fn transcriber(&self) -> T {
        self.transcriber
    }

    /// What holds of every pipeline: the window is valid, and every frame can be measured.
    pub open spec fn valid(&self) -> bool {
        self@.window.valid() && crate::vad::measures_all(self.measure())
    }

    pub fn new(
        source: A,
        transcriber: T,
        sink: K,
        cfg: SessionConfig,
        vad_cfg: VadConfig,
        measure: F,
    ) -> (pipeline: Self)
        requires
            crate::vad::measures_all(measure),
        ensures
            pipeline.valid(),
            pipeline.measure() == measure,
            pipeline.source() == source,
            pipeline.transcriber() == transcriber,
            pipeline@.window == WindowState::<S>::start(cfg, vad_cfg),
            pipeline@.words == StabilizerState::start(),
            pipeline@.emitted == sink.emitted(),
            pipeline@.cfg == cfg,
            exists|name: &str|
                #[trigger] call_ensures(A::label, (&source,), name) && pipeline@.label == name@,
    {
        let name = source.label();
        let label = name.to_string();
        assert(call_ensures(A::label, (&source,), name));
        Pipeline {
            source,
            transcriber,
            sink,
            aggregator: WindowAggregator::new(cfg, vad_cfg),
            stabilizer: Stabilizer::new(),
            cfg,
            label,
            measure,
        }
    }

    /// Start capturing; the source's error is the pipeline's.
    pub fn start(&mut self) -> (result: Result<(), PipelineError>)
        ensures
            final(self)@ == old(self)@,
            final(self).measure() == old(self).measure(),
            final(self).transcriber() == old(self).transcriber(),
            exists|asked: &mut A, answer: Result<(), CaptureError>|
                #[trigger] call_ensures(A::start, (asked,), answer) && *asked == old(self).source()
                    && *final(asked) == final(self).source() && result == match answer {
                    Ok(_) => Ok::<(), PipelineError>(()),
                    Err(error) => Err(PipelineError::Capture(error)),
                },
    {
        match self.source.start() {
            Ok(()) => Ok(()),
            Err(error) => Err(PipelineError::Capture(error)),
        }
    }

    /// One iteration of the pipeline.
    pub fn tick(&mut self) -> (result: Result<(), PipelineError>)
        requires
            old(self).valid(),
        ensures
            final(self).valid(),
            final(self).measure() == old(self).measure(),
            exists|
                asked: &mut A,
                captured: Result<Seq<S>, CaptureError>,
                readings: Seq<Reading>,
                said: Result<Seq<Segment>, TranscribeError>,
            |
                #[trigger] capture_of(asked, captured) && *asked == old(self).source()
                    && *final(asked) == final(self).source() && (captured matches Ok(audio)
                    ==> old(self)@.can_hear(audio) ==> readings.len() == crate::aggregator::frames_in(
                    old(self)@.window.unjudged(audio),
                ) && crate::aggregator::frames_measured(
                    old(self).measure(),
                    old(self)@.window.vad,
                    old(self)@.window.unjudged(audio),
                    readings,
                )) && (if old(self)@.asks(captured, readings) {
                    exists|listener: &mut T|
                        #[trigger] transcription_of(
                            listener,
                            old(self)@.window.push(captured->Ok_0, readings).buf,
                            said,
                        ) && *listener == old(self).transcriber()
                            && *final(listener) == final(self).transcriber()
                } else {
                    final(self).transcriber() == old(self).transcriber()
                }) && #[trigger] old(self)@.ticked(
                    captured,
                    readings,
                    said,
                    final(self)@,
                    result,
                ),
    {
        let ghost begin = self@;
        let ghost listener = self.transcriber;
        let ghost nothing: Result<Seq<Segment>, TranscribeError> = Ok(Seq::<Segment>::empty());
        let ghost no_readings = Seq::<Reading>::empty();
        let ghost device = self.source;
        let answer = self.source.poll();
        let ghost asked = choose|asked: &mut A|
            #[trigger] call_ensures(A::poll, (asked,), answer) && *asked == device
                && *final(asked) == self.source;
        let audio = match answer {
            Ok(audio) => audio,
            Err(error) => {
                let ghost captured: Result<Seq<S>, CaptureError> = Err(error);
                assert(capture_of(asked, captured));
                let result = Err(PipelineError::Capture(error));
                assert(begin.ticked(captured, no_readings, nothing, self@, result));
                return result;
            },
        };
        let ghost captured: Result<Seq<S>, CaptureError> = Ok(audio@);
        assert(capture_of(asked, captured));
        if !self.aggregator.can_take(audio.len()) {
            let why = "too much audio to count".to_string();
            let result = Err(PipelineError::Capture(CaptureError::Backend(why)));
            assert(begin.ticked(captured, no_readings, nothing, self@, result));
            return result;
        }
        self.aggregator.push_audio(audio.as_slice(), &self.measure);
        let ghost readings = choose|readings: Seq<Reading>|
            readings.len() == crate::aggregator::frames_in(begin.window.unjudged(audio@))
                && crate::aggregator::frames_measured(
                self.measure,
                begin.window.vad,
                begin.window.unjudged(audio@),
                readings,
            ) && self@.window == #[trigger] begin.window.push(audio@, readings);
        let window = self.aggregator.poll_window();
        let ghost heard = begin.hear(audio@, readings);
        assert(self@ == heard);
        match window {
            Some(window) => {
                let ghost offset = window.offset_cs;
                let inference = infer_window(
                    &mut self.transcriber,
                    &mut self.stabilizer,
                    &window,
                    self.label.as_str(),
                    &self.cfg,
                );
                let ghost (heard_by, said) = choose|
                    heard_by: &mut T,
                    said: Result<Seq<Segment>, TranscribeError>,
                |
                    #[trigger] transcription_of(heard_by, window.samples@, said) && *heard_by
                        == listener && *final(heard_by) == self.transcriber && #[trigger] inferred(
                        begin.words,
                        self@.words,
                        said,
                        offset,
                        begin.label,
                        begin.cfg,
                        inference,
                    );
                match inference {
                    Ok(out) => {
                        self.sink.emit(&out.update);
                        self.aggregator.trim_to(out.committed_up_to_cs);
                        let ghost segments = said->Ok_0;
                        assert(self@ == heard.learn(heard_words(segments, offset, begin.cfg)));
                        self.settle();
                        let result = Ok(());
                        assert(begin.ticked(captured, readings, said, self@, result));
                        result
                    },
                    Err(error) => {
                        let result = Err(error);
                        assert(self@ == heard);
                        assert(begin.ticked(captured, readings, said, self@, result));
                        result
                    },
                }
            },
            None => {
                self.settle();
                let result = Ok(());
                assert(begin.ticked(captured, readings, nothing, self@, result));
                result
            },
        }
    }

    /// Flush if the utterance has ended.
    fn settle(&mut self)
        requires
            old(self).valid(),
        ensures
            final(self).valid(),
            final(self).measure() == old(self).measure(),
            final(self).source() == old(self).source(),
            final(self).transcriber() == old(self).transcriber(),
            final(self)@ == old(self)@.settle(),
    {
        if self.aggregator.utterance_ended() {
            self.flush();
            self.aggregator.note_flushed();
        }
    }

    /// Commit the volatile tail, and tell the sink if there was one.
    fn flush(&mut self)
        ensures
            final(self).measure() == old(self).measure(),
            final(self).source() == old(self).source(),
            final(self).transcriber() == old(self).transcriber(),
            final(self)@ == old(self)@.flush(),
    {
        let update = flush(&mut self.stabilizer, self.label.as_str());
        assert(update@.newly_committed.len() == update.newly_committed@.len());
        if update.newly_committed.len() > 0 {
            self.sink.emit(&update);
        }
    }

    /// Stop capture and flush any remaining volatile tail.
    pub fn stop(&mut self)
        ensures
            final(self).measure() == old(self).measure(),
            final(self).transcriber() == old(self).transcriber(),
            final(self)@ == old(self)@.flush(),
            exists|asked: &mut A|
                #[trigger] call_ensures(A::stop, (asked,), ()) && *asked == old(self).source()
                    && *final(asked) == final(self).source(),
    {
        self.source.stop();
        self.flush();
    }

    pub fn label(&self) -> (label: &str)
        ensures
            label@ == self@.label,
    {
        self.label.as_str()
    }
}

// ---------------------------------------------------------------------------
// Laws
// ---------------------------------------------------------------------------

/// Without speech nothing is transcribed and nothing is emitted: the words and the updates
/// stay as they are, whatever the transcriber would have said.
pub proof fn law_silence_emits_nothing<S>(
    state: PipelineState<S>,
    audio: Seq<S>,
    readings: Seq<Reading>,
    said: Result<Seq<Segment>, TranscribeError>,
    after: PipelineState<S>,
    result: Result<(), PipelineError>,
)
    requires
        !state.window.speech,
        !state.window.vad.hears_speech(crate::audio::VAD_FRAME as int, readings),
        state.ticked(Ok(audio), readings, said, after, result),
    ensures
        after.words == state.words,
        after.emitted == state.emitted,
{
    crate::aggregator::law_silence_is_not_transcribed(state.window, audio, readings);
}

/// What is emitted adds up: the committed words grow by exactly the newly committed words of
/// the updates that a tick emits, and never shrink.
pub proof fn law_tick_commits_what_it_emits<S>(
    state: PipelineState<S>,
    captured: Result<Seq<S>, CaptureError>,
    readings: Seq<Reading>,
    said: Result<Seq<Segment>, TranscribeError>,
    after: PipelineState<S>,
    result: Result<(), PipelineError>,
)
    requires
        state.ticked(captured, readings, said, after, result),
    ensures
        state.emitted.is_prefix_of(after.emitted),
        after.words.committed == state.words.committed + committed_by(
            after.emitted.skip(state.emitted.len() as int),
        ),
{
    lemma_committed_by(state, state);
    if let Ok(audio) = captured {
        let heard = state.hear(audio, readings);
        lemma_committed_by(state, heard);
        lemma_settle(state, heard);
        if let Ok(segments) = said {
            let offset = crate::audio::cs_of_samples(heard.window.offset);
            let words = heard_words(segments, offset, state.cfg);
            let learned = heard.learn(words);
            crate::stabilize::law_committed_is_append_only(state.words, words);
            assert(learned.emitted.drop_last() =~= heard.emitted);
            lemma_committed_push(state, heard, learned);
            lemma_settle(state, learned);
        }
    }
}

/// The words that updates commit, one after the other.
pub open spec fn committed_by(updates: Seq<UpdateView>) -> Seq<WordView>
    decreases updates.len(),
{
    if updates.len() == 0 {
        seq![]
    } else {
        committed_by(updates.drop_last()) + updates.last().newly_committed
    }
}

/// Has `now` emitted what it committed since `then`?
spec fn adds_up<S>(then: PipelineState<S>, now: PipelineState<S>) -> bool {
    &&& then.emitted.is_prefix_of(now.emitted)
    &&& now.words.committed == then.words.committed + committed_by(
        now.emitted.skip(then.emitted.len() as int),
    )
}

proof fn lemma_committed_by<S>(then: PipelineState<S>, now: PipelineState<S>)
    requires
        now.emitted == then.emitted,
        now.words.committed == then.words.committed,
    ensures
        adds_up(then, now),
{
    let rest = now.emitted.skip(then.emitted.len() as int);
    assert(rest =~= Seq::<UpdateView>::empty());
    assert(then.words.committed + committed_by(rest) =~= then.words.committed);
}

proof fn lemma_committed_push<S>(
    then: PipelineState<S>,
    now: PipelineState<S>,
    next: PipelineState<S>,
)
    requires
        adds_up(then, now),
        next.emitted.len() == now.emitted.len() + 1,
        next.emitted.drop_last() == now.emitted,
        next.words.committed == now.words.committed + next.emitted.last().newly_committed,
    ensures
        adds_up(then, next),
{
    let n = then.emitted.len() as int;
    let rest = next.emitted.skip(n);
    assert(rest.drop_last() =~= now.emitted.skip(n));
    assert(rest.last() == next.emitted.last());
    assert(next.emitted.take(n) =~= now.emitted.take(n));
    assert(next.words.committed =~= then.words.committed + committed_by(rest));
}

proof fn lemma_settle<S>(then: PipelineState<S>, now: PipelineState<S>)
    requires
        adds_up(then, now),
    ensures
        adds_up(then, now.settle()),
{
    if now.window.utterance_ended() {
        if now.words.tail.len() > 0 {
            let told = now.flush();
            assert(told.emitted.drop_last() =~= now.emitted);
            lemma_committed_push(then, now, told);
        } else {
            assert(now.words.committed + now.words.tail =~= now.words.committed);
        }
    }
}

/// What is heard is the confident words, all of them and in order, with the window's offset
/// added to their times.
pub proof fn law_heard_words_are_shifted(
    segments: Seq<Segment>,
    offset_cs: u32,
    cfg: SessionConfig,
    i: int,
)
    requires
        in_range(segments, offset_cs, cfg),
        0 <= i < heard_words(segments, offset_cs, cfg).len(),
    ensures
        ({
            let said = crate::word::confident_part(segments, cfg.no_speech_max, cfg.logprob_min);
            let heard = heard_words(segments, offset_cs, cfg);
            &&& heard.len() == said.len()
            &&& heard[i].text == said[i].text
            &&& heard[i].t0_cs == said[i].t0_cs + offset_cs
            &&& heard[i].t1_cs == said[i].t1_cs + offset_cs
        }),
{
    let said = gated(segments, cfg);
    assert(said[i].shiftable(offset_cs));
    crate::word::law_shift_moves_times(said[i], offset_cs);
}

/// A flush commits the tail and tells so: one update, with all of the tail newly committed and
/// nothing volatile; without a tail nothing is told. The audio stays.
pub proof fn law_flush_tells_the_tail<S>(state: PipelineState<S>)
    ensures
        ({
            let after = state.flush();
            &&& after.words.committed == state.words.committed + state.words.tail
            &&& after.words.tail.len() == 0
            &&& state.words.tail.len() == 0 ==> after.emitted == state.emitted
            &&& state.words.tail.len() > 0 ==> after.emitted == state.emitted.push(
                UpdateView {
                    source: state.label,
                    newly_committed: state.words.tail,
                    volatile: Seq::<WordView>::empty(),
                },
            )
            &&& after.window == state.window
            &&& after.cfg == state.cfg
            &&& after.label == state.label
        }),
{
}

/// The tail is committed exactly when the utterance has ended; then the window is flushed too.
pub proof fn law_utterance_end_flushes<S>(state: PipelineState<S>)
    ensures
        ({
            let ended = state.window.speech && state.window.vad.silence_run_ms
                >= state.window.cfg.utterance_silence_ms;
            &&& !ended ==> state.settle() == state
            &&& ended ==> state.settle().words == state.flush().words && state.settle().emitted
                == state.flush().emitted && state.settle().window == state.window.flushed()
        }),
{
}

/// What a failure leaves: none of the words and none of the updates change. One of the source
/// leaves the audio as it was too; one of the transcriber comes after the audio has been taken
/// in and the window handed out. The error that comes back is the one that happened.
pub proof fn law_failed_tick_changes_no_words<S>(
    state: PipelineState<S>,
    captured: Result<Seq<S>, CaptureError>,
    readings: Seq<Reading>,
    said: Result<Seq<Segment>, TranscribeError>,
    after: PipelineState<S>,
    result: Result<(), PipelineError>,
)
    requires
        state.ticked(captured, readings, said, after, result),
    ensures
        result is Err ==> after.words == state.words && after.emitted == state.emitted,
        captured matches Err(error) ==> after == state && result == Err::<(), PipelineError>(
            PipelineError::Capture(error),
        ),
        captured matches Ok(audio) && state.can_hear(audio) && state.window.push(
            audio,
            readings,
        ).window_due() && said is Err ==> result == Err::<(), PipelineError>(
            PipelineError::Transcribe(said->Err_0),
        ) && after.window == state.window.push(captured->Ok_0, readings).polled(),
        captured matches Ok(audio) && state.can_hear(audio) && !state.window.push(
            audio,
            readings,
        ).window_due() ==> result is Ok,
{
}

/// A window that is due is told: its words, at the time where its audio starts, make one update
/// with what they newly commit and what they leave volatile, and the audio that is committed
/// goes. A tail that the utterance's end commits is told behind it.
pub proof fn law_due_window_is_told<S>(
    state: PipelineState<S>,
    audio: Seq<S>,
    readings: Seq<Reading>,
    segments: Seq<Segment>,
    after: PipelineState<S>,
    result: Result<(), PipelineError>,
)
    requires
        state.ticked(Ok(audio), readings, Ok(segments), after, result),
        state.can_hear(audio),
        state.window.push(audio, readings).window_due(),
        in_range(
            segments,
            crate::audio::cs_of_samples(state.window.push(audio, readings).offset),
            state.cfg,
        ),
    ensures
        ({
            let pushed = state.window.push(audio, readings);
            let offset = crate::audio::cs_of_samples(pushed.offset);
            let words = heard_words(segments, offset, state.cfg);
            let learned = state.words.observe(words);
            let n = state.emitted.len() as int;
            let trimmed = pushed.polled().trim_to(learned.last_committed_cs);
            &&& result is Ok
            &&& after.emitted.len() > n
            &&& after.emitted.take(n) == state.emitted
            &&& after.emitted[n].source == state.label
            &&& learned.committed == state.words.committed + after.emitted[n].newly_committed
            &&& after.emitted[n].volatile == learned.tail
            &&& !trimmed.utterance_ended() ==> after.words == learned && after.window == trimmed
                && after.emitted.len() == n + 1
            &&& trimmed.utterance_ended() ==> after.words.committed == learned.committed
                + learned.tail && after.words.tail.len() == 0 && after.window == trimmed.flushed()
            &&& trimmed.utterance_ended() && learned.tail.len() == 0 ==> after.emitted.len() == n
                + 1
            &&& trimmed.utterance_ended() && learned.tail.len() > 0 ==> after.emitted.len() == n
                + 2 && after.emitted[n + 1] == (UpdateView {
                source: state.label,
                newly_committed: learned.tail,
                volatile: Seq::<WordView>::empty(),
            })
        }),
{
    let pushed = state.window.push(audio, readings);
    let offset = crate::audio::cs_of_samples(pushed.offset);
    let words = heard_words(segments, offset, state.cfg);
    crate::transcript::law_update_tells_the_change(state.label, state.words, words);
    assert(after.emitted.take(state.emitted.len() as int) =~= state.emitted);
}

/// A hypothesis is refused only if its confident segments cannot be split, or one of their words
/// not be moved to where the window starts; audio is refused only if it cannot be counted.
pub proof fn law_only_width_limits<S>(
    state: PipelineState<S>,
    audio: Seq<S>,
    segments: Seq<Segment>,
    offset_cs: u32,
    cfg: SessionConfig,
)
    ensures
        in_range(segments, offset_cs, cfg) <==> crate::word::confident_part_fits(
            segments,
            cfg.no_speech_max,
            cfg.logprob_min,
        ) && forall|i: int|
            0 <= i < crate::word::confident_part(
                segments,
                cfg.no_speech_max,
                cfg.logprob_min,
            ).len() ==> (#[trigger] crate::word::confident_part(
                segments,
                cfg.no_speech_max,
                cfg.logprob_min,
            )[i]).shiftable(offset_cs),
        state.window.offset >= 0 ==> (state.can_hear(audio) <==> 100 * (state.window.offset
            + state.window.buf.len() + audio.len()) <= 0xffff_ffff_ffff_ffff && state.window.offset
            + state.window.buf.len() + audio.len() <= usize::MAX),
{
    let said = gated(segments, cfg);
    assert(said == crate::word::confident_part(segments, cfg.no_speech_max, cfg.logprob_min));
    if in_range(segments, offset_cs, cfg) {
        assert forall|i: int| 0 <= i < said.len() implies (#[trigger] said[i]).shiftable(
            offset_cs,
        ) by {
            assert(gated(segments, cfg)[i].shiftable(offset_cs));
        }
    } else if crate::word::confident_part_fits(segments, cfg.no_speech_max, cfg.logprob_min) {
        let i = choose|i: int|
            0 <= i < said.len() && !(#[trigger] gated(segments, cfg)[i]).shiftable(offset_cs);
        assert(!said[i].shiftable(offset_cs));
    }
}

} // verus!
