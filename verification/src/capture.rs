//! From captured audio to utterances: watch for speech onset (which is also the barge-in
//! trigger), collect each utterance's audio with a short lead-in, and ship it once enough
//! silence has followed.

use crate::audio::drop_front;
use crate::audio::extend_samples;
use crate::audio::samples_for_cs;
use crate::audio::VAD_FRAME;
use crate::binary32::Binary32;
use crate::config::SessionConfig;
use crate::error::CaptureError;
use crate::events::UiEvent;
use crate::events::UiEventView;
use crate::vad::Reading;
use crate::vad::SpeechState;
use crate::vad::Vad;
use crate::vad::VadConfig;
use crate::vad::VadState;
use vstd::prelude::*;

verus! {

/// What the capture reports.
#[derive(Debug, PartialEq)]
pub enum Captured<S> {
    /// The user started to speak.
    SpeechStarted,
    /// The user has finished: the audio of the utterance, lead-in first.
    Utterance(Vec<S>),
}

/// A report as a mathematical value.
#[verifier::ext_equal]
pub enum CapturedView<S> {
    SpeechStarted,
    Utterance(Seq<S>),
}

impl<S> View for Captured<S> {
    type V = CapturedView<S>;

    open spec fn view(&self) -> CapturedView<S> {
        match *self {
            Captured::SpeechStarted => CapturedView::SpeechStarted,
            Captured::Utterance(audio) => CapturedView::Utterance(audio@),
        }
    }
}

/// The reports of a list as mathematical values.
pub open spec fn captured_views<S>(reports: Seq<Captured<S>>) -> Seq<CapturedView<S>> {
    Seq::new(reports.len(), |i: int| reports[i]@)
}

// ---------------------------------------------------------------------------
// The capture as a state machine
// ---------------------------------------------------------------------------

/// A capture's state.
#[verifier::ext_equal]
pub struct CaptureState<S> {
    pub vad: VadState,
    /// The samples that do not fill a frame yet.
    pub carry: Seq<S>,
    /// The audio of the utterance under way.
    pub utter: Seq<S>,
    /// The latest silence: the lead-in of the next utterance.
    pub preroll: Seq<S>,
    pub in_speech: bool,
    /// How long the lead-in is at most.
    pub preroll_cap: int,
    /// How much silence ends an utterance.
    pub silence_ms: u32,
    /// How many polls there were, as far as the counter goes.
    pub tick: u64,
}

/// What a frame leads to.
#[verifier::ext_equal]
pub struct CaptureStep<S> {
    pub next: CaptureState<S>,
    pub reports: Seq<CapturedView<S>>,
}

/// The last `n` of `samples`.
pub open spec fn last_of<S>(samples: Seq<S>, n: int) -> Seq<S> {
    if samples.len() > n {
        samples.skip(samples.len() - n)
    } else {
        samples
    }
}

impl<S> CaptureState<S> {
    /// Where a capture starts.
    pub open spec fn start(session: SessionConfig, vad: VadConfig) -> CaptureState<S> {
        let preroll = crate::audio::samples_of_cs(session.preroll_cs);
        CaptureState {
            vad: VadState::start(vad),
            carry: seq![],
            utter: seq![],
            preroll: seq![],
            in_speech: false,
            preroll_cap: if preroll < VAD_FRAME {
                VAD_FRAME as int
            } else {
                preroll as int
            },
            silence_ms: session.utterance_silence_ms,
            tick: 0,
        }
    }

    /// The step that a frame with the given reading leads to.
    pub open spec fn frame(self, frame: Seq<S>, reading: Reading) -> CaptureStep<S> {
        let vad = self.vad.hear(VAD_FRAME as int, reading);
        let heard = CaptureState { vad, ..self };
        if vad.state == SpeechState::Speech {
            if self.in_speech {
                CaptureStep {
                    next: CaptureState { utter: self.utter + frame, ..heard },
                    reports: seq![],
                }
            } else {
                CaptureStep {
                    next: CaptureState {
                        in_speech: true,
                        utter: self.preroll + frame,
                        ..heard
                    },
                    reports: seq![CapturedView::SpeechStarted],
                }
            }
        } else if self.in_speech {
            if vad.silence_run_ms >= self.silence_ms {
                CaptureStep {
                    next: CaptureState {
                        vad: vad.reset(),
                        utter: seq![],
                        preroll: seq![],
                        in_speech: false,
                        ..heard
                    },
                    reports: seq![CapturedView::Utterance(self.utter + frame)],
                }
            } else {
                CaptureStep {
                    next: CaptureState { utter: self.utter + frame, ..heard },
                    reports: seq![],
                }
            }
        } else {
            CaptureStep {
                next: CaptureState {
                    preroll: last_of(self.preroll + frame, self.preroll_cap),
                    ..heard
                },
                reports: seq![],
            }
        }
    }

    /// The step that the first frames of `audio` lead to, with the given readings.
    pub open spec fn frames(self, audio: Seq<S>, readings: Seq<Reading>) -> CaptureStep<S>
        decreases readings.len(),
    {
        if readings.len() == 0 {
            CaptureStep { next: self, reports: seq![] }
        } else {
            let k = readings.len() - 1;
            let before = self.frames(audio, readings.drop_last());
            let last = before.next.frame(
                crate::aggregator::frame_at(audio, k),
                readings.last(),
            );
            CaptureStep { next: last.next, reports: before.reports + last.reports }
        }
    }

    /// The audio that has not been judged yet, once `samples` have come.
    pub open spec fn unjudged(self, samples: Seq<S>) -> Seq<S> {
        self.carry + samples
    }

    /// The step that `samples` lead to, whose frames measure as `readings`.
    pub open spec fn feed(self, samples: Seq<S>, readings: Seq<Reading>) -> CaptureStep<S> {
        let audio = self.unjudged(samples);
        let judged = self.frames(audio, readings);
        CaptureStep {
            next: CaptureState { carry: audio.skip(VAD_FRAME * readings.len()), ..judged.next },
            reports: judged.reports,
        }
    }

    /// Are these the readings of the first frames of `audio`, each taken against the noise
    /// floor that the frames before it left?
    pub open spec fn frames_measured<F: Fn(&[S], &VadConfig, Binary32) -> Reading>(
        self,
        measure: F,
        audio: Seq<S>,
        readings: Seq<Reading>,
    ) -> bool {
        forall|k: int|
            0 <= k < readings.len() ==> crate::vad::measured(
                measure,
                crate::aggregator::frame_at(audio, k),
                self.vad.cfg,
                self.frames(audio, readings.take(k)).next.vad.noise_floor,
                #[trigger] readings[k],
            )
    }
}

// ---------------------------------------------------------------------------
// The capture
// ---------------------------------------------------------------------------

/// Turns captured audio into speech onsets and utterances.
#[derive(Debug)]
pub struct Capture<S> {
    vad: Vad,
    carry: Vec<S>,
    utter: Vec<S>,
    preroll: Vec<S>,
    in_speech: bool,
    preroll_cap: usize,
    silence_ms: u32,
    tick: u64,
}

impl<S> View for Capture<S> {
    type V = CaptureState<S>;

    closed spec fn view(&self) -> CaptureState<S> {
        CaptureState {
            vad: self.vad@,
            carry: self.carry@,
            utter: self.utter@,
            preroll: self.preroll@,
            in_speech: self.in_speech,
            preroll_cap: self.preroll_cap as int,
            silence_ms: self.silence_ms,
            tick: self.tick,
        }
    }
}

impl<S: Copy> Capture<S> {
    pub fn new(session: &SessionConfig, vad: VadConfig) -> (capture: Self)
        ensures
            capture@ == CaptureState::<S>::start(*session, vad),
    {
        let preroll: usize = samples_for_cs(session.preroll_cs);
        Capture {
            vad: Vad::new(vad),
            carry: Vec::new(),
            utter: Vec::new(),
            preroll: Vec::new(),
            in_speech: false,
            preroll_cap: if preroll < VAD_FRAME {
                VAD_FRAME
            } else {
                preroll
            },
            silence_ms: session.utterance_silence_ms,
            tick: 0,
        }
    }

    /// Is an utterance under way?
    pub fn in_speech(&self) -> (answer: bool)
        ensures
            answer == self@.in_speech,
    {
        self.in_speech
    }

    /// Take in captured audio, whose frames `measure` measures; returns what happened, in
    /// order.
    pub fn feed<F: Fn(&[S], &VadConfig, Binary32) -> Reading>(
        &mut self,
        samples: &[S],
        measure: &F,
    ) -> (reports: Vec<Captured<S>>)
        requires
            crate::vad::measures_all(*measure),
        ensures
            exists|readings: Seq<Reading>|
                readings.len() == crate::aggregator::frames_in(old(self)@.unjudged(samples@))
                    && old(self)@.frames_measured(
                    *measure,
                    old(self)@.unjudged(samples@),
                    readings,
                ) && final(self)@ == (#[trigger] old(self)@.feed(samples@, readings)).next
                    && captured_views(reports@) == old(self)@.feed(samples@, readings).reports,
    {
        let ghost begin = self@;
        let ghost audio = begin.unjudged(samples@);
        let ghost mut readings = Seq::<Reading>::empty();
        let mut reports: Vec<Captured<S>> = Vec::new();
        extend_samples(&mut self.carry, samples);
        assert(audio.skip(0) == audio);
        assert(captured_views(reports@) == Seq::<CapturedView<S>>::empty());
        while self.carry.len() >= VAD_FRAME
            invariant
                crate::vad::measures_all(*measure),
                audio == begin.unjudged(samples@),
                VAD_FRAME * readings.len() <= audio.len(),
                begin.frames_measured(*measure, audio, readings),
                self@ == begin.feed(samples@, readings).next,
                captured_views(reports@) == begin.feed(samples@, readings).reports,
                self@.vad.cfg == begin.vad.cfg,
            decreases self.carry.len(),
        {
            let ghost k = readings.len() as int;
            let frame = self.take_frame();
            let ghost cut = self@;
            assert(frame@ == crate::aggregator::frame_at(audio, k));
            assert(cut.carry == audio.skip(VAD_FRAME * (k + 1)));
            self.frame(frame.as_slice(), measure, &mut reports);
            proof {
                let floor = cut.vad.noise_floor;
                let reading = choose|reading: Reading|
                    crate::vad::measured(*measure, frame@, cut.vad.cfg, floor, reading)
                        && self@ == (#[trigger] cut.frame(frame@, reading)).next && captured_views(
                        reports@,
                    ) == begin.feed(samples@, readings).reports + cut.frame(
                        frame@,
                        reading,
                    ).reports;
                lemma_feed_push(begin, samples@, readings, reading, cut);
                lemma_measured_push(begin, *measure, audio, readings, reading);
                readings = readings.push(reading);
            }
        }
        proof {
            let k = readings.len() as int;
            assert(self.carry@.len() == audio.len() - VAD_FRAME * k);
            assert(crate::aggregator::frames_in(audio) == k);
        }
        reports
    }

    /// Take the first frame out of the samples carried over.
    fn take_frame(&mut self) -> (frame: Vec<S>)
        requires
            old(self)@.carry.len() >= VAD_FRAME,
        ensures
            frame@ == old(self)@.carry.take(VAD_FRAME as int),
            final(self)@ == (CaptureState {
                carry: old(self)@.carry.skip(VAD_FRAME as int),
                ..old(self)@
            }),
    {
        let mut frame = self.carry.split_off(VAD_FRAME);
        std::mem::swap(&mut frame, &mut self.carry);
        frame
    }

    /// Judge one frame.
    fn frame<F: Fn(&[S], &VadConfig, Binary32) -> Reading>(
        &mut self,
        frame: &[S],
        measure: &F,
        reports: &mut Vec<Captured<S>>,
    )
        requires
            crate::vad::measures_all(*measure),
            frame@.len() == VAD_FRAME,
        ensures
            exists|reading: Reading|
                crate::vad::measured(
                    *measure,
                    frame@,
                    old(self)@.vad.cfg,
                    old(self)@.vad.noise_floor,
                    reading,
                ) && final(self)@ == (#[trigger] old(self)@.frame(frame@, reading)).next
                    && captured_views(final(reports)@) == captured_views(old(reports)@) + old(
                    self,
                )@.frame(frame@, reading).reports,
            final(self)@.vad.cfg == old(self)@.vad.cfg,
            final(self)@.carry == old(self)@.carry,
    {
        let ghost begin = self@;
        let ghost told = reports@;
        let state = self.vad.observe(frame, measure);
        let ghost reading = choose|reading: Reading|
            measure.ensures((frame, &begin.vad.cfg, begin.vad.noise_floor), reading) && self.vad@
                == #[trigger] begin.vad.hear(VAD_FRAME as int, reading);
        assert(crate::vad::measured(
            *measure,
            frame@,
            begin.vad.cfg,
            begin.vad.noise_floor,
            reading,
        ));
        match state {
            SpeechState::Speech => {
                if !self.in_speech {
                    self.in_speech = true;
                    // The lead-in, so that the first word isn't clipped.
                    self.utter = Vec::new();
                    extend_samples(&mut self.utter, self.preroll.as_slice());
                    reports.push(Captured::SpeechStarted);
                }
                extend_samples(&mut self.utter, frame);
            },
            SpeechState::Silence => {
                if self.in_speech {
                    extend_samples(&mut self.utter, frame);
                    if self.vad.silence_run_ms() >= self.silence_ms {
                        let mut utter: Vec<S> = Vec::new();
                        std::mem::swap(&mut utter, &mut self.utter);
                        reports.push(Captured::Utterance(utter));
                        self.in_speech = false;
                        self.vad.reset();
                        self.preroll.clear();
                    }
                } else {
                    extend_samples(&mut self.preroll, frame);
                    if self.preroll.len() > self.preroll_cap {
                        let n: usize = self.preroll.len() - self.preroll_cap;
                        drop_front(&mut self.preroll, n);
                    }
                }
            },
        }
        proof {
            let step = begin.frame(frame@, reading);
            assert(Seq::<S>::empty() + begin.preroll == begin.preroll);
            assert(self@ == step.next);
            assert(captured_views(reports@) =~= captured_views(told) + step.reports);
        }
    }

    /// Note that a poll is over; at every third one, the level is due for the UI.
    pub fn note_poll(&mut self) -> (level: Option<Binary32>)
        ensures
            final(self)@.tick == old(self)@.tick.wrapping_add(1),
            final(self)@ == (CaptureState { tick: final(self)@.tick, ..old(self)@ }),
            level == if final(self)@.tick % 3 == 0 {
                Some(old(self)@.vad.last_rms)
            } else {
                None
            },
    {
        self.tick = self.tick.wrapping_add(1);
        if self.tick % 3 == 0 {
            Some(self.vad.last_rms())
        } else {
            None
        }
    }
}

/// What the UI is told when the microphone cannot be started.
pub fn start_failed(e: &CaptureError) -> (event: UiEvent)
    ensures
        event@ == UiEventView::Error("microphone: "@ + e.text()),
{
    let mut text = String::new();
    text.append("microphone: ");
    text.append(e.message().as_str());
    assert(text@ == "microphone: "@ + e.text());
    UiEvent::Error(text)
}

/// What the UI is told when capturing breaks off.
pub fn poll_failed(e: &CaptureError) -> (event: UiEvent)
    ensures
        event@ == UiEventView::Error("capture: "@ + e.text()),
{
    let mut text = String::new();
    text.append("capture: ");
    text.append(e.message().as_str());
    assert(text@ == "capture: "@ + e.text());
    UiEvent::Error(text)
}

/// One more frame fed.
proof fn lemma_feed_push<S>(
    state: CaptureState<S>,
    samples: Seq<S>,
    readings: Seq<Reading>,
    reading: Reading,
    cut: CaptureState<S>,
)
    requires
        VAD_FRAME * (readings.len() + 1) <= state.unjudged(samples).len(),
        cut == (CaptureState {
            carry: state.unjudged(samples).skip(VAD_FRAME * (readings.len() + 1)),
            ..state.feed(samples, readings).next
        }),
    ensures
        ({
            let k = readings.len() as int;
            let frame = crate::aggregator::frame_at(state.unjudged(samples), k);
            let after = state.feed(samples, readings.push(reading));
            &&& after.next == cut.frame(frame, reading).next
            &&& after.reports == state.feed(samples, readings).reports + cut.frame(
                frame,
                reading,
            ).reports
        }),
{
    assert(readings.push(reading).drop_last() == readings);
}

/// One more frame measured.
proof fn lemma_measured_push<S, F: Fn(&[S], &VadConfig, Binary32) -> Reading>(
    state: CaptureState<S>,
    measure: F,
    audio: Seq<S>,
    readings: Seq<Reading>,
    reading: Reading,
)
    requires
        state.frames_measured(measure, audio, readings),
        crate::vad::measured(
            measure,
            crate::aggregator::frame_at(audio, readings.len() as int),
            state.vad.cfg,
            state.frames(audio, readings).next.vad.noise_floor,
            reading,
        ),
    ensures
        state.frames_measured(measure, audio, readings.push(reading)),
{
    let longer = readings.push(reading);
    let k = readings.len() as int;
    assert(longer.take(k) == readings);
    assert forall|j: int| 0 <= j < longer.len() implies crate::vad::measured(
        measure,
        crate::aggregator::frame_at(audio, j),
        state.vad.cfg,
        state.frames(audio, longer.take(j)).next.vad.noise_floor,
        #[trigger] longer[j],
    ) by {
        if j < k {
            assert(longer[j] == readings[j]);
            assert(longer.take(j) == readings.take(j));
        }
    }
}

// ---------------------------------------------------------------------------
// Laws
// ---------------------------------------------------------------------------

/// Is what is collected the end of the audio judged so far: the utterance while one is under
/// way, the lead-in otherwise?
pub open spec fn collects_suffix_of<S>(state: CaptureState<S>, heard: Seq<S>) -> bool {
    if state.in_speech {
        state.utter.is_suffix_of(heard)
    } else {
        state.preroll.is_suffix_of(heard)
    }
}

/// An utterance is one unbroken piece of the captured audio, with its lead-in, up to and with
/// the frame that ends it: nothing inside it is lost, repeated or reordered.
pub proof fn law_utterance_is_contiguous<S>(
    state: CaptureState<S>,
    heard: Seq<S>,
    frame: Seq<S>,
    reading: Reading,
)
    requires
        collects_suffix_of(state, heard),
        state.preroll_cap >= 0,
    ensures
        collects_suffix_of(state.frame(frame, reading).next, heard + frame),
        state.frame(frame, reading).reports.len() <= 1,
        state.frame(frame, reading).reports.len() == 1 ==> (state.frame(
            frame,
            reading,
        ).reports[0] matches CapturedView::Utterance(audio) ==> audio.is_suffix_of(heard + frame)),
{
    let all = heard + frame;
    if state.in_speech {
        let u = state.utter + frame;
        assert(heard.skip(heard.len() - state.utter.len()) + frame == all.skip(
            all.len() - u.len(),
        ));
        assert(u.is_suffix_of(all));
    } else {
        let p = state.preroll + frame;
        assert(heard.skip(heard.len() - state.preroll.len()) + frame == all.skip(
            all.len() - p.len(),
        ));
        assert(p.is_suffix_of(all));
        let q = last_of(p, state.preroll_cap);
        assert(q == all.skip(all.len() - q.len()));
    }
    assert(Seq::<S>::empty().is_suffix_of(all)) by {
        assert(all.skip(all.len() as int) == Seq::<S>::empty());
    }
}

/// Onsets and utterances alternate: an onset is reported exactly when an utterance begins,
/// and an utterance exactly when it ends.
pub proof fn law_onsets_and_utterances_alternate<S>(
    state: CaptureState<S>,
    frame: Seq<S>,
    reading: Reading,
)
    ensures
        ({
            let step = state.frame(frame, reading);
            &&& !state.in_speech && step.next.in_speech <==> step.reports == seq![
                CapturedView::<S>::SpeechStarted,
            ]
            &&& state.in_speech && !step.next.in_speech <==> step.reports.len() == 1
                && step.reports[0] is Utterance
            &&& state.in_speech == step.next.in_speech <==> step.reports.len() == 0
        }),
{
    let step = state.frame(frame, reading);
    if step.reports.len() == 1 && step.reports[0] is Utterance {
        assert(step.reports != seq![CapturedView::<S>::SpeechStarted]) by {
            assert(seq![CapturedView::<S>::SpeechStarted][0] is SpeechStarted);
        }
    }
    if step.reports.len() == 0 {
        assert(step.reports != seq![CapturedView::<S>::SpeechStarted]) by {
            assert(seq![CapturedView::<S>::SpeechStarted].len() == 1);
        }
    }
}

/// A shipped utterance leaves nothing behind for the next one.
pub proof fn law_utterance_clears<S>(state: CaptureState<S>, frame: Seq<S>, reading: Reading)
    requires
        state.in_speech,
        !state.frame(frame, reading).next.in_speech,
    ensures
        state.frame(frame, reading).next.utter.len() == 0,
        state.frame(frame, reading).next.preroll.len() == 0,
        state.frame(frame, reading).next.vad.state == SpeechState::Silence,
        state.frame(frame, reading).next.vad.silence_run_ms == 0,
{
}

/// The lead-in never exceeds its cap.
pub proof fn law_preroll_is_capped<S>(state: CaptureState<S>, frame: Seq<S>, reading: Reading)
    requires
        state.preroll.len() <= state.preroll_cap,
    ensures
        state.frame(frame, reading).next.preroll.len() <= state.preroll_cap,
        state.frame(frame, reading).next.preroll_cap == state.preroll_cap,
{
}

/// Is an utterance, if this is one, an unbroken piece of `heard`?
pub open spec fn is_piece_of<S>(report: CapturedView<S>, heard: Seq<S>) -> bool {
    report matches CapturedView::Utterance(audio) ==> exists|end: int|
        0 <= end <= heard.len() && #[trigger] audio.is_suffix_of(heard.take(end))
}

/// The audio of the first `k` frames of `audio`.
pub open spec fn first_frames<S>(audio: Seq<S>, k: int) -> Seq<S> {
    audio.take(k * VAD_FRAME)
}

/// Every utterance that capturing reports is an unbroken piece of what was captured, however
/// the audio was cut into polls, and what is collected at the end continues it.
pub proof fn law_utterances_are_pieces<S>(
    state: CaptureState<S>,
    heard: Seq<S>,
    audio: Seq<S>,
    readings: Seq<Reading>,
)
    requires
        collects_suffix_of(state, heard),
        state.preroll_cap >= 0,
        readings.len() * VAD_FRAME <= audio.len(),
    ensures
        ({
            let all = heard + first_frames(audio, readings.len() as int);
            let step = state.frames(audio, readings);
            &&& collects_suffix_of(step.next, all)
            &&& step.next.preroll_cap == state.preroll_cap
            &&& forall|j: int|
                0 <= j < step.reports.len() ==> is_piece_of(#[trigger] step.reports[j], all)
        }),
    decreases readings.len(),
{
    let k = readings.len() as int;
    let all = heard + first_frames(audio, k);
    let step = state.frames(audio, readings);
    if k == 0 {
        assert(all =~= heard);
    } else {
        let front = readings.drop_last();
        let before = heard + first_frames(audio, k - 1);
        let frame = crate::aggregator::frame_at(audio, k - 1);
        law_utterances_are_pieces(state, heard, audio, front);
        let mid = state.frames(audio, front);
        law_utterance_is_contiguous(mid.next, before, frame, readings.last());
        assert(before + frame =~= all);
        let last = mid.next.frame(frame, readings.last());
        assert forall|j: int| 0 <= j < step.reports.len() implies is_piece_of(
            #[trigger] step.reports[j],
            all,
        ) by {
            if j < mid.reports.len() {
                assert(step.reports[j] == mid.reports[j]);
                assert(is_piece_of(mid.reports[j], before));
                if let CapturedView::Utterance(piece) = mid.reports[j] {
                    let end = choose|end: int|
                        0 <= end <= before.len() && #[trigger] piece.is_suffix_of(
                            before.take(end),
                        );
                    assert(all.take(end) =~= before.take(end));
                    assert(piece.is_suffix_of(all.take(end)));
                }
            } else {
                assert(step.reports[j] == last.reports[j - mid.reports.len()]);
                if let CapturedView::Utterance(piece) = step.reports[j] {
                    assert(all.take(all.len() as int) =~= all);
                    assert(piece.is_suffix_of(all.take(all.len() as int)));
                }
            }
        }
    }
}

// ---------------------------------------------------------------------------
// Whole streams
// ---------------------------------------------------------------------------

impl<S> CaptureState<S> {
    /// What the detector says of frame `k` of `audio`.
    pub open spec fn heard_at(self, audio: Seq<S>, readings: Seq<Reading>, k: int) -> VadState {
        self.frames(audio, readings.take(k)).next.vad.hear(VAD_FRAME as int, readings[k])
    }

    /// Has there been enough silence to end an utterance with frame `k`?
    pub open spec fn long_silence(self, audio: Seq<S>, readings: Seq<Reading>, k: int) -> bool {
        let heard = self.heard_at(audio, readings, k);
        heard.state == SpeechState::Silence && heard.silence_run_ms >= self.silence_ms
    }

    /// Can a lead-in begin with frame `from`: at the start, or right after an utterance?
    pub open spec fn fresh_at(self, audio: Seq<S>, readings: Seq<Reading>, from: int) -> bool {
        from == 0 || self.frames(audio, readings.take(from - 1)).next.in_speech
            && self.long_silence(audio, readings, from - 1)
    }

    /// The lead-in of an onset after so many silent frames: all of them, up to the cap.
    pub open spec fn lead_in(self, frames: int) -> int {
        if frames * VAD_FRAME > self.preroll_cap {
            self.preroll_cap
        } else {
            frames * VAD_FRAME
        }
    }

    /// Are the frames from `from` on, up to `end`, all silent, after the start or an utterance?
    pub open spec fn quiet_between(
        self,
        audio: Seq<S>,
        readings: Seq<Reading>,
        from: int,
        end: int,
    ) -> bool {
        &&& 0 <= from <= end <= readings.len()
        &&& self.fresh_at(audio, readings, from)
        &&& forall|k: int|
            from <= k < end ==> (#[trigger] self.heard_at(audio, readings, k)).state
                == SpeechState::Silence
    }

    /// Does speech set in with frame `onset`, after silence since `from`, without a silence
    /// before `end` that is long enough to end it?
    pub open spec fn speaks_between(
        self,
        audio: Seq<S>,
        readings: Seq<Reading>,
        from: int,
        onset: int,
        end: int,
    ) -> bool {
        &&& self.quiet_between(audio, readings, from, onset)
        &&& onset < end <= readings.len()
        &&& self.heard_at(audio, readings, onset).state == SpeechState::Speech
        &&& forall|k: int|
            onset <= k < end ==> !#[trigger] self.long_silence(audio, readings, k)
    }

    /// Is `said` the utterance of the frames from `onset` to the one before `end`, with the
    /// lead-in since `from`: frame `onset` is the first with speech, and the frame before
    /// `end` the first with a silence that is long enough?
    pub open spec fn is_utterance(
        self,
        audio: Seq<S>,
        readings: Seq<Reading>,
        from: int,
        onset: int,
        end: int,
        said: Seq<S>,
    ) -> bool {
        &&& self.speaks_between(audio, readings, from, onset, end - 1)
        &&& end <= readings.len()
        &&& self.long_silence(audio, readings, end - 1)
        &&& said == audio.subrange(
            onset * VAD_FRAME - self.lead_in(onset - from),
            end * VAD_FRAME,
        )
    }

    /// Is a report, if it is one of an utterance, one of a whole utterance?
    #[verifier::opaque]
    pub open spec fn is_whole(
        self,
        audio: Seq<S>,
        readings: Seq<Reading>,
        report: CapturedView<S>,
    ) -> bool {
        match report {
            CapturedView::SpeechStarted => true,
            CapturedView::Utterance(said) => exists|from: int, onset: int, end: int|
                #[trigger] self.is_utterance(audio, readings, from, onset, end, said),
        }
    }

    /// Is `next` what is left after the frames, with an utterance under way since `onset`?
    #[verifier::opaque]
    spec fn collects_utterance(
        self,
        audio: Seq<S>,
        readings: Seq<Reading>,
        next: CaptureState<S>,
        from: int,
        onset: int,
    ) -> bool {
        let n = readings.len() as int;
        &&& next.in_speech
        &&& self.speaks_between(audio, readings, from, onset, n)
        &&& next.utter == audio.subrange(
            onset * VAD_FRAME - self.lead_in(onset - from),
            n * VAD_FRAME,
        )
    }

    /// Is `next` what is left after the frames, with none under way since `from`?
    #[verifier::opaque]
    spec fn collects_lead_in(
        self,
        audio: Seq<S>,
        readings: Seq<Reading>,
        next: CaptureState<S>,
        from: int,
    ) -> bool {
        let n = readings.len() as int;
        &&& !next.in_speech
        &&& self.quiet_between(audio, readings, from, n)
        &&& next.preroll == audio.subrange(n * VAD_FRAME - self.lead_in(n - from), n * VAD_FRAME)
    }

    /// What is being collected after the frames: a lead-in, or an utterance under way.
    spec fn collects(self, audio: Seq<S>, readings: Seq<Reading>) -> bool {
        let next = self.frames(audio, readings).next;
        ||| exists|from: int, onset: int|
            self.collects_utterance(audio, readings, next, from, onset)
        ||| exists|from: int| self.collects_lead_in(audio, readings, next, from)
    }
}

/// What the detector says of earlier frames does not depend on later ones.
proof fn lemma_heard_before<S>(
    state: CaptureState<S>,
    audio: Seq<S>,
    readings: Seq<Reading>,
    k: int,
)
    requires
        readings.len() > 0,
        0 <= k < readings.len() - 1,
    ensures
        state.heard_at(audio, readings.drop_last(), k) == state.heard_at(audio, readings, k),
        state.long_silence(audio, readings.drop_last(), k) == state.long_silence(
            audio,
            readings,
            k,
        ),
        readings.drop_last().take(k) == readings.take(k),
{
    assert(readings.drop_last().take(k) =~= readings.take(k));
}

proof fn lemma_quiet_before<S>(
    state: CaptureState<S>,
    audio: Seq<S>,
    readings: Seq<Reading>,
    from: int,
    end: int,
)
    requires
        readings.len() > 0,
        state.quiet_between(audio, readings.drop_last(), from, end),
    ensures
        state.quiet_between(audio, readings, from, end),
{
    let front = readings.drop_last();
    if from > 0 {
        lemma_heard_before(state, audio, readings, from - 1);
    }
    assert forall|k: int| from <= k < end implies (#[trigger] state.heard_at(
        audio,
        readings,
        k,
    )).state == SpeechState::Silence by {
        lemma_heard_before(state, audio, readings, k);
        assert(state.heard_at(audio, front, k).state == SpeechState::Silence);
    }
}

proof fn lemma_speaks_before<S>(
    state: CaptureState<S>,
    audio: Seq<S>,
    readings: Seq<Reading>,
    from: int,
    onset: int,
    end: int,
)
    requires
        readings.len() > 0,
        state.speaks_between(audio, readings.drop_last(), from, onset, end),
    ensures
        state.speaks_between(audio, readings, from, onset, end),
{
    let front = readings.drop_last();
    lemma_quiet_before(state, audio, readings, from, onset);
    lemma_heard_before(state, audio, readings, onset);
    assert forall|k: int| onset <= k < end implies !#[trigger] state.long_silence(
        audio,
        readings,
        k,
    ) by {
        lemma_heard_before(state, audio, readings, k);
        assert(!state.long_silence(audio, front, k));
    }
}

/// Frames change neither the limits nor what is carried.
proof fn lemma_frames_frame<S>(state: CaptureState<S>, audio: Seq<S>, readings: Seq<Reading>)
    ensures
        state.frames(audio, readings).next.preroll_cap == state.preroll_cap,
        state.frames(audio, readings).next.silence_ms == state.silence_ms,
        state.frames(audio, readings).next.carry == state.carry,
        state.frames(audio, readings).next.tick == state.tick,
    decreases readings.len(),
{
    if readings.len() > 0 {
        lemma_frames_frame(state, audio, readings.drop_last());
    }
}

/// A piece and the frame behind it.
proof fn lemma_piece_and_frame<S>(audio: Seq<S>, begin: int, k: int)
    requires
        0 <= begin <= k * VAD_FRAME,
        0 <= k,
        (k + 1) * VAD_FRAME <= audio.len(),
    ensures
        audio.subrange(begin, k * VAD_FRAME) + crate::aggregator::frame_at(audio, k)
            == audio.subrange(begin, (k + 1) * VAD_FRAME),
{
    assert(audio.subrange(begin, k * VAD_FRAME) + crate::aggregator::frame_at(audio, k)
        =~= audio.subrange(begin, (k + 1) * VAD_FRAME));
}

/// A lead-in grows by a frame, up to the cap.
proof fn lemma_lead_in_grows<S>(state: CaptureState<S>, audio: Seq<S>, from: int, k: int)
    requires
        state.preroll_cap >= 0,
        0 <= from <= k,
        (k + 1) * VAD_FRAME <= audio.len(),
    ensures
        last_of(
            audio.subrange(k * VAD_FRAME - state.lead_in(k - from), k * VAD_FRAME)
                + crate::aggregator::frame_at(audio, k),
            state.preroll_cap,
        ) == audio.subrange(
            (k + 1) * VAD_FRAME - state.lead_in(k + 1 - from),
            (k + 1) * VAD_FRAME,
        ),
{
    let begin = k * VAD_FRAME - state.lead_in(k - from);
    lemma_piece_and_frame(audio, begin, k);
    let longer = audio.subrange(begin, (k + 1) * VAD_FRAME);
    let kept = audio.subrange(
        (k + 1) * VAD_FRAME - state.lead_in(k + 1 - from),
        (k + 1) * VAD_FRAME,
    );
    assert(last_of(longer, state.preroll_cap) =~= kept);
}

proof fn lemma_is_whole<S>(
    state: CaptureState<S>,
    audio: Seq<S>,
    readings: Seq<Reading>,
    from: int,
    onset: int,
    end: int,
    said: Seq<S>,
)
    requires
        state.is_utterance(audio, readings, from, onset, end, said),
    ensures
        state.is_whole(audio, readings, CapturedView::Utterance(said)),
{
    reveal(CaptureState::is_whole);
    let report: CapturedView<S> = CapturedView::Utterance(said);
    assert(report->Utterance_0 == said);
    assert(state.is_utterance(audio, readings, from, onset, end, report->Utterance_0));
}

/// One more frame while an utterance is under way.
proof fn lemma_utterance_step<S>(
    state: CaptureState<S>,
    audio: Seq<S>,
    readings: Seq<Reading>,
    from: int,
    onset: int,
)
    requires
        state.preroll_cap >= 0,
        readings.len() > 0,
        readings.len() * VAD_FRAME <= audio.len(),
        state.collects_utterance(
            audio,
            readings.drop_last(),
            state.frames(audio, readings.drop_last()).next,
            from,
            onset,
        ),
    ensures
        ({
            let n = readings.len() as int;
            let mid = state.frames(audio, readings.drop_last()).next;
            let last = mid.frame(crate::aggregator::frame_at(audio, n - 1), readings.last());
            &&& forall|i: int|
                0 <= i < last.reports.len() ==> state.is_whole(
                    audio,
                    readings,
                    #[trigger] last.reports[i],
                )
            &&& state.collects_lead_in(audio, readings, last.next, n) || state.collects_utterance(
                audio,
                readings,
                last.next,
                from,
                onset,
            )
        }),
{
    let n = readings.len() as int;
    let front = readings.drop_last();
    reveal(CaptureState::collects_utterance);
    reveal(CaptureState::collects_lead_in);
    assert(readings.take(n - 1) =~= front);
    lemma_frames_frame(state, audio, front);
    lemma_speaks_before(state, audio, readings, from, onset, n - 1);
    lemma_piece_and_frame(audio, onset * VAD_FRAME - state.lead_in(onset - from), n - 1);
    assert(Seq::<S>::empty() =~= audio.subrange(n * VAD_FRAME, n * VAD_FRAME));
    let mid = state.frames(audio, front).next;
    let last = mid.frame(crate::aggregator::frame_at(audio, n - 1), readings.last());
    let longer = audio.subrange(
        onset * VAD_FRAME - state.lead_in(onset - from),
        n * VAD_FRAME,
    );
    assert(mid.utter + crate::aggregator::frame_at(audio, n - 1) == longer);
    if state.long_silence(audio, readings, n - 1) {
        lemma_is_whole(state, audio, readings, from, onset, n, longer);
        assert(last.reports[0] == CapturedView::Utterance(longer));
        assert(state.collects_lead_in(audio, readings, last.next, n));
    } else {
        assert(state.collects_utterance(audio, readings, last.next, from, onset));
    }
}

/// One more frame while none is under way.
proof fn lemma_silence_step<S>(
    state: CaptureState<S>,
    audio: Seq<S>,
    readings: Seq<Reading>,
    from: int,
)
    requires
        state.preroll_cap >= 0,
        readings.len() > 0,
        readings.len() * VAD_FRAME <= audio.len(),
        state.collects_lead_in(
            audio,
            readings.drop_last(),
            state.frames(audio, readings.drop_last()).next,
            from,
        ),
    ensures
        ({
            let n = readings.len() as int;
            let mid = state.frames(audio, readings.drop_last()).next;
            let last = mid.frame(crate::aggregator::frame_at(audio, n - 1), readings.last());
            &&& forall|i: int|
                0 <= i < last.reports.len() ==> state.is_whole(
                    audio,
                    readings,
                    #[trigger] last.reports[i],
                )
            &&& state.collects_lead_in(audio, readings, last.next, from)
                || state.collects_utterance(audio, readings, last.next, from, n - 1)
        }),
{
    let n = readings.len() as int;
    let front = readings.drop_last();
    reveal(CaptureState::collects_utterance);
    reveal(CaptureState::collects_lead_in);
    assert(readings.take(n - 1) =~= front);
    lemma_frames_frame(state, audio, front);
    lemma_quiet_before(state, audio, readings, from, n - 1);
    lemma_piece_and_frame(audio, (n - 1) * VAD_FRAME - state.lead_in(n - 1 - from), n - 1);
    lemma_lead_in_grows(state, audio, from, n - 1);
    reveal(CaptureState::is_whole);
    if state.heard_at(audio, readings, n - 1).state == SpeechState::Speech {
        assert(state.speaks_between(audio, readings, from, n - 1, n));
    } else {
        assert(state.quiet_between(audio, readings, from, n));
    }
}

/// One more frame: what is collected, and the utterance if one ends.
proof fn lemma_collects_step<S>(state: CaptureState<S>, audio: Seq<S>, readings: Seq<Reading>)
    requires
        state.preroll_cap >= 0,
        readings.len() > 0,
        readings.len() * VAD_FRAME <= audio.len(),
        state.collects(audio, readings.drop_last()),
    ensures
        state.collects(audio, readings),
        ({
            let n = readings.len() as int;
            let mid = state.frames(audio, readings.drop_last()).next;
            let last = mid.frame(crate::aggregator::frame_at(audio, n - 1), readings.last());
            forall|i: int|
                0 <= i < last.reports.len() ==> state.is_whole(
                    audio,
                    readings,
                    #[trigger] last.reports[i],
                )
        }),
{
    let n = readings.len() as int;
    let front = readings.drop_last();
    let mid = state.frames(audio, front).next;
    let last = mid.frame(crate::aggregator::frame_at(audio, n - 1), readings.last());
    if exists|from: int, onset: int|
        state.collects_utterance(audio, front, mid, from, onset) {
        let (from, onset) = choose|from: int, onset: int|
            state.collects_utterance(audio, front, mid, from, onset);
        lemma_utterance_step(state, audio, readings, from, onset);
        assert(state.collects_lead_in(audio, readings, last.next, n) || state.collects_utterance(
            audio,
            readings,
            last.next,
            from,
            onset,
        ));
    } else {
        let from = choose|from: int| state.collects_lead_in(audio, front, mid, from);
        lemma_silence_step(state, audio, readings, from);
        assert(state.collects_lead_in(audio, readings, last.next, from)
            || state.collects_utterance(audio, readings, last.next, from, n - 1));
    }
}

/// Every utterance that is reported is whole: the silence before it since the start or the
/// last utterance, as far as the cap lets it lead in; the frame in which speech sets in; and
/// every frame after that, through the first with a silence that is long enough.
pub proof fn law_utterances_are_whole<S>(
    session: SessionConfig,
    vad: VadConfig,
    audio: Seq<S>,
    readings: Seq<Reading>,
    j: int,
)
    requires
        readings.len() * VAD_FRAME <= audio.len(),
        0 <= j < CaptureState::<S>::start(session, vad).frames(audio, readings).reports.len(),
    ensures
        ({
            let start = CaptureState::<S>::start(session, vad);
            start.is_whole(audio, readings, start.frames(audio, readings).reports[j])
        }),
    decreases readings.len(),
{
    let start = CaptureState::<S>::start(session, vad);
    let front = readings.drop_last();
    let before = start.frames(audio, front).reports;
    lemma_collects(session, vad, audio, front);
    lemma_collects_step(start, audio, readings);
    if j < before.len() {
        law_utterances_are_whole(session, vad, audio, front, j);
        reveal(CaptureState::is_whole);
        if let CapturedView::Utterance(said) = before[j] {
            let (from, onset, end) = choose|from: int, onset: int, end: int|
                #[trigger] start.is_utterance(audio, front, from, onset, end, said);
            lemma_speaks_before(start, audio, readings, from, onset, end - 1);
            lemma_heard_before(start, audio, readings, end - 1);
            assert(start.is_utterance(audio, readings, from, onset, end, said));
        }
    }
}

proof fn lemma_collects<S>(
    session: SessionConfig,
    vad: VadConfig,
    audio: Seq<S>,
    readings: Seq<Reading>,
)
    requires
        readings.len() * VAD_FRAME <= audio.len(),
    ensures
        CaptureState::<S>::start(session, vad).collects(audio, readings),
    decreases readings.len(),
{
    let start = CaptureState::<S>::start(session, vad);
    if readings.len() == 0 {
        reveal(CaptureState::collects_lead_in);
        assert(start.preroll =~= audio.subrange(0, 0));
        assert(start.collects_lead_in(audio, readings, start, 0));
    } else {
        lemma_collects(session, vad, audio, readings.drop_last());
        lemma_collects_step(start, audio, readings);
    }
}

/// Over a whole stream onsets and utterances alternate strictly, an onset first; an utterance
/// is under way exactly when its onset is the last that was reported.
pub proof fn law_reports_alternate<S>(
    session: SessionConfig,
    vad: VadConfig,
    audio: Seq<S>,
    readings: Seq<Reading>,
)
    ensures
        ({
            let step = CaptureState::<S>::start(session, vad).frames(audio, readings);
            &&& forall|j: int|
                0 <= j < step.reports.len() ==> (#[trigger] step.reports[j] is SpeechStarted <==> j
                    % 2 == 0)
            &&& step.next.in_speech <==> step.reports.len() % 2 == 1
        }),
    decreases readings.len(),
{
    if readings.len() > 0 {
        let front = readings.drop_last();
        law_reports_alternate(session, vad, audio, front);
        let before = CaptureState::<S>::start(session, vad).frames(audio, front);
        let step = CaptureState::<S>::start(session, vad).frames(audio, readings);
        assert forall|j: int| 0 <= j < step.reports.len() implies (
        #[trigger] step.reports[j] is SpeechStarted <==> j % 2 == 0) by {
            if j < before.reports.len() {
                assert(step.reports[j] == before.reports[j]);
            }
        }
    }
}

/// Frames do not depend on what is carried or on how often the source was polled.
proof fn lemma_frames_of_moved<S>(
    state: CaptureState<S>,
    carry: Seq<S>,
    tick: u64,
    audio: Seq<S>,
    readings: Seq<Reading>,
)
    ensures
        ({
            let moved = CaptureState { carry, tick, ..state };
            &&& moved.frames(audio, readings).next == (CaptureState {
                carry,
                tick,
                ..state.frames(audio, readings).next
            })
            &&& moved.frames(audio, readings).reports == state.frames(audio, readings).reports
        }),
    decreases readings.len(),
{
    if readings.len() > 0 {
        lemma_frames_of_moved(state, carry, tick, audio, readings.drop_last());
    }
}

/// Frames after frames: the later ones are judged as if they were the first.
proof fn lemma_frames_split<S>(
    state: CaptureState<S>,
    audio: Seq<S>,
    first: Seq<Reading>,
    later: Seq<Reading>,
)
    requires
        (first.len() + later.len()) * VAD_FRAME <= audio.len(),
    ensures
        ({
            let rest = audio.skip(first.len() * VAD_FRAME);
            let mid = state.frames(audio, first);
            let whole = state.frames(audio, first + later);
            &&& whole.next == mid.next.frames(rest, later).next
            &&& whole.reports == mid.reports + mid.next.frames(rest, later).reports
        }),
    decreases later.len(),
{
    let rest = audio.skip(first.len() * VAD_FRAME);
    let mid = state.frames(audio, first);
    if later.len() == 0 {
        assert(first + later =~= first);
        assert(mid.reports + Seq::<CapturedView<S>>::empty() =~= mid.reports);
    } else {
        let front = later.drop_last();
        lemma_frames_split(state, audio, first, front);
        let all = first + later;
        assert(all.drop_last() =~= first + front);
        let k = later.len() - 1;
        assert(crate::aggregator::frame_at(rest, k) =~= crate::aggregator::frame_at(
            audio,
            first.len() + k,
        )) by {
            assert((first.len() + k) * VAD_FRAME == first.len() * VAD_FRAME + k * VAD_FRAME)
                by (nonlinear_arith);
        }
        let whole = state.frames(audio, all);
        assert(whole.reports =~= mid.reports + mid.next.frames(rest, later).reports);
    }
}

/// The frames of the beginning of a stream do not depend on what follows it.
proof fn lemma_frames_of_longer<S>(
    state: CaptureState<S>,
    audio: Seq<S>,
    more: Seq<S>,
    readings: Seq<Reading>,
)
    requires
        readings.len() * VAD_FRAME <= audio.len(),
    ensures
        state.frames(audio + more, readings) == state.frames(audio, readings),
    decreases readings.len(),
{
    if readings.len() > 0 {
        lemma_frames_of_longer(state, audio, more, readings.drop_last());
        let k = readings.len() - 1;
        assert(crate::aggregator::frame_at(audio + more, k) =~= crate::aggregator::frame_at(
            audio,
            k,
        ));
    }
}

/// The polls make one stream: what comes of two of them, in turn, comes of their audio at
/// once, whatever the count of polls between them is.
pub proof fn law_polls_are_one_stream<S>(
    state: CaptureState<S>,
    samples: Seq<S>,
    readings: Seq<Reading>,
    more: Seq<S>,
    later: Seq<Reading>,
    tick: u64,
)
    requires
        readings.len() == crate::aggregator::frames_in(state.unjudged(samples)),
        ({
            let polled = CaptureState { tick, ..state.feed(samples, readings).next };
            later.len() == crate::aggregator::frames_in(polled.unjudged(more))
        }),
    ensures
        ({
            let first = state.feed(samples, readings);
            let second = CaptureState { tick, ..first.next }.feed(more, later);
            let whole = state.feed(samples + more, readings + later);
            &&& second.next == (CaptureState { tick, ..whole.next })
            &&& whole.reports == first.reports + second.reports
        }),
{
    let audio = state.unjudged(samples);
    let all = state.unjudged(samples + more);
    assert(all =~= audio + more);
    let n = readings.len() as int;
    let first = state.feed(samples, readings);
    let judged = state.frames(audio, readings);
    let polled = CaptureState { tick, ..first.next };
    let rest = polled.unjudged(more);
    assert(rest =~= all.skip(n * VAD_FRAME));
    lemma_frames_of_longer(state, audio, more, readings);
    lemma_frames_split(state, all, readings, later);
    lemma_frames_of_moved(judged.next, first.next.carry, tick, rest, later);
    assert(rest.skip(VAD_FRAME * later.len()) =~= all.skip(
        VAD_FRAME * (readings + later).len(),
    ));
}

// ---------------------------------------------------------------------------
// One frame
// ---------------------------------------------------------------------------

/// A frame in which speech sets in begins an utterance: with the lead-in, then the frame. It is
/// reported at once.
pub proof fn law_onset_begins_with_the_lead_in<S>(
    state: CaptureState<S>,
    frame: Seq<S>,
    reading: Reading,
)
    requires
        !state.in_speech,
        state.vad.hear(480, reading).state == SpeechState::Speech,
    ensures
        ({
            let step = state.frame(frame, reading);
            &&& step.reports == seq![CapturedView::<S>::SpeechStarted]
            &&& step.next == (CaptureState {
                vad: state.vad.hear(480, reading),
                in_speech: true,
                utter: state.preroll + frame,
                ..state
            })
        }),
{
}

/// While an utterance is under way every frame joins it, silent ones too. It ends with the
/// first whose silence is long enough: it is handed out with that frame, and neither it nor a
/// lead-in is left, while the noise floor is kept.
pub proof fn law_utterance_takes_every_frame<S>(
    state: CaptureState<S>,
    frame: Seq<S>,
    reading: Reading,
)
    requires
        state.in_speech,
    ensures
        ({
            let step = state.frame(frame, reading);
            let heard = state.vad.hear(480, reading);
            let ends = heard.state == SpeechState::Silence && heard.silence_run_ms
                >= state.silence_ms;
            &&& !ends ==> step.reports.len() == 0 && step.next == (CaptureState {
                vad: heard,
                utter: state.utter + frame,
                ..state
            })
            &&& ends ==> {
                &&& step.reports == seq![CapturedView::Utterance(state.utter + frame)]
                &&& !step.next.in_speech
                &&& step.next.utter.len() == 0
                &&& step.next.preroll.len() == 0
                &&& step.next.vad.noise_floor == heard.noise_floor
                &&& step.next.vad.last_rms == heard.last_rms
                &&& step.next.vad.state == SpeechState::Silence
                &&& step.next.vad.silence_run_ms == 0
                &&& step.next.carry == state.carry
                &&& step.next.preroll_cap == state.preroll_cap
                &&& step.next.silence_ms == state.silence_ms
            }
        }),
{
}

/// A silent frame outside an utterance joins the lead-in, of which the newest samples are kept,
/// up to the cap; nothing is reported.
pub proof fn law_silence_becomes_lead_in<S>(
    state: CaptureState<S>,
    frame: Seq<S>,
    reading: Reading,
)
    requires
        !state.in_speech,
        state.preroll_cap >= 0,
        state.vad.hear(480, reading).state == SpeechState::Silence,
    ensures
        ({
            let step = state.frame(frame, reading);
            let all = state.preroll + frame;
            let kept = step.next.preroll.len() as int;
            &&& step.reports.len() == 0
            &&& kept == if all.len() < state.preroll_cap {
                all.len() as int
            } else {
                state.preroll_cap
            }
            &&& step.next == (CaptureState {
                vad: state.vad.hear(480, reading),
                preroll: all.skip(all.len() - kept),
                ..state
            })
        }),
{
    let all = state.preroll + frame;
    assert(all.skip(0) =~= all);
}

/// A capture starts with nothing heard. The lead-in lasts `preroll_cs`, but holds at least a
/// frame of 480 samples.
pub proof fn law_capture_starts_silent<S>(session: SessionConfig, vad: VadConfig)
    requires
        160 * session.preroll_cs <= usize::MAX,
    ensures
        ({
            let start = CaptureState::<S>::start(session, vad);
            &&& start.preroll_cap == if session.preroll_cs < 3 {
                480
            } else {
                160 * session.preroll_cs
            }
            &&& start.silence_ms == session.utterance_silence_ms
            &&& !start.in_speech
            &&& start.utter.len() == 0
            &&& start.preroll.len() == 0
            &&& start.carry.len() == 0
            &&& start.tick == 0
            &&& start.vad == VadState::start(vad)
        }),
{
}

/// The frames of a stream are its pieces of 480 samples, judged in order; what is left over
/// waits.
pub proof fn law_feed_judges_frames_in_order<S>(
    state: CaptureState<S>,
    samples: Seq<S>,
    readings: Seq<Reading>,
)
    requires
        readings.len() == crate::aggregator::frames_in(state.unjudged(samples)),
    ensures
        ({
            let audio = state.carry + samples;
            let step = state.feed(samples, readings);
            &&& readings.len() == audio.len() / 480
            &&& step.next.carry == audio.skip(480 * readings.len() as int)
            &&& step.next.carry.len() == audio.len() % 480
            &&& readings.len() == 0 ==> step.reports.len() == 0
            &&& readings.len() > 0 ==> {
                let before = state.frames(audio, readings.drop_last());
                let last = before.next.frame(
                    audio.subrange(480 * (readings.len() - 1), 480 * readings.len() as int),
                    readings.last(),
                );
                &&& step.reports == before.reports + last.reports
                &&& step.next == (CaptureState { carry: step.next.carry, ..last.next })
            }
        }),
{
    let audio = state.carry + samples;
    if readings.len() > 0 {
        assert(crate::aggregator::frame_at(audio, readings.len() - 1) =~= audio.subrange(
            480 * (readings.len() - 1),
            480 * readings.len() as int,
        ));
    }
}

} // verus!
