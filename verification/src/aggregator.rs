//! The sliding window: buffer 16 kHz mono audio, watch for voice activity, hand out windows
//! to transcribe, and **trim the buffer at committed boundaries** so that transcribing it
//! again stays cheap.
//!
//! Pure and single-threaded. In the running program one instance lives per source; committed
//! times come back through [`WindowAggregator::trim_to`].

use crate::audio::copy_samples;
use crate::audio::cs_for_samples;
use crate::audio::drop_front;
use crate::audio::extend_samples;
use crate::audio::samples_for_cs;
use crate::audio::VAD_FRAME;
use crate::binary32::Binary32;
use crate::config::SessionConfig;
use crate::vad::Reading;
use crate::vad::SpeechState;
use crate::vad::Vad;
use crate::vad::VadConfig;
use crate::vad::VadState;
use vstd::prelude::*;

verus! {

/// A chunk of audio to transcribe, tagged with its absolute start time so the resulting
/// hypothesis can be shifted to the global timeline.
#[derive(Debug, PartialEq)]
pub struct Window<S> {
    pub samples: Vec<S>,
    pub offset_cs: u32,
}

impl<S: Copy> Clone for Window<S> {
    fn clone(&self) -> (copy: Self)
        ensures
            copy.samples@ == self.samples@,
            copy.offset_cs == self.offset_cs,
    {
        Window { samples: copy_samples(self.samples.as_slice()), offset_cs: self.offset_cs }
    }
}

// ---------------------------------------------------------------------------
// The window as a state machine
// ---------------------------------------------------------------------------

/// An aggregator's state.
#[verifier::ext_equal]
pub struct WindowState<S> {
    pub cfg: SessionConfig,
    pub vad: VadState,
    /// The buffered audio.
    pub buf: Seq<S>,
    /// How many samples of the source came before the buffer.
    pub offset: int,
    /// How many samples came since a window was handed out.
    pub since_step: int,
    /// The samples that do not fill a frame yet.
    pub carry: Seq<S>,
    /// Was speech heard since the last flush?
    pub speech: bool,
}

/// The `k`-th whole frame of `audio`.
pub open spec fn frame_at<S>(audio: Seq<S>, k: int) -> Seq<S> {
    audio.subrange(k * VAD_FRAME, (k + 1) * VAD_FRAME)
}

/// How many whole frames `audio` holds.
pub open spec fn frames_in<S>(audio: Seq<S>) -> int {
    audio.len() as int / VAD_FRAME as int
}

/// Are these the readings of the first frames of `audio`, each taken against the noise floor
/// that the frames before it left?
pub open spec fn frames_measured<S, F: Fn(&[S], &VadConfig, Binary32) -> Reading>(
    measure: F,
    vad: VadState,
    audio: Seq<S>,
    readings: Seq<Reading>,
) -> bool {
    forall|k: int|
        0 <= k < readings.len() ==> crate::vad::measured(
            measure,
            frame_at(audio, k),
            vad.cfg,
            vad.hear_all(VAD_FRAME as int, readings.take(k)).noise_floor,
            #[trigger] readings[k],
        )
}

/// `n`, and at least one.
pub open spec fn at_least_one(n: usize) -> int {
    if n < 1 {
        1
    } else {
        n as int
    }
}

impl<S> WindowState<S> {
    /// Where an aggregator starts.
    pub open spec fn start(cfg: SessionConfig, vad_cfg: VadConfig) -> WindowState<S> {
        WindowState {
            cfg,
            vad: VadState::start(vad_cfg),
            buf: seq![],
            offset: 0,
            since_step: 0,
            carry: seq![],
            speech: false,
        }
    }

    /// How many samples have come in so far.
    pub open spec fn total(self) -> int {
        self.offset + self.buf.len()
    }

    /// What holds of every state: no count exceeds the total, whose duration can be told,
    /// the samples carried over do not fill a frame, and the buffer stays within its cap.
    pub open spec fn valid(self) -> bool {
        &&& 0 <= self.offset
        &&& 0 <= self.since_step <= self.total()
        &&& self.carry.len() < VAD_FRAME
        &&& crate::audio::countable_samples(self.total())
        &&& self.total() <= usize::MAX
        &&& self.buf.len() <= self.cap()
    }

    /// How many new samples make a step.
    pub open spec fn step(self) -> int {
        at_least_one(crate::audio::samples_of_cs(self.cfg.step_cs))
    }

    /// How many samples are buffered at most.
    pub open spec fn cap(self) -> int {
        at_least_one(crate::audio::samples_of_cs(self.cfg.window_max_cs))
    }

    /// The first `n` samples of the buffer given up.
    pub open spec fn dropped(self, n: int) -> WindowState<S> {
        WindowState { buf: self.buf.skip(n), offset: self.offset + n, ..self }
    }

    /// The audio that the detector has not judged yet, once `samples` have come.
    pub open spec fn unjudged(self, samples: Seq<S>) -> Seq<S> {
        self.carry + samples
    }

    /// The state after the frames that `samples` complete have been judged.
    pub open spec fn judged(self, samples: Seq<S>, readings: Seq<Reading>) -> WindowState<S> {
        let n = VAD_FRAME as int;
        WindowState {
            vad: self.vad.hear_all(n, readings),
            carry: self.unjudged(samples).skip(n * readings.len()),
            speech: self.speech || self.vad.hears_speech(n, readings),
            ..self
        }
    }

    /// The state with its buffer cut to the cap: the oldest audio goes.
    pub open spec fn capped(self) -> WindowState<S> {
        if self.buf.len() > self.cap() {
            self.dropped(self.buf.len() - self.cap())
        } else {
            self
        }
    }

    /// The state after `samples`, whose frames measure as `readings`.
    pub open spec fn push(self, samples: Seq<S>, readings: Seq<Reading>) -> WindowState<S> {
        let judged = self.judged(samples, readings);
        let grown = WindowState {
            buf: self.buf + samples,
            since_step: self.since_step + samples.len(),
            ..judged
        };
        grown.capped()
    }

    /// Is a window due? A step's worth of new audio has come and speech was heard.
    pub open spec fn window_due(self) -> bool {
        self.buf.len() > 0 && self.speech && self.since_step >= self.step()
    }

    /// The state after a poll.
    pub open spec fn polled(self) -> WindowState<S> {
        if self.window_due() {
            WindowState { since_step: 0, ..self }
        } else {
            self
        }
    }

    /// The state after audio up to the committed time, less the pre-roll, has been given up: only
    /// once more than `buffer_trimming_cs` is buffered.
    pub open spec fn trim_to(self, committed_cs: u32) -> WindowState<S> {
        let keep_cs = if committed_cs > self.cfg.preroll_cs {
            (committed_cs - self.cfg.preroll_cs) as u32
        } else {
            0u32
        };
        let keep = crate::audio::samples_of_cs(keep_cs) as int;
        if crate::audio::cs_of_samples(self.buf.len() as int) <= self.cfg.buffer_trimming_cs {
            self
        } else if keep <= self.offset {
            self
        } else if keep - self.offset <= self.buf.len() {
            self.dropped(keep - self.offset)
        } else {
            self.dropped(self.buf.len() as int)
        }
    }

    /// Has enough silence followed speech to call the utterance finished?
    pub open spec fn utterance_ended(self) -> bool {
        self.speech && self.vad.silence_run_ms >= self.cfg.utterance_silence_ms
    }

    /// The state after the utterance has been flushed.
    pub open spec fn flushed(self) -> WindowState<S> {
        let preroll = crate::audio::samples_of_cs(self.cfg.preroll_cs) as int;
        let kept = if preroll < self.buf.len() {
            self.dropped(self.buf.len() - preroll)
        } else {
            self
        };
        WindowState {
            speech: false,
            since_step: 0,
            carry: seq![],
            vad: self.vad.reset(),
            ..kept
        }
    }
}

// ---------------------------------------------------------------------------
// The aggregator
// ---------------------------------------------------------------------------

/// One more frame measured.
proof fn lemma_measured_push<S, F: Fn(&[S], &VadConfig, Binary32) -> Reading>(
    measure: F,
    vad: VadState,
    audio: Seq<S>,
    readings: Seq<Reading>,
    reading: Reading,
)
    requires
        frames_measured(measure, vad, audio, readings),
        crate::vad::measured(
            measure,
            frame_at(audio, readings.len() as int),
            vad.cfg,
            vad.hear_all(VAD_FRAME as int, readings).noise_floor,
            reading,
        ),
    ensures
        frames_measured(measure, vad, audio, readings.push(reading)),
{
    let longer = readings.push(reading);
    let k = readings.len() as int;
    assert(longer.take(k) == readings);
    assert forall|j: int| 0 <= j < longer.len() implies crate::vad::measured(
        measure,
        frame_at(audio, j),
        vad.cfg,
        vad.hear_all(VAD_FRAME as int, longer.take(j)).noise_floor,
        #[trigger] longer[j],
    ) by {
        if j < k {
            assert(longer[j] == readings[j]);
            assert(longer.take(j) == readings.take(j));
        }
    }
}

/// One more frame judged.
proof fn lemma_judged_push<S>(
    state: WindowState<S>,
    samples: Seq<S>,
    readings: Seq<Reading>,
    reading: Reading,
)
    requires
        VAD_FRAME * (readings.len() + 1) <= state.unjudged(samples).len(),
    ensures
        ({
            let n = VAD_FRAME as int;
            let before = state.judged(samples, readings);
            let after = state.judged(samples, readings.push(reading));
            &&& after.vad == before.vad.hear(n, reading)
            &&& after.carry == before.carry.skip(n)
            &&& after.speech == (before.speech || after.vad.state == SpeechState::Speech)
        }),
{
    let n = VAD_FRAME as int;
    let longer = readings.push(reading);
    assert(longer.drop_last() == readings);
    let audio = state.unjudged(samples);
    assert(audio.skip(n * longer.len()) == audio.skip(n * readings.len()).skip(n));
}

/// Buffers audio for one source and decides when to transcribe / trim.
#[derive(Debug)]
pub struct WindowAggregator<S> {
    cfg: SessionConfig,
    vad: Vad,
    buf: Vec<S>,
    /// Absolute sample index of `buf[0]` (source of truth for time; avoids drift).
    offset_samples: usize,
    samples_since_step: usize,
    vad_carry: Vec<S>,
    /// Any speech observed since the last flush (gate: don't transcribe pure silence).
    speech_in_window: bool,
}

impl<S> View for WindowAggregator<S> {
    type V = WindowState<S>;

    closed spec fn view(&self) -> WindowState<S> {
        WindowState {
            cfg: self.cfg,
            vad: self.vad@,
            buf: self.buf@,
            offset: self.offset_samples as int,
            since_step: self.samples_since_step as int,
            carry: self.vad_carry@,
            speech: self.speech_in_window,
        }
    }
}

impl<S: Copy> Clone for WindowAggregator<S> {
    fn clone(&self) -> (copy: Self)
        ensures
            copy@ == self@,
    {
        WindowAggregator {
            cfg: self.cfg,
            vad: self.vad,
            buf: copy_samples(self.buf.as_slice()),
            offset_samples: self.offset_samples,
            samples_since_step: self.samples_since_step,
            vad_carry: copy_samples(self.vad_carry.as_slice()),
            speech_in_window: self.speech_in_window,
        }
    }
}

impl<S: Copy> WindowAggregator<S> {
    pub fn new(cfg: SessionConfig, vad_cfg: VadConfig) -> (aggregator: Self)
        ensures
            aggregator@ == WindowState::<S>::start(cfg, vad_cfg),
            aggregator@.valid(),
    {
        WindowAggregator {
            cfg,
            vad: Vad::new(vad_cfg),
            buf: Vec::new(),
            offset_samples: 0,
            samples_since_step: 0,
            vad_carry: Vec::new(),
            speech_in_window: false,
        }
    }

    fn step_samples(&self) -> (n: usize)
        ensures
            n == self@.step(),
    {
        let n: usize = samples_for_cs(self.cfg.step_cs);
        if n < 1 {
            1
        } else {
            n
        }
    }

    fn window_max_samples(&self) -> (n: usize)
        ensures
            n == self@.cap(),
    {
        let n: usize = samples_for_cs(self.cfg.window_max_cs);
        if n < 1 {
            1
        } else {
            n
        }
    }

    /// Absolute centisecond time of `buf[0]`.
    pub fn offset_cs(&self) -> (cs: u32)
        requires
            self@.valid(),
        ensures
            cs == crate::audio::cs_of_samples(self@.offset),
    {
        cs_for_samples(self.offset_samples)
    }

    /// Current buffered duration in centiseconds.
    pub fn buffer_len_cs(&self) -> (cs: u32)
        requires
            self@.valid(),
        ensures
            cs == crate::audio::cs_of_samples(self@.buf.len() as int),
    {
        cs_for_samples(self.buf.len())
    }

    pub fn vad_state(&self) -> (state: SpeechState)
        ensures
            state == self@.vad.state,
    {
        self.vad.state()
    }

    /// Current input level (most recent frame), for a UI meter.
    pub fn level(&self) -> (level: Binary32)
        ensures
            level == self@.vad.last_rms,
    {
        self.vad.last_rms()
    }

    /// The noise floor that the next frame is measured against.
    pub fn noise_floor(&self) -> (floor: Binary32)
        ensures
            floor == self@.vad.noise_floor,
    {
        self.vad.noise_floor()
    }

    /// Can `n` more samples be counted?
    pub fn can_take(&self, n: usize) -> (answer: bool)
        requires
            self@.valid(),
        ensures
            answer == (crate::audio::countable_samples(self@.total() + n) && self@.total() + n
                <= usize::MAX),
    {
        match (self.offset_samples + self.buf.len()).checked_add(n) {
            Some(total) => total as u64 <= u64::MAX / 100,
            None => false,
        }
    }

    /// Append captured 16 kHz mono audio, updating the voice activity and the hard size cap.
    pub fn push_audio<F: Fn(&[S], &VadConfig, Binary32) -> Reading>(
        &mut self,
        samples: &[S],
        measure: &F,
    )
        requires
            old(self)@.valid(),
            crate::audio::countable_samples(old(self)@.total() + samples@.len()),
            old(self)@.total() + samples@.len() <= usize::MAX,
            crate::vad::measures_all(*measure),
        ensures
            final(self)@.valid(),
            final(self)@.total() == old(self)@.total() + samples@.len(),
            exists|readings: Seq<Reading>|
                readings.len() == frames_in(old(self)@.unjudged(samples@)) && frames_measured(
                    *measure,
                    old(self)@.vad,
                    old(self)@.unjudged(samples@),
                    readings,
                ) && final(self)@ == #[trigger] old(self)@.push(samples@, readings),
    {
        let ghost begin = self@;
        if samples.len() == 0 {
            proof {
                let none = Seq::<Reading>::empty();
                let audio = begin.unjudged(samples@);
                assert(audio == begin.carry);
                assert(begin.carry.skip(0) == begin.carry);
                assert(begin.buf + samples@ == begin.buf);
                assert(frames_in(audio) == 0);
                assert(begin.push(samples@, none) == begin);
            }
            return;
        }
        extend_samples(&mut self.buf, samples);
        self.samples_since_step += samples.len();
        let ghost grown = self@;
        self.feed_vad(samples, measure);
        let ghost readings = choose|readings: Seq<Reading>|
            readings.len() == frames_in(begin.unjudged(samples@)) && frames_measured(
                *measure,
                begin.vad,
                begin.unjudged(samples@),
                readings,
            ) && self@ == #[trigger] grown.judged(samples@, readings);
        self.enforce_hard_cap();
        proof {
            let audio = begin.unjudged(samples@);
            assert(audio.len() - VAD_FRAME * (audio.len() as int / VAD_FRAME as int) < VAD_FRAME);
            assert(self@ == begin.push(samples@, readings));
        }
    }

    /// Judge the frames that `samples` complete.
    fn feed_vad<F: Fn(&[S], &VadConfig, Binary32) -> Reading>(
        &mut self,
        samples: &[S],
        measure: &F,
    )
        requires
            crate::vad::measures_all(*measure),
        ensures
            exists|readings: Seq<Reading>|
                readings.len() == frames_in(old(self)@.unjudged(samples@)) && frames_measured(
                    *measure,
                    old(self)@.vad,
                    old(self)@.unjudged(samples@),
                    readings,
                ) && final(self)@ == #[trigger] old(self)@.judged(samples@, readings),
    {
        let ghost begin = self@;
        let ghost audio = begin.unjudged(samples@);
        let ghost mut readings = Seq::<Reading>::empty();
        extend_samples(&mut self.vad_carry, samples);
        assert(audio.skip(0) == audio);
        while self.vad_carry.len() >= VAD_FRAME
            invariant
                crate::vad::measures_all(*measure),
                audio == begin.unjudged(samples@),
                VAD_FRAME * readings.len() <= audio.len(),
                frames_measured(*measure, begin.vad, audio, readings),
                self@ == begin.judged(samples@, readings),
                self@.vad.cfg == begin.vad.cfg,
            decreases self.vad_carry.len(),
        {
            let ghost before = self@;
            let rest = self.vad_carry.split_off(VAD_FRAME);
            let mut frame = rest;
            std::mem::swap(&mut frame, &mut self.vad_carry);
            let ghost k = readings.len() as int;
            assert(frame@ == frame_at(audio, k));
            let samples_of_frame = frame.as_slice();
            let heard = self.vad.observe(samples_of_frame, measure);
            if heard == SpeechState::Speech {
                self.speech_in_window = true;
            }
            proof {
                let floor = before.vad.noise_floor;
                let reading = choose|reading: Reading|
                    measure.ensures((samples_of_frame, &before.vad.cfg, floor), reading)
                        && self.vad@ == #[trigger] before.vad.hear(VAD_FRAME as int, reading);
                let longer = readings.push(reading);
                assert(crate::vad::measured(
                    *measure,
                    frame_at(audio, k),
                    begin.vad.cfg,
                    floor,
                    reading,
                ));
                lemma_measured_push(*measure, begin.vad, audio, readings, reading);
                lemma_judged_push(begin, samples@, readings, reading);
                assert(self.vad_carry@ == begin.judged(samples@, longer).carry);
                readings = longer;
            }
        }
        proof {
            let k = readings.len() as int;
            assert(self.vad_carry@.len() == audio.len() - VAD_FRAME * k);
            assert(frames_in(audio) == k);
        }
    }

    /// Never let the buffer exceed the cap (safety net independent of trimming).
    fn enforce_hard_cap(&mut self)
        requires
            old(self)@.total() <= usize::MAX,
        ensures
            final(self)@ == old(self)@.capped(),
    {
        let cap: usize = self.window_max_samples();
        if self.buf.len() > cap {
            let n: usize = self.buf.len() - cap;
            drop_front(&mut self.buf, n);
            self.offset_samples += n;
        }
    }

    /// If a step's worth of new audio has arrived and the buffer contains speech, hand out
    /// the current buffer as a window to transcribe.
    pub fn poll_window(&mut self) -> (window: Option<Window<S>>)
        requires
            old(self)@.valid(),
        ensures
            final(self)@ == old(self)@.polled(),
            final(self)@.valid(),
            match window {
                Some(window) => old(self)@.window_due() && window.samples@ == old(self)@.buf
                    && window.offset_cs == crate::audio::cs_of_samples(old(self)@.offset),
                None => !old(self)@.window_due(),
            },
    {
        if self.buf.len() == 0 || !self.speech_in_window {
            return None;
        }
        if self.samples_since_step < self.step_samples() {
            return None;
        }
        self.samples_since_step = 0;
        Some(Window { samples: copy_samples(self.buf.as_slice()), offset_cs: self.offset_cs() })
    }

    /// Trim the buffer up to the committed absolute time (minus pre-roll), but only once the
    /// buffer has grown past `buffer_trimming_cs`. Monotonic and idempotent.
    pub fn trim_to(&mut self, committed_abs_cs: u32)
        requires
            old(self)@.valid(),
        ensures
            final(self)@ == old(self)@.trim_to(committed_abs_cs),
            final(self)@.valid(),
    {
        if self.buffer_len_cs() <= self.cfg.buffer_trimming_cs {
            return;
        }
        let keep_from_cs: u32 = committed_abs_cs.saturating_sub(self.cfg.preroll_cs);
        let keep_from_sample: usize = samples_for_cs(keep_from_cs);
        if keep_from_sample <= self.offset_samples {
            return;  // already trimmed past here
        }
        let wanted: usize = keep_from_sample - self.offset_samples;
        let n: usize = if wanted < self.buf.len() {
            wanted
        } else {
            self.buf.len()
        };
        drop_front(&mut self.buf, n);
        self.offset_samples += n;
    }

    /// True once enough trailing silence after speech has been heard to call the utterance
    /// finished (the volatile tail should then be flushed).
    pub fn utterance_ended(&self) -> (ended: bool)
        ensures
            ended == self@.utterance_ended(),
    {
        self.speech_in_window && self.vad.silence_run_ms() >= self.cfg.utterance_silence_ms
    }

    /// Reset after an utterance was flushed: drop all but `preroll_cs` of audio, clear the
    /// speech gate, and ready the detector for the next utterance.
    pub fn note_flushed(&mut self)
        requires
            old(self)@.valid(),
        ensures
            final(self)@ == old(self)@.flushed(),
            final(self)@.valid(),
    {
        let preroll: usize = samples_for_cs(self.cfg.preroll_cs);
        if preroll < self.buf.len() {
            let n: usize = self.buf.len() - preroll;
            drop_front(&mut self.buf, n);
            self.offset_samples += n;
        }
        self.speech_in_window = false;
        self.samples_since_step = 0;
        // Leftover loud samples from the finished utterance must not bleed into the next
        // frame and re-trigger speech.
        self.vad_carry.clear();
        self.vad.reset();
    }
}

// ---------------------------------------------------------------------------
// Laws
// ---------------------------------------------------------------------------

/// Does the buffer hold the source's audio from the offset on?
pub open spec fn holds_suffix_of<S>(state: WindowState<S>, stream: Seq<S>) -> bool {
    0 <= state.offset <= stream.len() && state.buf == stream.skip(state.offset)
}

/// No audio is lost, repeated or reordered inside the buffer: whatever is pushed, trimmed or
/// flushed, the buffer is the rest of the source's audio from the offset on. So a window's
/// start time is the true one.
pub proof fn law_buffer_is_suffix<S>(
    state: WindowState<S>,
    stream: Seq<S>,
    samples: Seq<S>,
    readings: Seq<Reading>,
    committed_cs: u32,
)
    requires
        state.valid(),
        holds_suffix_of(state, stream),
    ensures
        holds_suffix_of(state.push(samples, readings), stream + samples),
        holds_suffix_of(state.polled(), stream),
        holds_suffix_of(state.trim_to(committed_cs), stream),
        holds_suffix_of(state.flushed(), stream),
{
    let longer = stream + samples;
    assert(longer.skip(state.offset) == state.buf + samples);
    let pushed = state.push(samples, readings);
    assert(pushed.buf == longer.skip(pushed.offset));
    let trimmed = state.trim_to(committed_cs);
    assert(trimmed.buf == stream.skip(trimmed.offset));
    let flushed = state.flushed();
    assert(flushed.buf == stream.skip(flushed.offset));
}

/// The hard cap bounds the buffer whatever is pushed, and what it costs shows in the offset.
pub proof fn law_buffer_is_capped<S>(
    state: WindowState<S>,
    samples: Seq<S>,
    readings: Seq<Reading>,
)
    requires
        state.valid(),
    ensures
        state.push(samples, readings).buf.len() <= state.cap(),
        crate::audio::TARGET_RATE * state.cfg.window_max_cs / 100 <= usize::MAX
            ==> crate::audio::cs_of_samples(state.push(samples, readings).buf.len() as int)
            <= state.cfg.window_max_cs,
        state.push(samples, readings).total() == state.total() + samples.len(),
        state.push(samples, readings).offset >= state.offset,
{
}

/// Trimming twice to one time is trimming once.
pub proof fn law_trim_idempotent<S>(state: WindowState<S>, committed_cs: u32)
    requires
        state.valid(),
    ensures
        state.trim_to(committed_cs).trim_to(committed_cs) == state.trim_to(committed_cs),
{
    let once = state.trim_to(committed_cs);
    assert(once.buf.skip(0) == once.buf);
}

/// Trimming never gives audio back: the start of the buffer moves on or stays, and the end
/// stays. A time at or before one already trimmed to changes nothing.
pub proof fn law_trim_monotone<S>(state: WindowState<S>, committed_cs: u32, earlier_cs: u32)
    requires
        state.valid(),
        earlier_cs <= committed_cs,
        16_000 * committed_cs / 100 <= usize::MAX,
    ensures
        state.trim_to(committed_cs).offset >= state.offset,
        state.trim_to(committed_cs).total() == state.total(),
        state.trim_to(committed_cs).trim_to(earlier_cs) == state.trim_to(committed_cs),
{
    let once = state.trim_to(committed_cs);
    assert(once.buf.skip(0) == once.buf);
}

/// Trimming keeps the pre-roll: the buffer still starts at or before the committed time less
/// the pre-roll, unless it started later already.
pub proof fn law_trim_keeps_preroll<S>(state: WindowState<S>, committed_cs: u32)
    requires
        state.valid(),
        committed_cs >= state.cfg.preroll_cs,
    ensures
        state.trim_to(committed_cs).offset <= state.offset || state.trim_to(committed_cs).offset
            <= crate::audio::samples_of_cs((committed_cs - state.cfg.preroll_cs) as u32),
{
}

/// Without speech there is no window: as long as none is heard, nothing is handed out, and
/// no utterance ends.
pub proof fn law_silence_is_not_transcribed<S>(
    state: WindowState<S>,
    samples: Seq<S>,
    readings: Seq<Reading>,
)
    requires
        !state.speech,
        !state.vad.hears_speech(VAD_FRAME as int, readings),
    ensures
        !state.push(samples, readings).speech,
        !state.push(samples, readings).window_due(),
        !state.push(samples, readings).utterance_ended(),
{
}

/// A window is handed out once per step: right after one, none is due.
pub proof fn law_one_window_per_step<S>(state: WindowState<S>)
    ensures
        !state.polled().window_due(),
{
}

/// A flush leaves at most the pre-roll, and nothing is due until speech is heard again.
pub proof fn law_flush_clears<S>(state: WindowState<S>)
    ensures
        state.flushed().buf.len() <= crate::audio::samples_of_cs(state.cfg.preroll_cs)
            || state.flushed().buf.len() == state.buf.len(),
        !state.flushed().window_due(),
        !state.flushed().utterance_ended(),
        state.flushed().vad.state == SpeechState::Silence,
        state.flushed().total() == state.total(),
{
}

/// Frames after frames are heard as all of them at once.
proof fn lemma_hear_all_split(vad: VadState, n: int, first: Seq<Reading>, later: Seq<Reading>)
    ensures
        vad.hear_all(n, first + later) == vad.hear_all(n, first).hear_all(n, later),
        vad.hears_speech(n, first + later) == (vad.hears_speech(n, first) || vad.hear_all(
            n,
            first,
        ).hears_speech(n, later)),
    decreases later.len(),
{
    let all = first + later;
    if later.len() == 0 {
        assert(all =~= first);
    } else {
        lemma_hear_all_split(vad, n, first, later.drop_last());
        assert(all.drop_last() =~= first + later.drop_last());
    }
}

/// How pushes cut the audio into frames does not depend on where one ends.
proof fn lemma_unjudged_split<S>(
    state: WindowState<S>,
    samples: Seq<S>,
    readings: Seq<Reading>,
    more: Seq<S>,
)
    requires
        readings.len() == frames_in(state.unjudged(samples)),
    ensures
        ({
            let n = VAD_FRAME as int;
            let all = state.unjudged(samples + more);
            let rest = state.push(samples, readings).unjudged(more);
            &&& n * readings.len() <= state.unjudged(samples).len()
            &&& rest == all.skip(n * readings.len())
            &&& frames_in(all) == readings.len() + frames_in(rest)
        }),
{
    let n = VAD_FRAME as int;
    let all = state.unjudged(samples + more);
    let audio = state.unjudged(samples);
    let rest = state.push(samples, readings).unjudged(more);
    assert(all =~= audio + more);
    assert(rest =~= all.skip(n * readings.len()));
}

/// Pushes make one stream: pushing `samples` and then `more` leaves the window as pushing both
/// at once does: the same buffer and offset, the same detector, and so the same answers to
/// every question.
pub proof fn law_pushes_are_one_stream<S>(
    state: WindowState<S>,
    samples: Seq<S>,
    readings: Seq<Reading>,
    more: Seq<S>,
    later: Seq<Reading>,
)
    requires
        readings.len() == frames_in(state.unjudged(samples)),
        later.len() == frames_in(state.push(samples, readings).unjudged(more)),
    ensures
        (readings + later).len() == frames_in(state.unjudged(samples + more)),
        state.push(samples, readings).push(more, later) == state.push(
            samples + more,
            readings + later,
        ),
{
    let n = VAD_FRAME as int;
    let first = state.push(samples, readings);
    let second = first.push(more, later);
    let whole = state.push(samples + more, readings + later);
    lemma_unjudged_split(state, samples, readings, more);
    lemma_hear_all_split(state.vad, n, readings, later);
    let all = state.unjudged(samples + more);
    assert(first.unjudged(more).skip(n * later.len()) =~= all.skip(
        n * (readings + later).len(),
    ));
    assert(second.buf =~= whole.buf);
}

/// Readings that are taken push by push are taken of the whole stream, and each against the
/// same noise floor.
#[verifier::spinoff_prover]
#[verifier::rlimit(40)]
pub proof fn law_pushes_are_measured_as_one<S, F: Fn(&[S], &VadConfig, Binary32) -> Reading>(
    measure: F,
    state: WindowState<S>,
    samples: Seq<S>,
    readings: Seq<Reading>,
    more: Seq<S>,
    later: Seq<Reading>,
)
    requires
        readings.len() == frames_in(state.unjudged(samples)),
        later.len() == frames_in(state.push(samples, readings).unjudged(more)),
        frames_measured(measure, state.vad, state.unjudged(samples), readings),
        frames_measured(
            measure,
            state.push(samples, readings).vad,
            state.push(samples, readings).unjudged(more),
            later,
        ),
    ensures
        frames_measured(
            measure,
            state.vad,
            state.unjudged(samples + more),
            readings + later,
        ),
{
    let first = state.push(samples, readings);
    lemma_unjudged_split(state, samples, readings, more);
    assert(first.vad == state.vad.hear_all(VAD_FRAME as int, readings));
    assert(state.unjudged(samples + more) =~= state.unjudged(samples) + more);
    lemma_measured_split(
        measure,
        state.vad,
        state.unjudged(samples),
        more,
        first.unjudged(more),
        readings,
        later,
    );
}

/// The frames of a stream that is cut after whole frames are the frames of its parts.
proof fn lemma_frame_split<S>(audio: Seq<S>, more: Seq<S>, rest: Seq<S>, r: int, k: int)
    requires
        0 <= r,
        r * VAD_FRAME <= audio.len(),
        rest == (audio + more).skip(r * VAD_FRAME),
        0 <= k,
        (k + 1) * VAD_FRAME <= (audio + more).len(),
    ensures
        k < r ==> frame_at(audio + more, k) == frame_at(audio, k),
        k >= r ==> frame_at(audio + more, k) == frame_at(rest, k - r),
{
    if k < r {
        assert(frame_at(audio + more, k) =~= frame_at(audio, k));
    } else {
        assert(frame_at(audio + more, k) =~= frame_at(rest, k - r));
    }
}

#[verifier::spinoff_prover]
#[verifier::rlimit(40)]
proof fn lemma_measured_split<S, F: Fn(&[S], &VadConfig, Binary32) -> Reading>(
    measure: F,
    vad: VadState,
    audio: Seq<S>,
    more: Seq<S>,
    rest: Seq<S>,
    readings: Seq<Reading>,
    later: Seq<Reading>,
)
    requires
        readings.len() * VAD_FRAME <= audio.len(),
        rest == (audio + more).skip(readings.len() * VAD_FRAME),
        later.len() * VAD_FRAME <= rest.len(),
        frames_measured(measure, vad, audio, readings),
        frames_measured(measure, vad.hear_all(VAD_FRAME as int, readings), rest, later),
    ensures
        frames_measured(measure, vad, audio + more, readings + later),
    decreases later.len(),
{
    let n = VAD_FRAME as int;
    let r = readings.len() as int;
    let all = audio + more;
    if later.len() == 0 {
        assert(readings + later =~= readings);
        assert forall|k: int| 0 <= k < r implies crate::vad::measured(
            measure,
            frame_at(all, k),
            vad.cfg,
            vad.hear_all(n, readings.take(k)).noise_floor,
            #[trigger] readings[k],
        ) by {
            lemma_frame_split(audio, more, rest, r, k);
        }
    } else {
        let front = later.drop_last();
        let k = later.len() - 1;
        let heard = vad.hear_all(n, readings);
        assert(later.take(k) =~= front);
        assert forall|j: int| 0 <= j < front.len() implies crate::vad::measured(
            measure,
            frame_at(rest, j),
            heard.cfg,
            heard.hear_all(n, front.take(j)).noise_floor,
            #[trigger] front[j],
        ) by {
            assert(front[j] == later[j]);
            assert(front.take(j) =~= later.take(j));
        }
        lemma_measured_split(measure, vad, audio, more, rest, readings, front);
        assert(crate::vad::measured(
            measure,
            frame_at(rest, k),
            heard.cfg,
            heard.hear_all(n, later.take(k)).noise_floor,
            later[k],
        ));
        lemma_frame_split(audio, more, rest, r, r + k);
        lemma_hear_all_split(vad, n, readings, front);
        lemma_hear_all_cfg(vad, n, readings);
        lemma_measured_push(measure, vad, all, readings + front, later.last());
        assert((readings + front).push(later.last()) =~= readings + later);
    }
}

/// Frames leave the configuration alone.
proof fn lemma_hear_all_cfg(vad: VadState, n: int, readings: Seq<Reading>)
    ensures
        vad.hear_all(n, readings).cfg == vad.cfg,
    decreases readings.len(),
{
    if readings.len() > 0 {
        lemma_hear_all_cfg(vad, n, readings.drop_last());
    }
}

/// A flush keeps the pre-roll, as much of it as there is: the newest audio, 160 samples to the
/// centisecond. What speech and steps were counted is forgotten; the noise floor is not.
pub proof fn law_flush_keeps_preroll<S>(state: WindowState<S>)
    requires
        160 * state.cfg.preroll_cs <= usize::MAX,
    ensures
        ({
            let after = state.flushed();
            let kept = after.buf.len() as int;
            &&& kept == if state.buf.len() < 160 * state.cfg.preroll_cs {
                state.buf.len() as int
            } else {
                160 * state.cfg.preroll_cs
            }
            &&& after.buf == state.buf.skip(state.buf.len() - kept)
            &&& after.offset == state.offset + state.buf.len() - kept
            &&& !after.speech
            &&& after.since_step == 0
            &&& after.carry.len() == 0
            &&& after.vad.noise_floor == state.vad.noise_floor
            &&& after.vad.last_rms == state.vad.last_rms
            &&& after.vad.state == SpeechState::Silence
            &&& after.vad.silence_run_ms == 0
            &&& after.vad.cfg == state.vad.cfg
            &&& after.cfg == state.cfg
        }),
{
    assert(state.buf.skip(0) =~= state.buf);
}

/// Trimming gives up all the audio that is committed, but for the pre-roll, and no more: once
/// more than `buffer_trimming_cs` is buffered, the buffer starts at the committed time less the
/// pre-roll, or where it started if that is later, or is empty if all of it is older. Nothing
/// but the start of the buffer changes.
pub proof fn law_trim_gives_up_the_committed<S>(state: WindowState<S>, committed_cs: u32)
    requires
        state.valid(),
        160 * committed_cs <= usize::MAX,
    ensures
        ({
            let after = state.trim_to(committed_cs);
            let keep = if committed_cs > state.cfg.preroll_cs {
                160 * (committed_cs - state.cfg.preroll_cs)
            } else {
                0
            };
            let long = crate::audio::cs_of_samples(state.buf.len() as int)
                > state.cfg.buffer_trimming_cs;
            &&& long && keep > state.offset && keep <= state.total() ==> after.offset == keep
            &&& long && keep > state.total() ==> after.offset == state.total()
            &&& !long || keep <= state.offset ==> after.offset == state.offset
            &&& after.buf == state.buf.skip(after.offset - state.offset)
            &&& after.vad == state.vad
            &&& after.carry == state.carry
            &&& after.speech == state.speech
            &&& after.since_step == state.since_step
            &&& after.cfg == state.cfg
        }),
{
    assert(state.buf.skip(0) =~= state.buf);
}

/// Audio that is pushed joins the end of the buffer, whose oldest part goes where it is more
/// than `window_max_cs`; the detector hears it in frames of 480 samples, and what does not fill
/// one waits.
pub proof fn law_push_appends<S>(
    state: WindowState<S>,
    samples: Seq<S>,
    readings: Seq<Reading>,
)
    requires
        160 * state.cfg.window_max_cs <= usize::MAX,
        readings.len() == frames_in(state.carry + samples),
    ensures
        ({
            let after = state.push(samples, readings);
            let all = state.buf + samples;
            let cap = if state.cfg.window_max_cs == 0 {
                1
            } else {
                160 * state.cfg.window_max_cs
            };
            let kept = if all.len() < cap {
                all.len() as int
            } else {
                cap
            };
            &&& after.buf == all.skip(all.len() - kept)
            &&& after.offset == state.offset + all.len() - kept
            &&& after.since_step == state.since_step + samples.len()
            &&& readings.len() == (state.carry.len() + samples.len()) / 480
            &&& after.carry == (state.carry + samples).skip(480 * readings.len() as int)
            &&& after.carry.len() == (state.carry.len() + samples.len()) % 480
            &&& after.vad == state.vad.hear_all(480, readings)
            &&& after.speech <==> state.speech || exists|k: int|
                0 < k <= readings.len() && (#[trigger] state.vad.hear_all(
                    480,
                    readings.take(k),
                )).state == SpeechState::Speech
            &&& after.cfg == state.cfg
        }),
{
    let all = state.buf + samples;
    assert(all.skip(0) =~= all);
    crate::vad::law_speech_is_heard_in_a_frame(state.vad, 480, readings);
}

/// A window is handed out exactly when speech was heard, there is audio, and a step's worth of
/// it has come since the last one; only then does the count start again. It changes nothing
/// else.
pub proof fn law_window_is_due<S>(state: WindowState<S>)
    requires
        160 * state.cfg.step_cs <= usize::MAX,
    ensures
        state.window_due() <==> state.speech && state.buf.len() > 0 && state.since_step >= 160
            * state.cfg.step_cs && state.since_step >= 1,
        state.polled() == (WindowState {
            since_step: if state.window_due() {
                0
            } else {
                state.since_step
            },
            ..state
        }),
{
}

/// An utterance has ended exactly when speech was heard and the silence since lasts
/// `utterance_silence_ms` or more.
pub proof fn law_utterance_ends_in_silence<S>(state: WindowState<S>)
    ensures
        state.utterance_ended() <==> state.speech && state.vad.silence_run_ms
            >= state.cfg.utterance_silence_ms,
{
}

/// A window starts empty and silent, at time zero.
pub proof fn law_window_starts_empty<S>(cfg: SessionConfig, vad_cfg: VadConfig)
    ensures
        ({
            let start = WindowState::<S>::start(cfg, vad_cfg);
            &&& start.buf.len() == 0
            &&& start.carry.len() == 0
            &&& start.offset == 0
            &&& start.since_step == 0
            &&& !start.speech
            &&& start.cfg == cfg
            &&& start.vad == VadState::start(vad_cfg)
        }),
{
}

/// Frames are measured in turn: the next one is measured as the 480 samples behind those
/// before, against the noise floor that hearing them all left.
pub proof fn law_frames_are_measured_in_turn<S, F: Fn(&[S], &VadConfig, Binary32) -> Reading>(
    measure: F,
    vad: VadState,
    audio: Seq<S>,
    readings: Seq<Reading>,
    reading: Reading,
)
    requires
        480 * (readings.len() + 1) <= audio.len(),
    ensures
        frames_measured(measure, vad, audio, Seq::<Reading>::empty()),
        frames_measured(measure, vad, audio, readings.push(reading)) <==> frames_measured(
            measure,
            vad,
            audio,
            readings,
        ) && crate::vad::measured(
            measure,
            audio.subrange(480 * readings.len() as int, 480 * (readings.len() as int) + 480),
            vad.cfg,
            vad.hear_all(480, readings).noise_floor,
            reading,
        ),
{
    let n = readings.len() as int;
    let all = readings.push(reading);
    assert(frame_at(audio, n) =~= audio.subrange(480 * n, 480 * n + 480));
    assert(all.take(n) =~= readings);
    assert forall|k: int| 0 <= k < n implies all.take(k) == #[trigger] readings.take(k) by {
        assert(all.take(k) =~= readings.take(k));
    }
    if frames_measured(measure, vad, audio, all) {
        assert(all[n] == reading);
        assert forall|k: int| 0 <= k < n implies crate::vad::measured(
            measure,
            frame_at(audio, k),
            vad.cfg,
            vad.hear_all(VAD_FRAME as int, readings.take(k)).noise_floor,
            #[trigger] readings[k],
        ) by {
            assert(all[k] == readings[k]);
        }
    }
    if frames_measured(measure, vad, audio, readings) && crate::vad::measured(
        measure,
        frame_at(audio, n),
        vad.cfg,
        vad.hear_all(480, readings).noise_floor,
        reading,
    ) {
        assert forall|k: int| 0 <= k < all.len() implies crate::vad::measured(
            measure,
            frame_at(audio, k),
            vad.cfg,
            vad.hear_all(VAD_FRAME as int, all.take(k)).noise_floor,
            #[trigger] all[k],
        ) by {
            if k < n {
                assert(all[k] == readings[k]);
            }
        }
    }
}

} // verus!
