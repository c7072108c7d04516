//! Energy voice-activity detection with an **adaptive noise floor** and hysteresis.
//!
//! Voice activity is used only to skip silence and to detect utterance boundaries, *not* as
//! the guard against hallucinated text (that is the confidence gate in
//! [`crate::word::Hypothesis::confident_words`]).
//!
//! A fixed threshold mis-fires across devices and rooms, so the threshold tracks a rolling
//! noise floor estimated during silence: the level to enter speech is the floor times
//! `enter_mult`, with a lower level, the floor times `exit_mult`, to leave it, so brief dips
//! don't chop speech.
//!
//! The signal arithmetic itself is not done here. A [`Reading`] holds what it comes to for
//! one frame, and the detector takes it from a `measure` that its caller hands in.

use crate::audio::cs_for_samples;
use crate::binary32::Binary32;
use vstd::prelude::*;

verus! {

/// Speech vs silence.
#[derive(Clone, Copy, Debug, PartialEq, Eq, Structural)]
pub enum SpeechState {
    Speech,
    Silence,
}

/// Tunables for [`Vad`].
#[derive(Clone, Copy, Debug)]
pub struct VadConfig {
    /// Initial noise-floor estimate (RMS).
    pub noise_floor_init: Binary32,
    /// Lower bound on the noise floor, so the threshold never collapses to about 0 in
    /// perfect digital silence (which would let any dither trigger speech).
    pub floor_min: Binary32,
    /// Enter-speech threshold multiplier over the noise floor.
    pub enter_mult: Binary32,
    /// Exit-speech threshold multiplier (lower than `enter_mult`: hysteresis).
    pub exit_mult: Binary32,
    /// How long the level must stay below the exit threshold before it is called silence.
    pub hangover_ms: u32,
    /// Smoothing of the noise-floor estimate (updated only during silence).
    pub ema_alpha: Binary32,
}

/// The bit pattern of 0.003.
pub const NOISE_FLOOR_INIT_BITS: u32 = 0x3b44_9ba6;

/// The bit pattern of 0.0008.
pub const FLOOR_MIN_BITS: u32 = 0x3a51_b717;

/// The bit pattern of 3.5.
pub const ENTER_MULT_BITS: u32 = 0x4060_0000;

/// The bit pattern of 2.0.
pub const EXIT_MULT_BITS: u32 = 0x4000_0000;

/// The bit pattern of 0.05.
pub const EMA_ALPHA_BITS: u32 = 0x3d4c_cccd;

impl Default for VadConfig {
    fn default() -> (cfg: Self)
        ensures
            cfg == (VadConfig {
                noise_floor_init: Binary32 { bits: NOISE_FLOOR_INIT_BITS },
                floor_min: Binary32 { bits: FLOOR_MIN_BITS },
                enter_mult: Binary32 { bits: ENTER_MULT_BITS },
                exit_mult: Binary32 { bits: EXIT_MULT_BITS },
                hangover_ms: 320,
                ema_alpha: Binary32 { bits: EMA_ALPHA_BITS },
            }),
            cfg.noise_floor_init.bits == 0x3b44_9ba6,
            cfg.floor_min.bits == 0x3a51_b717,
            cfg.enter_mult.bits == 0x4060_0000,
            cfg.exit_mult.bits == 0x4000_0000,
            cfg.ema_alpha.bits == 0x3d4c_cccd,
    {
        VadConfig {
            noise_floor_init: Binary32 { bits: NOISE_FLOOR_INIT_BITS },
            floor_min: Binary32 { bits: FLOOR_MIN_BITS },
            enter_mult: Binary32 { bits: ENTER_MULT_BITS },
            exit_mult: Binary32 { bits: EXIT_MULT_BITS },
            hangover_ms: 320,
            ema_alpha: Binary32 { bits: EMA_ALPHA_BITS },
        }
    }
}

/// What one frame measures, against the noise floor at the time.
#[derive(Clone, Copy, Debug)]
pub struct Reading {
    /// The frame's root mean square.
    pub level: Binary32,
    /// The level from which silence becomes speech: the floor times `enter_mult`.
    pub enter: Binary32,
    /// The level below which speech may end: the floor times `exit_mult`.
    pub exit: Binary32,
    /// The floor smoothed towards the level:
    /// `(1 - ema_alpha) * floor + ema_alpha * level`.
    pub blend: Binary32,
}

// ---------------------------------------------------------------------------
// The detector as a state machine
// ---------------------------------------------------------------------------

/// A detector's state.
pub struct VadState {
    pub cfg: VadConfig,
    pub noise_floor: Binary32,
    pub silence_run_ms: u32,
    pub state: SpeechState,
    pub last_rms: Binary32,
}

/// The duration of a frame of `n` samples in milliseconds, and at least one.
pub open spec fn frame_ms(n: int) -> int {
    let ms = crate::audio::cs_of_samples(n) * 10;
    if ms < 1 {
        1
    } else {
        ms
    }
}

/// Can the duration of a frame of `n` samples be told in milliseconds?
pub open spec fn frame_fits(n: int) -> bool {
    crate::audio::countable_samples(n) && crate::audio::cs_of_samples(n) * 10 <= u32::MAX
}

/// `a + b`, held at the largest timestamp.
pub open spec fn saturated(a: int, b: int) -> u32 {
    if a + b > u32::MAX {
        u32::MAX
    } else {
        (a + b) as u32
    }
}

impl VadState {
    /// Where a detector starts: in silence, with the configured floor.
    pub open spec fn start(cfg: VadConfig) -> VadState {
        VadState {
            cfg,
            noise_floor: cfg.noise_floor_init.larger(cfg.floor_min),
            silence_run_ms: 0,
            state: SpeechState::Silence,
            last_rms: Binary32 { bits: 0 },
        }
    }

    /// The state after a frame of `n` samples with the given reading.
    pub open spec fn hear(self, n: int, reading: Reading) -> VadState {
        let longer = saturated(self.silence_run_ms as int, frame_ms(n));
        match self.state {
            SpeechState::Silence => if reading.enter.le(reading.level) {
                VadState {
                    state: SpeechState::Speech,
                    silence_run_ms: 0,
                    last_rms: reading.level,
                    ..self
                }
            } else {
                VadState {
                    noise_floor: reading.blend.larger(self.cfg.floor_min),
                    silence_run_ms: longer,
                    last_rms: reading.level,
                    ..self
                }
            },
            SpeechState::Speech => if reading.level.lt(reading.exit) {
                VadState {
                    silence_run_ms: longer,
                    state: if longer >= self.cfg.hangover_ms {
                        SpeechState::Silence
                    } else {
                        SpeechState::Speech
                    },
                    last_rms: reading.level,
                    ..self
                }
            } else {
                VadState { silence_run_ms: 0, last_rms: reading.level, ..self }
            },
        }
    }

    /// The state after several frames of `n` samples each.
    pub open spec fn hear_all(self, n: int, readings: Seq<Reading>) -> VadState
        decreases readings.len(),
    {
        if readings.len() == 0 {
            self
        } else {
            self.hear_all(n, readings.drop_last()).hear(n, readings.last())
        }
    }

    /// Is speech heard in one of several frames of `n` samples each?
    pub open spec fn hears_speech(self, n: int, readings: Seq<Reading>) -> bool
        decreases readings.len(),
    {
        readings.len() > 0 && (self.hears_speech(n, readings.drop_last()) || self.hear_all(
            n,
            readings,
        ).state == SpeechState::Speech)
    }

    /// The state after a reset.
    pub open spec fn reset(self) -> VadState {
        VadState { silence_run_ms: 0, state: SpeechState::Silence, ..self }
    }
}

/// Is `reading` an outcome of `measure` on a frame with these samples, against this floor?
pub open spec fn measured<S, F: Fn(&[S], &VadConfig, Binary32) -> Reading>(
    measure: F,
    frame: Seq<S>,
    cfg: VadConfig,
    floor: Binary32,
    reading: Reading,
) -> bool {
    exists|samples: &[S]|
        samples@ == frame && #[trigger] measure.ensures((samples, &cfg, floor), reading)
}

/// Can every frame be measured?
pub open spec fn measures_all<S, F: Fn(&[S], &VadConfig, Binary32) -> Reading>(
    measure: F,
) -> bool {
    forall|samples: &[S], cfg: &VadConfig, floor: Binary32| #[trigger]
        measure.requires((samples, cfg, floor))
}

// ---------------------------------------------------------------------------
// The detector
// ---------------------------------------------------------------------------

/// Stateful energy detector. Feed it consecutive frames of 16 kHz mono audio.
#[derive(Clone, Copy, Debug)]
pub struct Vad {
    cfg: VadConfig,
    noise_floor: Binary32,
    silence_run_ms: u32,
    state: SpeechState,
    last_rms: Binary32,
}

impl View for Vad {
    type V = VadState;

    closed spec fn view(&self) -> VadState {
        VadState {
            cfg: self.cfg,
            noise_floor: self.noise_floor,
            silence_run_ms: self.silence_run_ms,
            state: self.state,
            last_rms: self.last_rms,
        }
    }
}

impl Vad {
    pub fn new(cfg: VadConfig) -> (vad: Self)
        ensures
            vad@ == VadState::start(cfg),
    {
        Vad {
            cfg,
            noise_floor: cfg.noise_floor_init.max_of(cfg.floor_min),
            silence_run_ms: 0,
            state: SpeechState::Silence,
            last_rms: Binary32 { bits: 0 },
        }
    }

    /// Level of the most recently observed frame (for a UI meter).
    pub fn last_rms(&self) -> (level: Binary32)
        ensures
            level == self@.last_rms,
    {
        self.last_rms
    }

    /// The current noise-floor estimate.
    pub fn noise_floor(&self) -> (floor: Binary32)
        ensures
            floor == self@.noise_floor,
    {
        self.noise_floor
    }

    /// The tunables.
    pub fn config(&self) -> (cfg: VadConfig)
        ensures
            cfg == self@.cfg,
    {
        self.cfg
    }

    /// Observe one frame of 16 kHz mono audio, measured by `measure`; returns the updated
    /// state.
    pub fn observe<S, F: Fn(&[S], &VadConfig, Binary32) -> Reading>(
        &mut self,
        frame: &[S],
        measure: &F,
    ) -> (state: SpeechState)
        requires
            frame_fits(frame@.len() as int),
            measure.requires((frame, &old(self)@.cfg, old(self)@.noise_floor)),
        ensures
            state == final(self)@.state,
            exists|reading: Reading|
                measure.ensures((frame, &old(self)@.cfg, old(self)@.noise_floor), reading)
                    && final(self)@ == #[trigger] old(self)@.hear(frame@.len() as int, reading),
    {
        let reading = measure(frame, &self.cfg, self.noise_floor);
        self.hear(frame.len(), reading)
    }

    /// Take in the reading of a frame of `n` samples; returns the updated state.
    pub fn hear(&mut self, n: usize, reading: Reading) -> (state: SpeechState)
        requires
            frame_fits(n as int),
        ensures
            final(self)@ == old(self)@.hear(n as int, reading),
            state == final(self)@.state,
    {
        self.last_rms = reading.level;
        let ms: u32 = cs_for_samples(n) * 10;
        let frame_ms: u32 = if ms < 1 {
            1
        } else {
            ms
        };
        match self.state {
            SpeechState::Silence => {
                if reading.enter.at_most(reading.level) {
                    self.state = SpeechState::Speech;
                    self.silence_run_ms = 0;
                } else {
                    // Track the noise floor only while this is believed to be silence.
                    self.noise_floor = reading.blend.max_of(self.cfg.floor_min);
                    self.silence_run_ms = self.silence_run_ms.saturating_add(frame_ms);
                }
            },
            SpeechState::Speech => {
                if reading.level.below(reading.exit) {
                    self.silence_run_ms = self.silence_run_ms.saturating_add(frame_ms);
                    if self.silence_run_ms >= self.cfg.hangover_ms {
                        self.state = SpeechState::Silence;
                    }
                } else {
                    self.silence_run_ms = 0;
                }
            },
        }
        self.state
    }

    pub fn state(&self) -> (state: SpeechState)
        ensures
            state == self@.state,
    {
        self.state
    }

    /// How long sub-threshold audio has been observed (ms). Used to detect utterance end.
    pub fn silence_run_ms(&self) -> (ms: u32)
        ensures
            ms == self@.silence_run_ms,
    {
        self.silence_run_ms
    }

    pub fn reset(&mut self)
        ensures
            final(self)@ == old(self)@.reset(),
    {
        self.silence_run_ms = 0;
        self.state = SpeechState::Silence;
    }
}

// ---------------------------------------------------------------------------
// Laws
// ---------------------------------------------------------------------------

/// The noise floor never falls below its lower bound, whatever is heard.
pub proof fn law_floor_is_bounded(cfg: VadConfig, n: int, readings: Seq<Reading>)
    requires
        !cfg.floor_min.nan(),
    ensures
        cfg.floor_min.le(VadState::start(cfg).hear_all(n, readings).noise_floor),
        VadState::start(cfg).hear_all(n, readings).cfg == cfg,
    decreases readings.len(),
{
    if readings.len() > 0 {
        law_floor_is_bounded(cfg, n, readings.drop_last());
    }
}

/// The noise floor moves only in silence: a frame that is or becomes speech leaves it.
pub proof fn law_floor_moves_in_silence(vad: VadState, n: int, reading: Reading)
    requires
        vad.state == SpeechState::Speech || vad.hear(n, reading).state == SpeechState::Speech,
    ensures
        vad.hear(n, reading).noise_floor == vad.noise_floor,
{
}

/// A frame that reaches the enter level is speech at once, and clears the silence run.
pub proof fn law_loud_frame_is_speech(vad: VadState, n: int, reading: Reading)
    requires
        vad.state == SpeechState::Silence,
        reading.enter.le(reading.level),
    ensures
        vad.hear(n, reading).state == SpeechState::Speech,
        vad.hear(n, reading).silence_run_ms == 0,
{
}

/// Silence lasts as long as no frame reaches the enter level.
pub proof fn law_quiet_stays_silent(vad: VadState, n: int, readings: Seq<Reading>)
    requires
        vad.state == SpeechState::Silence,
        forall|i: int|
            0 <= i < readings.len() ==> !(#[trigger] readings[i]).enter.le(readings[i].level),
    ensures
        vad.hear_all(n, readings).state == SpeechState::Silence,
        !vad.hears_speech(n, readings),
    decreases readings.len(),
{
    if readings.len() > 0 {
        let front = readings.drop_last();
        assert forall|i: int| 0 <= i < front.len() implies !(#[trigger] front[i]).enter.le(
            front[i].level,
        ) by {
            assert(front[i] == readings[i]);
        }
        law_quiet_stays_silent(vad, n, front);
    }
}

/// Speech that starts without a silence run, met by quiet frames: the run grows by each
/// frame's duration, speech holds while it is shorter than the hangover, and ends exactly
/// when it reaches it.
pub proof fn law_hangover(vad: VadState, n: int, readings: Seq<Reading>)
    requires
        vad.state == SpeechState::Speech,
        vad.silence_run_ms == 0,
        vad.cfg.hangover_ms > 0,
        frame_fits(n),
        frame_ms(n) * (readings.len() - 1) < vad.cfg.hangover_ms,
        frame_ms(n) * readings.len() <= u32::MAX,
        forall|i: int|
            0 <= i < readings.len() ==> (#[trigger] readings[i]).level.lt(readings[i].exit),
    ensures
        vad.hear_all(n, readings).silence_run_ms == frame_ms(n) * readings.len(),
        vad.hear_all(n, readings).state == SpeechState::Silence <==> frame_ms(n) * readings.len()
            >= vad.cfg.hangover_ms,
        vad.hear_all(n, readings).cfg == vad.cfg,
    decreases readings.len(),
{
    let ms = frame_ms(n);
    let k = readings.len() as int;
    if k > 0 {
        let front = readings.drop_last();
        assert forall|i: int| 0 <= i < front.len() implies (#[trigger] front[i]).level.lt(
            front[i].exit,
        ) by {
            assert(front[i] == readings[i]);
        }
        assert(ms * (k - 1 - 1) <= ms * (k - 1) <= ms * k && ms * k == ms * (k - 1) + ms)
            by (nonlinear_arith)
            requires
                ms >= 1,
        ;
        law_hangover(vad, n, front);
    } else {
        assert(ms * k == 0) by (nonlinear_arith)
            requires
                k == 0,
        ;
    }
}

/// A dip shorter than the hangover does not chop speech, and any louder frame after it
/// clears the silence run.
pub proof fn law_brief_dip_keeps_speech(vad: VadState, n: int, dip: Reading, loud: Reading)
    requires
        vad.state == SpeechState::Speech,
        vad.silence_run_ms + frame_ms(n) < vad.cfg.hangover_ms,
        !loud.level.lt(loud.exit),
    ensures
        vad.hear(n, dip).state == SpeechState::Speech,
        vad.hear(n, dip).hear(n, loud).state == SpeechState::Speech,
        vad.hear(n, dip).hear(n, loud).silence_run_ms == 0,
{
}

/// A frame in silence that does not reach the enter level lengthens the silence by its duration
/// and moves the noise floor to the blend, held at the lower bound.
pub proof fn law_silence_tracks_the_floor(vad: VadState, n: int, reading: Reading)
    requires
        vad.state == SpeechState::Silence,
        !reading.enter.le(reading.level),
        0 <= n,
        n * 100 / 16_000 * 10 <= u32::MAX,
    ensures
        ({
            let after = vad.hear(n, reading);
            let ms = if n * 100 / 16_000 == 0 {
                1
            } else {
                n * 100 / 16_000 * 10
            };
            &&& after.state == SpeechState::Silence
            &&& after.silence_run_ms == if vad.silence_run_ms + ms > u32::MAX {
                u32::MAX as int
            } else {
                vad.silence_run_ms + ms
            }
            &&& after.noise_floor == reading.blend || after.noise_floor == vad.cfg.floor_min
            &&& !reading.blend.nan() && !reading.blend.lt(vad.cfg.floor_min)
                ==> after.noise_floor == reading.blend
            &&& reading.blend.lt(vad.cfg.floor_min) || reading.blend.nan() ==> after.noise_floor
                == vad.cfg.floor_min
        }),
{
}

/// In speech, a frame that does not fall below the exit level keeps it and clears the silence;
/// one that does lengthens the silence by its duration, and ends speech once the silence lasts
/// the hangover or longer.
pub proof fn law_speech_ends_after_the_hangover(vad: VadState, n: int, reading: Reading)
    requires
        vad.state == SpeechState::Speech,
        0 <= n,
        n * 100 / 16_000 * 10 <= u32::MAX,
    ensures
        ({
            let after = vad.hear(n, reading);
            let ms = if n * 100 / 16_000 == 0 {
                1
            } else {
                n * 100 / 16_000 * 10
            };
            let run = if vad.silence_run_ms + ms > u32::MAX {
                u32::MAX as int
            } else {
                vad.silence_run_ms + ms
            };
            &&& !reading.level.lt(reading.exit) ==> after.state == SpeechState::Speech
                && after.silence_run_ms == 0
            &&& reading.level.lt(reading.exit) ==> after.silence_run_ms == run
            &&& reading.level.lt(reading.exit) ==> (after.state == SpeechState::Silence <==> run
                >= vad.cfg.hangover_ms)
            &&& after.noise_floor == vad.noise_floor
        }),
{
}

/// Every frame's level is the one shown, and the configuration stays; a reset is silence from
/// now on, and keeps the noise floor.
pub proof fn law_level_is_the_latest(vad: VadState, n: int, reading: Reading)
    ensures
        vad.hear(n, reading).last_rms == reading.level,
        vad.hear(n, reading).cfg == vad.cfg,
        vad.reset().state == SpeechState::Silence,
        vad.reset().silence_run_ms == 0,
        vad.reset().noise_floor == vad.noise_floor,
        vad.reset().last_rms == vad.last_rms,
        vad.reset().cfg == vad.cfg,
{
}

/// A detector starts in silence, at the larger of the two configured floors.
pub proof fn law_detector_starts_silent(cfg: VadConfig)
    requires
        !cfg.noise_floor_init.nan(),
        !cfg.floor_min.nan(),
    ensures
        ({
            let start = VadState::start(cfg);
            &&& start.state == SpeechState::Silence
            &&& start.silence_run_ms == 0
            &&& start.last_rms == (Binary32 { bits: 0 })
            &&& start.cfg == cfg
            &&& cfg.noise_floor_init.lt(cfg.floor_min) ==> start.noise_floor == cfg.floor_min
            &&& !cfg.noise_floor_init.lt(cfg.floor_min) ==> start.noise_floor
                == cfg.noise_floor_init
        }),
{
}

/// Speech is heard in a run of frames exactly when the detector is in speech after one of them,
/// and frames are heard one by one, in order.
pub proof fn law_speech_is_heard_in_a_frame(vad: VadState, n: int, readings: Seq<Reading>)
    ensures
        vad.hears_speech(n, readings) <==> exists|k: int|
            0 < k <= readings.len() && (#[trigger] vad.hear_all(n, readings.take(k))).state
                == SpeechState::Speech,
        readings.len() > 0 ==> vad.hear_all(n, readings) == vad.hear(n, readings[0]).hear_all(
            n,
            readings.drop_first(),
        ),
        readings.len() == 0 ==> vad.hear_all(n, readings) == vad,
    decreases readings.len(),
{
    if readings.len() > 0 {
        let front = readings.drop_last();
        law_speech_is_heard_in_a_frame(vad, n, front);
        assert(readings.take(readings.len() as int) =~= readings);
        assert forall|k: int| 0 < k <= front.len() implies readings.take(k) == #[trigger] front.take(
            k,
        ) by {
            assert(readings.take(k) =~= front.take(k));
        }
        if exists|k: int|
            0 < k <= front.len() && (#[trigger] vad.hear_all(n, front.take(k))).state
                == SpeechState::Speech {
            let k = choose|k: int|
                0 < k <= front.len() && (#[trigger] vad.hear_all(n, front.take(k))).state
                    == SpeechState::Speech;
            assert(vad.hear_all(n, readings.take(k)).state == SpeechState::Speech);
        }
        if exists|k: int|
            0 < k <= readings.len() && (#[trigger] vad.hear_all(n, readings.take(k))).state
                == SpeechState::Speech {
            let k = choose|k: int|
                0 < k <= readings.len() && (#[trigger] vad.hear_all(n, readings.take(k))).state
                    == SpeechState::Speech;
            if k <= front.len() {
                assert(vad.hear_all(n, front.take(k)).state == SpeechState::Speech);
            }
        }
        let rest = readings.drop_first();
        if front.len() > 0 {
            assert(rest.drop_last() =~= front.drop_first());
            assert(rest.last() == readings.last());
        } else {
            assert(rest =~= Seq::<Reading>::empty());
            assert(front =~= Seq::<Reading>::empty());
        }
    }
}

/// A frame is too long only if its milliseconds do not fit a timestamp.
pub proof fn law_only_long_frames_are_refused(n: int)
    requires
        0 <= n,
        n / 160 <= u32::MAX,
    ensures
        frame_fits(n) <==> 10 * (n / 160) <= u32::MAX,
        10 * (n / 160) <= u32::MAX ==> frame_ms(n) == if n < 160 {
            1
        } else {
            10 * (n / 160)
        },
{
    crate::audio::law_rate(0, 0, n);
}

} // verus!
