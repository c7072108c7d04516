//! A source that replays a clip as if it were the microphone, for running the conversation
//! without a human speaking. Trailing silence makes the utterance end, and the clip is handed
//! out in chunks of about 100 ms per poll.

use crate::audio::copy_samples;
use crate::audio::samples_for_ms;
use crate::audio::TARGET_RATE;
use crate::error::CaptureError;
use crate::ports::AudioSource;
use vstd::prelude::*;

verus! {

/// How many samples a poll hands out: 100 ms.
pub const CHUNK: usize = 1_600;

/// A clip to replay, already at 16 kHz mono.
#[derive(Debug)]
pub struct FileAudioSource<S> {
    samples: Vec<S>,
    pos: usize,
    label: String,
}

/// A replay's state.
#[verifier::ext_equal]
pub struct ReplayState<S> {
    /// The clip with its trailing silence.
    pub samples: Seq<S>,
    /// How much of it has been handed out.
    pub pos: int,
    pub label: Seq<char>,
}

impl<S> View for FileAudioSource<S> {
    type V = ReplayState<S>;

    closed spec fn view(&self) -> ReplayState<S> {
        ReplayState { samples: self.samples@, pos: self.pos as int, label: self.label@ }
    }
}

impl<S> ReplayState<S> {
    /// Has no more been handed out than there is?
    pub open spec fn valid(self) -> bool {
        0 <= self.pos <= self.samples.len()
    }

    /// Where the next poll ends.
    pub open spec fn next_pos(self) -> int {
        if self.samples.len() - self.pos < CHUNK {
            self.samples.len() as int
        } else {
            self.pos + CHUNK
        }
    }

    /// What the next poll hands out.
    pub open spec fn next_chunk(self) -> Seq<S> {
        self.samples.subrange(self.pos, self.next_pos())
    }

    /// The state after a poll.
    pub open spec fn polled(self) -> ReplayState<S> {
        ReplayState { pos: self.next_pos(), ..self }
    }

    /// What is still to be handed out.
    pub open spec fn rest(self) -> Seq<S> {
        self.samples.skip(self.pos)
    }
}

/// The replay of `samples` from `path`, with silence behind them.
pub open spec fn replay_of<S>(
    samples: Seq<S>,
    silence: S,
    trailing_silence_ms: u32,
    path: Seq<char>,
) -> ReplayState<S> {
    ReplayState {
        samples: samples + Seq::new(
            crate::audio::samples_of_ms(trailing_silence_ms) as nat,
            |i: int| silence,
        ),
        pos: 0,
        label: "File: "@ + path,
    }
}

/// A clip as it was recorded: interleaved samples, the number of channels, and the rate.
#[derive(Debug)]
pub struct Clip<S> {
    pub samples: Vec<S>,
    pub channels: u16,
    pub rate: u32,
}

/// The frame `k` of interleaved samples; the last one may be cut short.
pub open spec fn clip_frame<S>(samples: Seq<S>, channels: int, k: int) -> Seq<S> {
    let end = (k + 1) * channels;
    samples.subrange(
        k * channels,
        if end < samples.len() {
            end
        } else {
            samples.len() as int
        },
    )
}

/// Is `mono` the clip with each frame mixed by `average`? A clip of one channel, or none, is
/// mono already.
pub open spec fn mixed_down<S, F: Fn(&[S]) -> S>(clip: Clip<S>, average: F, mono: Seq<S>) -> bool {
    let channels = clip.channels as int;
    if channels <= 1 {
        mono == clip.samples@
    } else {
        &&& mono.len() == (clip.samples@.len() + channels - 1) / channels
        &&& forall|k: int|
            0 <= k < mono.len() ==> crate::audio::averaged(
                average,
                clip_frame(clip.samples@, channels, k),
                #[trigger] mono[k],
            )
    }
}

/// Is `samples` what `mono` is at the canonical rate?
pub open spec fn converted<S, G: Fn(&[S], u32) -> Vec<S>>(
    rate: u32,
    mono: Seq<S>,
    resample: G,
    samples: Seq<S>,
) -> bool {
    if rate == TARGET_RATE {
        samples == mono
    } else {
        exists|input: &[S], output: Vec<S>|
            input@ == mono && output@ == samples && #[trigger] resample.ensures(
                (input, rate),
                output,
            )
    }
}

fn mix_down<S: Copy, F: Fn(&[S]) -> S>(clip: &Clip<S>, average: &F) -> (mono: Vec<S>)
    requires
        forall|frame: &[S]| #[trigger] average.requires((frame,)),
    ensures
        mixed_down(*clip, *average, mono@),
{
    if clip.channels <= 1 {
        return copy_samples(clip.samples.as_slice());
    }
    let channels: usize = clip.channels as usize;
    let ghost width = channels as int;
    let n: usize = clip.samples.len();
    let mut mono: Vec<S> = Vec::new();
    let mut start: usize = 0;
    assert(n == 0 ==> (n + width - 1) / width == 0) by {
        if n == 0 {
            lemma_count(0, 0, n as int, width);
        }
    }
    while start < n
        invariant
            n == clip.samples@.len(),
            channels == clip.channels,
            width == channels,
            width > 1,
            start <= n,
            start < n ==> start == mono@.len() * width,
            start == n ==> mono@.len() == (n + width - 1) / width,
            forall|frame: &[S]| #[trigger] average.requires((frame,)),
            forall|k: int|
                0 <= k < mono@.len() ==> crate::audio::averaged(
                    *average,
                    clip_frame(clip.samples@, width, k),
                    #[trigger] mono@[k],
                ),
        decreases n - start,
    {
        let end: usize = if channels < n - start {
            start + channels
        } else {
            n
        };
        let frame = vstd::slice::slice_subrange(clip.samples.as_slice(), start, end);
        let sample = average(frame);
        proof {
            lemma_count(mono@.len() as int, start as int, n as int, width);
            assert(frame@ =~= clip_frame(clip.samples@, width, mono@.len() as int));
            assert(crate::audio::averaged(*average, frame@, sample));
        }
        mono.push(sample);
        start = end;
    }
    mono
}

/// Where frame `k` ends, and how many frames there are if it is the last.
proof fn lemma_count(k: int, start: int, n: int, width: int)
    requires
        width > 1,
        k >= 0,
        start == k * width,
        0 <= start <= n,
    ensures
        (k + 1) * width == start + width,
        start < n && start + width >= n ==> (n + width - 1) / width == k + 1,
        n == 0 ==> (n + width - 1) / width == 0,
{
    assert((k + 1) * width == start + width) by (nonlinear_arith)
        requires
            start == k * width,
    ;
    if start < n && start + width >= n {
        assert((n + width - 1) / width == k + 1) by (nonlinear_arith)
            requires
                width > 1,
                (k + 1) * width == start + width,
                start < n <= start + width,
        ;
    }
    if n == 0 {
        assert((n + width - 1) / width == 0) by (nonlinear_arith)
            requires
                width > 1,
                n == 0,
        ;
    }
}

/// The largest amplitude of integer samples of this many bits: the divisor that brings them
/// to the range from -1 to 1. At 64 bits it is the sign bit alone, which is negative.
pub fn full_scale(bits: u16) -> (n: i64)
    requires
        1 <= bits <= 64,
    ensures
        bits < 64 ==> n == vstd::arithmetic::power2::pow2((bits - 1) as nat),
        bits == 64 ==> n == i64::MIN,
{
    if bits == 64 {
        return i64::MIN;
    }
    let mut n: i64 = 1;
    let mut k: u16 = 1;
    proof {
        vstd::arithmetic::power2::lemma2_to64();
    }
    while k < bits
        invariant
            1 <= k <= bits <= 63,
            n == vstd::arithmetic::power2::pow2((k - 1) as nat),
        decreases bits - k,
    {
        proof {
            vstd::arithmetic::power2::lemma_pow2_unfold(k as nat);
            vstd::arithmetic::power2::lemma2_to64_rest();
            if k < 62 {
                vstd::arithmetic::power2::lemma_pow2_strictly_increases(k as nat, 62);
            }
        }
        n = n * 2;
        k += 1;
    }
    n
}

impl<S: Copy + Send> FileAudioSource<S> {
    /// The clip `samples` from `path`, with `trailing_silence_ms` of silence behind it, ready
    /// to replay.
    pub fn from_samples(
        samples: Vec<S>,
        silence: S,
        trailing_silence_ms: u32,
        path: &str,
    ) -> (source: Self)
        requires
            samples@.len() + crate::audio::samples_of_ms(trailing_silence_ms) <= usize::MAX,
        ensures
            source@ == replay_of(samples@, silence, trailing_silence_ms, path@),
            source@.valid(),
    {
        let n: usize = samples_for_ms(trailing_silence_ms);
        let ghost clip = samples@;
        let ghost quiet = Seq::new(n as nat, |i: int| silence);
        let mut all = samples;
        let mut i: usize = 0;
        assert(all@ =~= clip + quiet.take(0));
        while i < n
            invariant
                i <= n,
                quiet == Seq::new(n as nat, |i: int| silence),
                all@ == clip + quiet.take(i as int),
            decreases n - i,
        {
            all.push(silence);
            i += 1;
            assert(all@ =~= clip + quiet.take(i as int));
        }
        assert(quiet.take(n as int) =~= quiet);
        let mut label = String::new();
        label.append("File: ");
        label.append(path);
        assert(label@ =~= "File: "@ + path@);
        FileAudioSource { samples: all, pos: 0, label }
    }

    /// The clip as it was recorded, brought to 16 kHz mono, with `trailing_silence_ms` of
    /// silence behind it. Frames of several channels are mixed by `average`, and another rate
    /// is converted by `resample`.
    pub fn from_clip<F: Fn(&[S]) -> S, G: Fn(&[S], u32) -> Vec<S>>(
        clip: Clip<S>,
        silence: S,
        trailing_silence_ms: u32,
        path: &str,
        average: &F,
        resample: &G,
    ) -> (source: Result<Self, CaptureError>)
        requires
            forall|frame: &[S]| #[trigger] average.requires((frame,)),
            forall|mono: &[S], rate: u32| #[trigger] resample.requires((mono, rate)),
        ensures
            exists|mono: Seq<S>, samples: Seq<S>|
                #![trigger mixed_down(clip, *average, mono), converted(clip.rate, mono, *resample, samples)]
                mixed_down(clip, *average, mono) && converted(clip.rate, mono, *resample, samples)
                    && match source {
                    Ok(source) => source@ == replay_of(
                        samples,
                        silence,
                        trailing_silence_ms,
                        path@,
                    ) && source@.valid() && samples.len() + crate::audio::samples_of_ms(
                        trailing_silence_ms,
                    ) <= usize::MAX,
                    Err(error) => samples.len() + crate::audio::samples_of_ms(trailing_silence_ms)
                        > usize::MAX && (error matches CaptureError::Backend(why) && why@
                        == "clip too long"@),
                },
    {
        let mono = mix_down(&clip, average);
        let ghost mixed = mono@;
        let rate: u32 = clip.rate;
        let samples = if rate == TARGET_RATE {
            mono
        } else {
            resample(mono.as_slice(), rate)
        };
        assert(converted(rate, mixed, *resample, samples@));
        let n: usize = samples_for_ms(trailing_silence_ms);
        if samples.len().checked_add(n).is_none() {
            return Err(CaptureError::Backend("clip too long".to_string()));
        }
        Ok(FileAudioSource::from_samples(samples, silence, trailing_silence_ms, path))
    }

    /// True once the whole clip (with trailing silence) has been handed out.
    pub fn exhausted(&self) -> (answer: bool)
        ensures
            answer == (self@.pos >= self@.samples.len()),
    {
        self.pos >= self.samples.len()
    }

    /// The next chunk of the clip; empty once there is none.
    pub fn next(&mut self) -> (chunk: Vec<S>)
        requires
            old(self)@.valid(),
        ensures
            chunk@ == old(self)@.next_chunk(),
            final(self)@ == old(self)@.polled(),
            final(self)@.valid(),
    {
        let end: usize = if self.samples.len() - self.pos < CHUNK {
            self.samples.len()
        } else {
            self.pos + CHUNK
        };
        let chunk = copy_samples(vstd::slice::slice_subrange(self.samples.as_slice(), self.pos, end));
        self.pos = end;
        chunk
    }
}

impl<S: Copy + Send> AudioSource<S> for FileAudioSource<S> {
    fn start(&mut self) -> (result: Result<(), CaptureError>)
        ensures
            result == Ok::<(), CaptureError>(()),
            final(self)@ == old(self)@,
    {
        Ok(())
    }

    fn poll(&mut self) -> (result: Result<Vec<S>, CaptureError>)
        ensures
            result matches Ok(chunk) && (old(self)@.valid() ==> chunk@ == old(self)@.next_chunk()
                && final(self)@ == old(self)@.polled()),
    {
        if self.pos > self.samples.len() {
            return Ok(Vec::new());
        }
        Ok(self.next())
    }

    fn stop(&mut self)
        ensures
            final(self)@ == old(self)@,
    {
    }

    fn label(&self) -> (label: &str)
        ensures
            label@ == self@.label,
    {
        self.label.as_str()
    }
}

/// Nothing of the clip is lost or repeated: what a poll hands out, followed by what is left,
/// is what was left before; and each poll of a clip that is not exhausted makes progress.
pub proof fn law_replay_is_the_clip<S>(state: ReplayState<S>)
    requires
        state.valid(),
    ensures
        state.next_chunk() + state.polled().rest() == state.rest(),
        state.next_chunk().len() <= CHUNK,
        state.pos < state.samples.len() ==> state.next_chunk().len() > 0,
        state.pos == state.samples.len() ==> state.next_chunk().len() == 0,
{
    assert(state.next_chunk() + state.polled().rest() =~= state.rest());
}

/// A poll hands out 1600 samples, or what is left if that is less, and moves on by just those.
pub proof fn law_poll_hands_out_a_chunk<S>(state: ReplayState<S>)
    requires
        state.valid(),
    ensures
        ({
            let left = state.samples.len() - state.pos;
            let n = if left < 1_600 {
                left
            } else {
                1_600
            };
            &&& state.next_chunk() == state.samples.subrange(state.pos, state.pos + n)
            &&& state.polled().pos == state.pos + n
            &&& state.polled().samples == state.samples
            &&& state.polled().label == state.label
            &&& state.rest() == state.samples.skip(state.pos)
        }),
{
}

/// A replay is the clip and then silence, for as long as was asked for, from the start.
pub proof fn law_silence_follows_the_clip<S>(
    samples: Seq<S>,
    silence: S,
    trailing_silence_ms: u32,
    path: Seq<char>,
    i: int,
)
    requires
        16 * trailing_silence_ms <= usize::MAX,
        0 <= i < samples.len() + 16 * trailing_silence_ms,
    ensures
        ({
            let replay = replay_of(samples, silence, trailing_silence_ms, path);
            &&& replay.samples.len() == samples.len() + 16 * trailing_silence_ms
            &&& i < samples.len() ==> replay.samples[i] == samples[i]
            &&& i >= samples.len() ==> replay.samples[i] == silence
            &&& replay.pos == 0
            &&& replay.label == "File: "@ + path
        }),
{
    crate::audio::law_rate(trailing_silence_ms, 0, 0);
}

/// Mixing down takes every sample of the clip once: frame `k` is the samples from `k` times the
/// channels on, as many as there are channels, and what is left over makes a last frame.
pub proof fn law_every_frame_is_mixed<S, F: Fn(&[S]) -> S>(
    clip: Clip<S>,
    average: F,
    mono: Seq<S>,
    k: int,
)
    requires
        mixed_down(clip, average, mono),
        0 <= k < mono.len(),
    ensures
        clip.channels <= 1 ==> mono == clip.samples@,
        clip.channels > 1 ==> {
            let n = clip.samples@.len() as int;
            let from = k * clip.channels;
            let to = if from + clip.channels < n {
                from + clip.channels
            } else {
                n
            };
            &&& mono.len() * clip.channels >= n
            &&& (mono.len() - 1) * clip.channels < n
            &&& crate::audio::averaged(average, clip.samples@.subrange(from, to), mono[k])
        },
{
    if clip.channels > 1 {
        let width = clip.channels as int;
        let n = clip.samples@.len() as int;
        let m = mono.len() as int;
        assert(m * width >= n && (m - 1) * width < n) by (nonlinear_arith)
            requires
                width > 1,
                n >= 0,
                m > 0,
                m == (n + width - 1) / width,
        ;
        assert((k + 1) * width == k * width + width) by (nonlinear_arith);
        assert(crate::audio::averaged(average, clip_frame(clip.samples@, width, k), mono[k]));
    }
}

/// A clip at 16 kHz is taken as it is, and any other goes through the converter, with its rate.
pub proof fn law_other_rates_are_converted<S, G: Fn(&[S], u32) -> Vec<S>>(
    rate: u32,
    mono: Seq<S>,
    resample: G,
    samples: Seq<S>,
)
    requires
        converted(rate, mono, resample, samples),
    ensures
        rate == 16_000 ==> samples == mono,
        rate != 16_000 ==> exists|input: &[S], output: Vec<S>|
            input@ == mono && output@ == samples && #[trigger] resample.ensures(
                (input, rate),
                output,
            ),
{
}

} // verus!
