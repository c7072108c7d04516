//! Sample-rate arithmetic for the canonical internal format, 16 kHz mono.

use vstd::prelude::*;

verus! {

/// The sample rate that the transcriber consumes and that the library reasons in.
pub const TARGET_RATE: u32 = 16_000;

/// 30 ms of 16 kHz audio: the frame that voice activity is judged by.
pub const VAD_FRAME: usize = 480;

/// How many samples make `ms` milliseconds, as a machine size.
pub open spec fn samples_of_ms(ms: u32) -> usize {
    (TARGET_RATE * ms / 1000) as usize
}

/// How many samples make `cs` centiseconds, as a machine size.
pub open spec fn samples_of_cs(cs: u32) -> usize {
    (TARGET_RATE * cs / 100) as usize
}

/// The centiseconds that `n` samples last, rounded down, in the width of a timestamp.
pub open spec fn cs_of_samples(n: int) -> u32 {
    (n * 100 / TARGET_RATE as int) as u32
}

/// The largest number of samples whose duration can be worked out.
pub open spec fn countable_samples(n: int) -> bool {
    0 <= n && n * 100 <= u64::MAX
}

/// Number of 16 kHz samples in `ms` milliseconds.
pub fn samples_for_ms(ms: u32) -> (n: usize)
    ensures
        n == samples_of_ms(ms),
        TARGET_RATE * ms / 1000 <= usize::MAX ==> n == TARGET_RATE * ms / 1000,
{
    (TARGET_RATE as u64 * ms as u64 / 1000) as usize
}

/// Number of 16 kHz samples in `cs` centiseconds (hundredths of a second).
pub fn samples_for_cs(cs: u32) -> (n: usize)
    ensures
        n == samples_of_cs(cs),
        TARGET_RATE * cs / 100 <= usize::MAX ==> n == TARGET_RATE * cs / 100,
{
    (TARGET_RATE as u64 * cs as u64 / 100) as usize
}

/// Centiseconds represented by `n` samples at 16 kHz (rounds down).
pub fn cs_for_samples(n: usize) -> (cs: u32)
    requires
        countable_samples(n as int),
    ensures
        cs == cs_of_samples(n as int),
        n * 100 / TARGET_RATE as int <= u32::MAX ==> cs == n * 100 / TARGET_RATE as int,
{
    (n as u64 * 100 / TARGET_RATE as u64) as u32
}

/// Append `more` to `samples`.
pub fn extend_samples<S: Copy>(samples: &mut Vec<S>, more: &[S])
    ensures
        final(samples)@ == old(samples)@ + more@,
{
    let ghost before = samples@;
    let mut i: usize = 0;
    while i < more.len()
        invariant
            i <= more@.len(),
            samples@ == before + more@.take(i as int),
        decreases more.len() - i,
    {
        samples.push(more[i]);
        i += 1;
        assert(more@.take(i as int) == more@.take(i - 1).push(more@[i - 1]));
    }
    assert(more@.take(i as int) == more@);
}

/// A copy of `samples`.
pub fn copy_samples<S: Copy>(samples: &[S]) -> (copy: Vec<S>)
    ensures
        copy@ == samples@,
{
    let mut copy: Vec<S> = Vec::new();
    extend_samples(&mut copy, samples);
    copy
}

/// Drop the first `n` of `samples`.
pub fn drop_front<S>(samples: &mut Vec<S>, n: usize)
    requires
        n <= old(samples)@.len(),
    ensures
        final(samples)@ == old(samples)@.skip(n as int),
{
    let rest = samples.split_off(n);
    *samples = rest;
}

/// Is `sample` an outcome of `average` on these samples?
pub open spec fn averaged<S, F: Fn(&[S]) -> S>(average: F, frame: Seq<S>, sample: S) -> bool {
    exists|samples: &[S]| samples@ == frame && #[trigger] average.ensures((samples,), sample)
}

/// Down-mix interleaved multi-channel audio to mono, each frame by `average`. A single channel
/// is returned as it is; a partial frame at the end is ignored.
pub fn downmix_to_mono<S: Copy, F: Fn(&[S]) -> S>(
    interleaved: &[S],
    channels: usize,
    average: &F,
) -> (mono: Vec<S>)
    requires
        channels >= 1,
        forall|frame: &[S]| #[trigger] average.requires((frame,)),
    ensures
        channels == 1 ==> mono@ == interleaved@,
        mono@.len() == interleaved@.len() as int / channels as int,
        channels > 1 ==> forall|i: int|
            0 <= i < mono@.len() ==> averaged(
                *average,
                interleaved@.subrange(i * channels, i * channels + channels),
                #[trigger] mono@[i],
            ),
{
    if channels == 1 {
        return copy_samples(interleaved);
    }
    let n: usize = interleaved.len() / channels;
    let mut mono: Vec<S> = Vec::new();
    let mut i: usize = 0;
    while i < n
        invariant
            channels > 1,
            n == interleaved.len() as int / channels as int,
            i <= n,
            mono@.len() == i,
            forall|frame: &[S]| #[trigger] average.requires((frame,)),
            forall|k: int|
                0 <= k < i ==> averaged(
                    *average,
                    interleaved@.subrange(k * channels, k * channels + channels),
                    #[trigger] mono@[k],
                ),
        decreases n - i,
    {
        proof {
            lemma_frame_inside(i as int, channels as int, interleaved@.len() as int);
        }
        let at: usize = i * channels;
        let frame = vstd::slice::slice_subrange(interleaved, at, at + channels);
        let sample = average(frame);
        assert(averaged(
            *average,
            interleaved@.subrange(i * channels, i * channels + channels),
            sample,
        ));
        mono.push(sample);
        i += 1;
    }
    mono
}

proof fn lemma_frame_inside(i: int, channels: int, len: int)
    requires
        channels >= 1,
        0 <= i < len / channels,
        0 <= len,
    ensures
        0 <= i * channels,
        i * channels + channels <= len,
{
    assert(0 <= i * channels && i * channels + channels <= len) by (nonlinear_arith)
        requires
            channels >= 1,
            0 <= i < len / channels,
            0 <= len,
    ;
}

/// The sample at `i`, or `zero` past the end.
pub open spec fn padded<S>(samples: Seq<S>, i: int, zero: S) -> S {
    if 0 <= i < samples.len() {
        samples[i]
    } else {
        zero
    }
}

/// Combine two sample-aligned mono streams by `sum`; the shorter one is padded with `zero`.
pub fn mix<S: Copy, F: Fn(S, S) -> S>(a: &[S], b: &[S], zero: S, sum: &F) -> (mixed: Vec<S>)
    requires
        forall|x: S, y: S| #[trigger] sum.requires((x, y)),
    ensures
        mixed@.len() == if a@.len() < b@.len() {
            b@.len()
        } else {
            a@.len()
        },
        forall|i: int|
            0 <= i < mixed@.len() ==> sum.ensures(
                (padded(a@, i, zero), padded(b@, i, zero)),
                #[trigger] mixed@[i],
            ),
{
    let n: usize = if a.len() < b.len() {
        b.len()
    } else {
        a.len()
    };
    let mut mixed: Vec<S> = Vec::new();
    let mut i: usize = 0;
    while i < n
        invariant
            i <= n,
            mixed@.len() == i,
            forall|x: S, y: S| #[trigger] sum.requires((x, y)),
            forall|k: int|
                0 <= k < i ==> sum.ensures(
                    (padded(a@, k, zero), padded(b@, k, zero)),
                    #[trigger] mixed@[k],
                ),
        decreases n - i,
    {
        let x = if i < a.len() {
            a[i]
        } else {
            zero
        };
        let y = if i < b.len() {
            b[i]
        } else {
            zero
        };
        mixed.push(sum(x, y));
        i += 1;
    }
    mixed
}

/// A duration in centiseconds survives the way through its samples, wherever the samples
/// can be counted in a machine size.
pub proof fn law_cs_round_trip(cs: u32)
    requires
        TARGET_RATE * cs / 100 <= usize::MAX,
    ensures
        cs_of_samples(samples_of_cs(cs) as int) == cs,
{
    assert(TARGET_RATE * cs / 100 == 160 * cs);
    assert(samples_of_cs(cs) == 160 * cs);
    assert((160 * cs) * 100 == TARGET_RATE * cs);
    assert(TARGET_RATE * cs / TARGET_RATE as int == cs);
}

/// Durations grow with the number of samples, as far as a timestamp can tell them.
pub proof fn law_cs_monotone(m: int, n: int)
    requires
        0 <= m <= n,
        n * 100 / TARGET_RATE as int <= u32::MAX,
    ensures
        cs_of_samples(m) <= cs_of_samples(n),
{
}

/// Audio has 16 samples to the millisecond and 160 to the centisecond.
pub proof fn law_rate(ms: u32, cs: u32, n: int)
    requires
        0 <= n,
    ensures
        16 * ms <= usize::MAX ==> samples_of_ms(ms) == 16 * ms,
        160 * cs <= usize::MAX ==> samples_of_cs(cs) == 160 * cs,
        n / 160 <= u32::MAX ==> cs_of_samples(n) == n / 160,
        countable_samples(n) <==> 100 * n <= 0xffff_ffff_ffff_ffff,
{
    assert(n * 100 / 16_000 == n / 160);
}

/// What a stream is padded with comes behind it only.
pub proof fn law_padding_is_behind<S>(samples: Seq<S>, i: int, zero: S)
    requires
        0 <= i,
    ensures
        i < samples.len() ==> padded(samples, i, zero) == samples[i],
        i >= samples.len() ==> padded(samples, i, zero) == zero,
{
}

} // verus!
