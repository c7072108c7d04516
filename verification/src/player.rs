//! Interruptible playback: the rules of the queue between the synthesizer and the output
//! device.
//!
//! Synthesized speech is offered to a ring on one side and drained by the device's callback on
//! the other. A barge-in stops the one side at once and makes the other discard what is
//! pending on its very next tick: an instant audible cut.
//!
//! Three counts tell how far playback is: the samples offered and accepted, the samples
//! removed from the ring (played or discarded), and the samples actually delivered to the
//! device, which leaves out the silence of an underrun and what was discarded.

use crate::ring::RingReader;
use crate::ring::RingWriter;
use vstd::prelude::*;

verus! {

/// The synthesizer's native rate.
pub const SYNTH_RATE: u32 = 24_000;

// ---------------------------------------------------------------------------
// The device's side
// ---------------------------------------------------------------------------

/// What one device buffer took.
#[derive(Clone, Copy, Debug, PartialEq, Eq, Structural)]
pub struct Filled {
    /// Samples removed from the ring.
    pub consumed: u64,
    /// Samples that the device was given, without silence.
    pub delivered: u64,
}

/// The callback's side of the ring.
#[derive(Debug)]
pub struct PlaybackConsumer {
    ring: RingReader,
    channels: usize,
}

/// How many channels a frame has: at least one.
pub open spec fn frame_width(channels: usize) -> int {
    if channels < 1 {
        1
    } else {
        channels as int
    }
}

/// How many frames of `width` slots `len` slots make, the last one maybe in part.
pub open spec fn frame_count(len: int, width: int) -> int {
    (len + width - 1) / width
}

/// Does `sample` stand for what was taken from the ring: the sample itself, converted for the
/// device, or silence where there was none?
pub open spec fn rendered<T, F: Fn(u32) -> T>(
    taken: Option<u32>,
    silence: T,
    from_sample: F,
    sample: T,
) -> bool {
    match taken {
        Some(value) => from_sample.ensures((value,), sample),
        None => sample == silence,
    }
}

impl PlaybackConsumer {
    /// What came of every attempt to take a sample so far.
    pub closed spec fn taken(&self) -> Seq<Option<u32>> {
        self.ring@
    }

    /// All the samples that the ring ever accepts, in order.
    pub closed spec fn arriving(&self) -> Seq<u32> {
        self.ring.arriving()
    }

    /// Are the samples taken so far the first that the ring accepts?
    pub open spec fn in_order(&self) -> bool {
        crate::ring::values_of(self.taken()).is_prefix_of(self.arriving())
    }

    /// The device's number of channels.
    pub closed spec fn channels(&self) -> usize {
        self.channels
    }

    pub fn new(ring: RingReader, channels: usize) -> (consumer: Self)
        ensures
            consumer.taken() == ring@,
            consumer.arriving() == ring.arriving(),
            consumer.channels() == channels,
    {
        PlaybackConsumer { ring, channels }
    }

    /// Fill one device buffer (interleaved by the number of channels). Allocation-free,
    /// lock-free. With `flush`, everything pending is discarded and the buffer is silent;
    /// otherwise each frame plays the next sample on all its channels, or silence if there is
    /// none.
    pub fn fill<T: Copy, F: Fn(u32) -> T>(
        &mut self,
        out: &mut [T],
        flush: bool,
        silence: T,
        from_sample: &F,
    ) -> (filled: Filled)
        requires
            forall|value: u32| #[trigger] from_sample.requires((value,)),
        ensures
            final(self).channels() == old(self).channels(),
            final(self).arriving() == old(self).arriving(),
            old(self).in_order() ==> final(self).in_order(),
            final(out)@.len() == old(out)@.len(),
            ({
                let width = frame_width(old(self).channels());
                let taken = final(self).taken().skip(old(self).taken().len() as int);
                &&& final(self).taken() == old(self).taken() + taken
                &&& filled.consumed == crate::ring::values_of(taken).len()
                &&& flush ==> {
                    &&& taken.len() == filled.consumed + 1 && taken.last() is None || taken.len()
                        == filled.consumed && filled.consumed == u64::MAX
                    &&& filled.delivered == 0
                    &&& forall|j: int| 0 <= j < final(out)@.len() ==> final(out)@[j] == silence
                }
                &&& !flush ==> {
                    &&& taken.len() == frame_count(final(out)@.len() as int, width)
                    &&& filled.delivered == filled.consumed
                    &&& forall|j: int|
                        0 <= j < final(out)@.len() ==> rendered(
                            taken[j / width],
                            silence,
                            *from_sample,
                            #[trigger] final(out)@[j],
                        )
                    &&& forall|j: int, k: int|
                        0 <= j < k < final(out)@.len() && j / width == k / width
                            ==> #[trigger] final(out)@[j] == #[trigger] final(out)@[k]
                }
            }),
    {
        if flush {
            return self.fill_silent(out, silence);
        }
        self.fill_playing(out, silence, from_sample)
    }

    /// Discard everything pending and fill with silence.
    fn fill_silent<T: Copy>(&mut self, out: &mut [T], silence: T) -> (filled: Filled)
        ensures
            final(self).channels() == old(self).channels(),
            final(self).arriving() == old(self).arriving(),
            old(self).in_order() ==> final(self).in_order(),
            final(out)@.len() == old(out)@.len(),
            ({
                let taken = final(self).taken().skip(old(self).taken().len() as int);
                &&& final(self).taken() == old(self).taken() + taken
                &&& filled.consumed == crate::ring::values_of(taken).len()
                &&& taken.len() == filled.consumed + 1 && taken.last() is None || taken.len()
                    == filled.consumed && filled.consumed == u64::MAX
                &&& filled.delivered == 0
                &&& forall|j: int| 0 <= j < final(out)@.len() ==> final(out)@[j] == silence
            }),
    {
        let drained: u64 = self.ring.discard();
        let n: usize = out.len();
        let mut j: usize = 0;
        while j < n
            invariant
                j <= n,
                n == out@.len(),
                forall|k: int| 0 <= k < j ==> out@[k] == silence,
            decreases n - j,
        {
            out[j] = silence;
            j += 1;
        }
        Filled { consumed: drained, delivered: 0 }
    }

    /// Play the next samples.
    fn fill_playing<T: Copy, F: Fn(u32) -> T>(
        &mut self,
        out: &mut [T],
        silence: T,
        from_sample: &F,
    ) -> (filled: Filled)
        requires
            forall|value: u32| #[trigger] from_sample.requires((value,)),
        ensures
            final(self).channels() == old(self).channels(),
            final(self).arriving() == old(self).arriving(),
            old(self).in_order() ==> final(self).in_order(),
            final(out)@.len() == old(out)@.len(),
            ({
                let width = frame_width(old(self).channels());
                let taken = final(self).taken().skip(old(self).taken().len() as int);
                &&& final(self).taken() == old(self).taken() + taken
                &&& filled.consumed == crate::ring::values_of(taken).len()
                &&& taken.len() == frame_count(final(out)@.len() as int, width)
                &&& filled.delivered == filled.consumed
                &&& forall|j: int|
                    0 <= j < final(out)@.len() ==> rendered(
                        taken[j / width],
                        silence,
                        *from_sample,
                        #[trigger] final(out)@[j],
                    )
                &&& forall|j: int, k: int|
                    0 <= j < k < final(out)@.len() && j / width == k / width
                        ==> #[trigger] final(out)@[j] == #[trigger] final(out)@[k]
            }),
    {
        let ghost begin = self.taken();
        let width: usize = if self.channels < 1 {
            1
        } else {
            self.channels
        };
        let ghost w = width as int;
        let n: usize = out.len();
        let ghost mut taken = Seq::<Option<u32>>::empty();
        let ghost mut played = Seq::<T>::empty();
        let mut consumed: u64 = 0;
        let mut start: usize = 0;
        assert(begin + taken =~= begin);
        assert(n == 0 ==> frame_count(n as int, w) == 0) by {
            if n == 0 {
                lemma_frame_of(w - 1, 0, w);
            }
        }
        while start < n
            invariant
                n == out@.len(),
                width == frame_width(self.channels()),
                self.channels() == old(self).channels(),
                self.arriving() == old(self).arriving(),
                old(self).in_order() ==> self.in_order(),
                width >= 1,
                w == width,
                forall|value: u32| #[trigger] from_sample.requires((value,)),
                self.taken() == begin + taken,
                consumed == crate::ring::values_of(taken).len(),
                consumed <= taken.len(),
                played.len() == taken.len(),
                start <= n,
                start < n ==> start == width * taken.len(),
                start >= n ==> taken.len() == frame_count(n as int, width as int),
                taken.len() <= start,
                forall|k: int|
                    0 <= k < taken.len() ==> rendered(
                        taken[k],
                        silence,
                        *from_sample,
                        #[trigger] played[k],
                    ),
                forall|j: int| 0 <= j < start && j < n ==> #[trigger] plays(out@, played, w, j),
            decreases n - start,
        {
            let value = self.ring.take();
            let sample = match value {
                Some(v) => {
                    consumed += 1;
                    from_sample(v)
                },
                None => silence,  // underrun
            };
            let end: usize = if width < n - start {
                start + width
            } else {
                n
            };
            let ghost k = taken.len() as int;
            let ghost earlier = played;
            proof {
                assert(taken.push(value).drop_last() == taken);
                assert(self.taken() =~= begin + taken.push(value));
                taken = taken.push(value);
                played = played.push(sample);
            }
            assert forall|i: int| 0 <= i < start implies #[trigger] plays(
                out@,
                played,
                w,
                i,
            ) by {
                assert(plays(out@, earlier, w, i));
            }
            let mut j: usize = start;
            while j < end
                invariant
                    n == out@.len(),
                    start <= j <= end <= n,
                    end <= start + width,
                    width >= 1,
                    w == width,
                    start == width * k,
                    k >= 0,
                    k == played.len() - 1,
                    played.last() == sample,
                    forall|i: int| 0 <= i < j ==> #[trigger] plays(out@, played, w, i),
                decreases end - j,
            {
                let ghost before = out@;
                out[j] = sample;
                proof {
                    lemma_frame_of(j as int, k, w);
                    assert forall|i: int| 0 <= i < j + 1 implies #[trigger] plays(
                        out@,
                        played,
                        w,
                        i,
                    ) by {
                        if i < j {
                            assert(plays(before, played, w, i));
                        }
                    }
                }
                j += 1;
            }
            proof {
                lemma_frames_done(start as int, k, n as int, width as int);
            }
            start = end;
        }
        proof {
            assert(self.taken().skip(begin.len() as int) =~= taken);
            assert forall|j: int| 0 <= j < n implies rendered(
                taken[j / w],
                silence,
                *from_sample,
                #[trigger] out@[j],
            ) by {
                assert(plays(out@, played, w, j));
                assert(rendered(taken[j / w], silence, *from_sample, played[j / w]));
            }
            assert forall|j: int, k: int| 0 <= j < k < n && j / w == k / w implies #[trigger] out@[j]
                == #[trigger] out@[k] by {
                assert(plays(out@, played, w, j));
                assert(plays(out@, played, w, k));
            }
        }
        Filled { consumed, delivered: consumed }
    }
}

/// Does slot `j` play what its frame plays?
spec fn plays<T>(out: Seq<T>, played: Seq<T>, width: int, j: int) -> bool {
    0 <= j / width && j / width < played.len() && out[j] == played[j / width]
}

/// A slot from the start of frame `k`, and short of the next, lies in frame `k`.
proof fn lemma_frame_of(j: int, k: int, width: int)
    requires
        width >= 1,
        width * k <= j < width * k + width,
    ensures
        j / width == k,
{
    assert(j / width == k) by (nonlinear_arith)
        requires
            width >= 1,
            width * k <= j < width * k + width,
    ;
}

/// Where the next frame starts, or how many frames there were.
proof fn lemma_frames_done(start: int, k: int, n: int, width: int)
    requires
        width >= 1,
        start == width * k,
        k >= 0,
        start < n,
    ensures
        start + width == width * (k + 1),
        k + 1 <= start + width,
        k + 1 <= n,
        start + width >= n ==> frame_count(n, width) == k + 1,
{
    assert(start + width == width * (k + 1)) by (nonlinear_arith)
        requires
            start == width * k,
    ;
    assert(k + 1 <= width * (k + 1)) by (nonlinear_arith)
        requires
            width >= 1,
            k >= 0,
    ;
    assert(k <= width * k) by (nonlinear_arith)
        requires
            width >= 1,
            k >= 0,
    ;
    if start + width >= n {
        lemma_frame_of(n + width - 1, k + 1, width);
    }
}

// ---------------------------------------------------------------------------
// The synthesizer's side
// ---------------------------------------------------------------------------

/// The synthesizer's side of the ring.
#[derive(Debug)]
pub struct PlaybackProducer {
    ring: RingWriter,
    /// When false (after a barge-in), samples are dropped, so that a late chunk that races past
    /// the barge-in can neither be heard nor hold the turn open.
    live: bool,
    /// Samples accepted by the ring.
    enqueued: u64,
}

/// The synthesizer's side as a mathematical value.
#[verifier::ext_equal]
pub struct ProducerState {
    /// The samples offered so far, and whether each was accepted.
    pub offered: Seq<(u32, bool)>,
    /// How many samples the ring has room for.
    pub capacity: nat,
    /// All the samples that the ring ever accepts, in order.
    pub sent: Seq<u32>,
    pub live: bool,
    pub enqueued: u64,
}

impl View for PlaybackProducer {
    type V = ProducerState;

    closed spec fn view(&self) -> ProducerState {
        ProducerState {
            offered: self.ring@,
            capacity: self.ring.capacity(),
            sent: self.ring.sent(),
            live: self.live,
            enqueued: self.enqueued,
        }
    }
}

impl ProducerState {
    /// Are the samples accepted so far the first that the ring accepts?
    pub open spec fn in_order(self) -> bool {
        crate::ring::accepted_of(self.offered).is_prefix_of(self.sent)
    }

    /// The state after samples of which the ring accepted `n` before it was full.
    pub open spec fn enqueue(self, samples: Seq<u32>, n: int) -> ProducerState {
        if !self.live {
            self
        } else {
            let accepted = self.offered + crate::ring::all_accepted(samples.take(n));
            ProducerState {
                offered: if n < samples.len() {
                    accepted.push((samples[n], false))
                } else {
                    accepted
                },
                enqueued: self.enqueued.wrapping_add(n as u64),
                ..self
            }
        }
    }
}

impl PlaybackProducer {
    pub fn new(ring: RingWriter) -> (producer: Self)
        ensures
            producer@ == (ProducerState {
                offered: ring@,
                capacity: ring.capacity(),
                sent: ring.sent(),
                live: true,
                enqueued: 0,
            }),
    {
        PlaybackProducer { ring, live: true, enqueued: 0 }
    }

    /// Are samples accepted at all? Not between a barge-in and the next turn.
    pub fn is_live(&self) -> (live: bool)
        ensures
            live == self@.live,
    {
        self.live
    }

    /// Append samples at the device's rate; returns how many were accepted. Where the ring is
    /// full, which takes as many accepted samples as it has room for, the rest is dropped;
    /// after a barge-in all of it is.
    pub fn enqueue(&mut self, samples: &[u32]) -> (n: usize)
        ensures
            n <= samples@.len(),
            !old(self)@.live ==> n == 0,
            old(self)@.live && n < samples@.len() ==> crate::ring::accepted_in(old(self)@.offered)
                + n >= old(self)@.capacity,
            final(self)@ == old(self)@.enqueue(samples@, n as int),
            old(self)@.in_order() ==> final(self)@.in_order(),
    {
        if !self.live {
            return 0;
        }
        let n: usize = self.ring.offer_all(samples);
        self.enqueued = self.enqueued.wrapping_add(n as u64);
        assert(n == samples@.len() ==> samples@.take(n as int) =~= samples@);
        n
    }

    /// Stop accepting audio. (The device's side is told to flush.)
    pub fn barge_stop(&mut self)
        ensures
            final(self)@ == (ProducerState { live: false, ..old(self)@ }),
    {
        self.live = false;
    }

    /// Accept audio again, at the start of the next turn.
    pub fn resume(&mut self)
        ensures
            final(self)@ == (ProducerState { live: true, ..old(self)@ }),
    {
        self.live = true;
    }

    /// Is audio still pending, when this many samples have been removed from the ring?
    pub fn is_draining(&self, consumed: u64) -> (draining: bool)
        ensures
            draining == (self@.enqueued > consumed),
    {
        self.enqueued > consumed
    }
}

/// After a barge-in, nothing is enqueued until playback is resumed: whatever arrives is
/// dropped, neither offered to the device nor counted as pending.
pub proof fn law_late_audio_is_dropped(state: ProducerState, samples: Seq<u32>, n: int)
    requires
        !state.live,
    ensures
        state.enqueue(samples, n) == state,
{
}

// ---------------------------------------------------------------------------
// Ring sizes
// ---------------------------------------------------------------------------

/// What is enqueued is what is played: of the two sides of one ring, the samples that the
/// device's side has taken and those that the synthesizer's side had accepted are the same, in
/// the same order, as far as both go. With [`ProducerState::enqueue`] and
/// [`PlaybackConsumer::fill`], which keep both sides in order, this holds at any time.
pub proof fn law_enqueued_is_played(
    producer: ProducerState,
    taken: Seq<Option<u32>>,
    arriving: Seq<u32>,
)
    requires
        producer.in_order(),
        crate::ring::values_of(taken).is_prefix_of(arriving),
        producer.sent == arriving,
    ensures
        ({
            let accepted = crate::ring::accepted_of(producer.offered);
            let played = crate::ring::values_of(taken);
            &&& forall|i: int|
                0 <= i < played.len() && i < accepted.len() ==> played[i] == accepted[i]
            &&& played.len() <= accepted.len() ==> played.is_prefix_of(accepted)
            &&& accepted.len() <= played.len() ==> accepted.is_prefix_of(played)
        }),
{
    let accepted = crate::ring::accepted_of(producer.offered);
    let played = crate::ring::values_of(taken);
    assert forall|i: int| 0 <= i < played.len() && i < accepted.len() implies played[i]
        == accepted[i] by {
        assert(played[i] == arriving[i]);
        assert(accepted[i] == producer.sent[i]);
    }
}

/// The samples that `enqueue` has accepted follow, in order, those accepted before.
pub proof fn law_enqueue_appends(state: ProducerState, samples: Seq<u32>, n: int)
    requires
        state.live,
        0 <= n <= samples.len(),
    ensures
        crate::ring::accepted_of(state.enqueue(samples, n).offered) == crate::ring::accepted_of(
            state.offered,
        ) + samples.take(n),
{
    crate::ring::lemma_accepted(state.offered, samples.take(n));
    let offered = state.enqueue(samples, n).offered;
    if n < samples.len() {
        assert(offered.drop_last() =~= state.offered + crate::ring::all_accepted(samples.take(n)));
    }
}

/// The larger of a duration at a rate and a floor.
pub open spec fn ring_size(rate: u32, seconds: int, floor: int) -> int {
    if rate * seconds < floor {
        floor
    } else {
        rate * seconds
    }
}

/// The playback ring: about 30 s at the device's rate, so a fast synthesizer never overruns.
pub fn playback_ring_size(rate: u32) -> (n: usize)
    requires
        rate * 30 <= usize::MAX,
    ensures
        n == ring_size(rate, 30, 48_000),
{
    let n: usize = rate as usize * 30;
    if n < 48_000 {
        48_000
    } else {
        n
    }
}

/// The capture ring: about 10 s at the device's rate, so a slow transcription step can't
/// starve it.
pub fn capture_ring_size(rate: u32) -> (n: usize)
    requires
        rate * 10 <= usize::MAX,
    ensures
        n == ring_size(rate, 10, 16_000),
{
    let n: usize = rate as usize * 10;
    if n < 16_000 {
        16_000
    } else {
        n
    }
}

// ---------------------------------------------------------------------------
// Frames and counts
// ---------------------------------------------------------------------------

/// A buffer has as many frames as it takes to cover its slots: one fewer would be too few. A
/// device without channels counts as having one.
pub proof fn law_frames_cover_the_buffer(len: int, channels: usize)
    requires
        0 <= len,
    ensures
        channels >= 1 ==> frame_width(channels) == channels,
        channels == 0 ==> frame_width(channels) == 1,
        ({
            let width = frame_width(channels);
            let frames = frame_count(len, width);
            &&& frames * width >= len
            &&& frames > 0 ==> (frames - 1) * width < len
            &&& frames >= 0
        }),
{
    let width = frame_width(channels);
    let frames = frame_count(len, width);
    assert(frames * width >= len && (frames > 0 ==> (frames - 1) * width < len) && frames >= 0)
        by (nonlinear_arith)
        requires
            width >= 1,
            0 <= len,
            frames == (len + width - 1) / width,
    ;
}

/// A frame plays the sample that was taken for it, and silence only where none was.
pub proof fn law_frame_plays_its_sample<T, F: Fn(u32) -> T>(
    taken: Option<u32>,
    silence: T,
    from_sample: F,
    sample: T,
)
    requires
        rendered(taken, silence, from_sample, sample),
    ensures
        taken is None ==> sample == silence,
        taken matches Some(value) ==> from_sample.ensures((value,), sample),
{
}

/// What is pending is counted: as many samples as the ring accepted, those that it refused not
/// among them. Nothing else changes.
pub proof fn law_enqueue_counts(state: ProducerState, samples: Seq<u32>, n: int)
    requires
        state.live,
        0 <= n <= samples.len(),
        state.enqueued + n <= u64::MAX,
    ensures
        ({
            let after = state.enqueue(samples, n);
            &&& after.enqueued == state.enqueued + n
            &&& after.live
            &&& after.capacity == state.capacity
            &&& after.sent == state.sent
            &&& after.offered.len() == state.offered.len() + n + (if n < samples.len() {
                1int
            } else {
                0
            })
            &&& state.offered.is_prefix_of(after.offered)
        }),
{
    assert(state.enqueue(samples, n).offered.take(state.offered.len() as int) =~= state.offered);
}

/// A ring holds its seconds of audio, and is never smaller than its floor.
pub proof fn law_ring_holds_its_seconds(rate: u32, seconds: int, floor: int)
    ensures
        ring_size(rate, seconds, floor) >= rate * seconds,
        ring_size(rate, seconds, floor) >= floor,
        ring_size(rate, seconds, floor) == rate * seconds || ring_size(rate, seconds, floor)
            == floor,
{
}

} // verus!
