//! Sample rings: the lock-free queues of the `rtrb` crate that carry audio between a
//! real-time callback and the rest of the program. A sample is held by its bit pattern.
//!
//! The two ends of a ring may be used by two threads at once, so what the queue holds at a
//! given moment is known to neither. What an end does know is what came of each of its own
//! calls. The two are tied by what the queue carries in all: the values that were accepted so
//! far, and the values that were taken so far, are each the beginning of it.

use vstd::prelude::*;

verus! {

// ---------------------------------------------------------------------------
// What is taken from rtrb
// ---------------------------------------------------------------------------

/// `rtrb::Producer`: the end of a ring that is written to.
#[verifier::external_type_specification]
#[verifier::external_body]
#[verifier::reject_recursive_types(T)]
pub struct ExProducer<T>(rtrb::Producer<T>);

/// `rtrb::Consumer`: the end of a ring that is read from.
#[verifier::external_type_specification]
#[verifier::external_body]
#[verifier::reject_recursive_types(T)]
pub struct ExConsumer<T>(rtrb::Consumer<T>);

/// What came of every `push` on a producer so far: the value, and whether it was accepted.
pub uninterp spec fn ring_pushes(producer: rtrb::Producer<u32>) -> Seq<(u32, bool)>;

/// What came of every `pop` on a consumer so far: a value, or nothing.
pub uninterp spec fn ring_pops(consumer: rtrb::Consumer<u32>) -> Seq<Option<u32>>;

/// How many values the queue of a producer has room for.
pub uninterp spec fn ring_capacity(producer: rtrb::Producer<u32>) -> nat;

/// All the values that the queue of a producer ever accepts, in order, over its whole life.
pub uninterp spec fn ring_sent(producer: rtrb::Producer<u32>) -> Seq<u32>;

/// All the values that the queue of a consumer ever accepts, in order, over its whole life.
pub uninterp spec fn ring_arriving(consumer: rtrb::Consumer<u32>) -> Seq<u32>;

/// The values among the offers that were accepted, in order.
pub open spec fn accepted_of(pushes: Seq<(u32, bool)>) -> Seq<u32>
    decreases pushes.len(),
{
    if pushes.len() == 0 {
        seq![]
    } else if pushes.last().1 {
        accepted_of(pushes.drop_last()).push(pushes.last().0)
    } else {
        accepted_of(pushes.drop_last())
    }
}

/// How many of the offers were accepted.
pub open spec fn accepted_in(pushes: Seq<(u32, bool)>) -> nat {
    accepted_of(pushes).len()
}

/// The values among the outcomes of attempts to take one, in order.
pub open spec fn values_of(pops: Seq<Option<u32>>) -> Seq<u32>
    decreases pops.len(),
{
    if pops.len() == 0 {
        seq![]
    } else {
        match pops.last() {
            Some(value) => values_of(pops.drop_last()).push(value),
            None => values_of(pops.drop_last()),
        }
    }
}

/// `rtrb::RingBuffer::new`: the two fresh ends of one queue for `capacity` values: what the one
/// ever accepts is what arrives at the other. (The crate panics if the storage exceeds the
/// address space.)
#[verifier::external_body]
fn new_ring(capacity: usize) -> (ends: (rtrb::Producer<u32>, rtrb::Consumer<u32>))
    requires
        capacity * 4 <= isize::MAX,
    ensures
        ring_pushes(ends.0).len() == 0,
        ring_capacity(ends.0) == capacity,
        ring_pops(ends.1).len() == 0,
        ring_sent(ends.0) == ring_arriving(ends.1),
{
    rtrb::RingBuffer::new(capacity)
}

/// `rtrb::Producer::push`: puts the value in the queue, or refuses it if the queue is full. It
/// cannot be full before as many values as it has room for were accepted; from then on which
/// of the two it is depends on the other end too, and is left open. The values accepted so far
/// are the first that the queue accepts.
#[verifier::external_body]
fn push(producer: &mut rtrb::Producer<u32>, value: u32) -> (accepted: bool)
    ensures
        ring_pushes(*final(producer)) == ring_pushes(*old(producer)).push((value, accepted)),
        ring_capacity(*final(producer)) == ring_capacity(*old(producer)),
        accepted_in(ring_pushes(*old(producer))) < ring_capacity(*old(producer)) ==> accepted,
        ring_sent(*final(producer)) == ring_sent(*old(producer)),
        accepted_of(ring_pushes(*final(producer))).is_prefix_of(ring_sent(*final(producer))),
{
    producer.push(value).is_ok()
}

/// `rtrb::Consumer::pop`: takes the oldest value out of the queue, or nothing if it is empty.
/// Which of the two depends on the other end too, so it is left open. The values taken so far
/// are the first that the queue accepted, in that order.
#[verifier::external_body]
fn pop(consumer: &mut rtrb::Consumer<u32>) -> (value: Option<u32>)
    ensures
        ring_pops(*final(consumer)) == ring_pops(*old(consumer)).push(value),
        ring_arriving(*final(consumer)) == ring_arriving(*old(consumer)),
        values_of(ring_pops(*final(consumer))).is_prefix_of(ring_arriving(*final(consumer))),
{
    consumer.pop().ok()
}

// ---------------------------------------------------------------------------
// The two ends
// ---------------------------------------------------------------------------

/// The end of a ring that is written to.
#[derive(Debug)]
pub struct RingWriter {
    producer: rtrb::Producer<u32>,
}

/// The end of a ring that is read from.
#[derive(Debug)]
pub struct RingReader {
    consumer: rtrb::Consumer<u32>,
}

impl View for RingWriter {
    type V = Seq<(u32, bool)>;

    /// The samples offered so far, and whether each was accepted.
    closed spec fn view(&self) -> Seq<(u32, bool)> {
        ring_pushes(self.producer)
    }
}

impl RingWriter {
    /// How many samples the ring has room for.
    pub closed spec fn capacity(&self) -> nat {
        ring_capacity(self.producer)
    }

    /// All the samples that the ring ever accepts, in order.
    pub closed spec fn sent(&self) -> Seq<u32> {
        ring_sent(self.producer)
    }

    /// Are the samples accepted so far the first that the ring accepts?
    pub open spec fn in_order(&self) -> bool {
        accepted_of(self@).is_prefix_of(self.sent())
    }
}

impl RingReader {
    /// All the samples that the ring ever accepts, in order.
    pub closed spec fn arriving(&self) -> Seq<u32> {
        ring_arriving(self.consumer)
    }

    /// Are the samples taken so far the first that the ring accepts?
    pub open spec fn in_order(&self) -> bool {
        values_of(self@).is_prefix_of(self.arriving())
    }
}

impl View for RingReader {
    type V = Seq<Option<u32>>;

    /// What came of every attempt to take a sample so far.
    closed spec fn view(&self) -> Seq<Option<u32>> {
        ring_pops(self.consumer)
    }
}

/// A fresh ring for `capacity` samples.
pub fn sample_ring(capacity: usize) -> (ends: (RingWriter, RingReader))
    requires
        capacity * 4 <= isize::MAX,
    ensures
        ends.0@.len() == 0,
        ends.0.capacity() == capacity,
        ends.1@.len() == 0,
        ends.0.sent() == ends.1.arriving(),
        ends.0.in_order(),
        ends.1.in_order(),
{
    let (producer, consumer) = new_ring(capacity);
    (RingWriter { producer }, RingReader { consumer })
}

/// Each of these samples, accepted.
pub open spec fn all_accepted(samples: Seq<u32>) -> Seq<(u32, bool)> {
    Seq::new(samples.len(), |i: int| (samples[i], true))
}

/// Each of these samples, taken.
pub open spec fn all_taken(samples: Seq<u32>) -> Seq<Option<u32>> {
    Seq::new(samples.len(), |i: int| Some(samples[i]))
}

/// Accepted samples follow those accepted before.
pub proof fn lemma_accepted(pushes: Seq<(u32, bool)>, samples: Seq<u32>)
    ensures
        accepted_of(pushes + all_accepted(samples)) == accepted_of(pushes) + samples,
    decreases samples.len(),
{
    let all = pushes + all_accepted(samples);
    if samples.len() == 0 {
        assert(all =~= pushes);
        assert(accepted_of(pushes) + samples =~= accepted_of(pushes));
    } else {
        lemma_accepted(pushes, samples.drop_last());
        assert(all.drop_last() =~= pushes + all_accepted(samples.drop_last()));
        assert(accepted_of(all) =~= accepted_of(pushes) + samples);
    }
}

impl RingWriter {
    /// Offer one sample; it is dropped if the ring is full, which it cannot be before as many
    /// samples as it has room for were accepted.
    pub fn offer(&mut self, sample: u32) -> (accepted: bool)
        ensures
            final(self)@ == old(self)@.push((sample, accepted)),
            final(self).capacity() == old(self).capacity(),
            accepted_in(old(self)@) < old(self).capacity() ==> accepted,
            final(self).sent() == old(self).sent(),
            final(self).in_order(),
    {
        push(&mut self.producer, sample)
    }

    /// Offer samples in order until one is refused; returns how many were accepted.
    pub fn offer_all(&mut self, samples: &[u32]) -> (n: usize)
        ensures
            n <= samples@.len(),
            final(self).capacity() == old(self).capacity(),
            n < samples@.len() ==> accepted_in(old(self)@) + n >= old(self).capacity(),
            final(self).sent() == old(self).sent(),
            old(self).in_order() ==> final(self).in_order(),
            n == samples@.len() ==> final(self)@ == old(self)@ + all_accepted(samples@),
            n < samples@.len() ==> final(self)@ == (old(self)@ + all_accepted(
                samples@.take(n as int),
            )).push((samples@[n as int], false)),
    {
        let ghost begin = self@;
        let mut n: usize = 0;
        assert(begin + all_accepted(samples@.take(0)) =~= begin);
        while n < samples.len()
            invariant
                n <= samples@.len(),
                begin == old(self)@,
                self.capacity() == old(self).capacity(),
                self.sent() == old(self).sent(),
                old(self).in_order() ==> self.in_order(),
                self@ == begin + all_accepted(samples@.take(n as int)),
            decreases samples.len() - n,
        {
            proof {
                lemma_accepted(begin, samples@.take(n as int));
            }
            if !self.offer(samples[n]) {
                return n;
            }
            n += 1;
            assert(all_accepted(samples@.take(n as int)) =~= all_accepted(
                samples@.take(n - 1),
            ).push((samples@[n - 1], true)));
            assert(self@ =~= begin + all_accepted(samples@.take(n as int)));
        }
        assert(samples@.take(n as int) == samples@);
        n
    }
}

impl RingReader {
    /// Take the oldest sample, if there is one.
    pub fn take(&mut self) -> (sample: Option<u32>)
        ensures
            final(self)@ == old(self)@.push(sample),
            final(self).arriving() == old(self).arriving(),
            final(self).in_order(),
    {
        pop(&mut self.consumer)
    }

    /// Take samples until the ring is empty. (No more than can be counted, which a ring that
    /// is filled as fast as it is emptied would need.)
    pub fn drain(&mut self) -> (samples: Vec<u32>)
        ensures
            final(self)@ == (old(self)@ + all_taken(samples@)).push(None) || (final(self)@ == old(
                self,
            )@ + all_taken(samples@) && samples@.len() == usize::MAX),
            final(self).arriving() == old(self).arriving(),
            final(self).in_order(),
    {
        let ghost begin = self@;
        let mut samples: Vec<u32> = Vec::new();
        assert(begin + all_taken(samples@) =~= begin);
        while samples.len() < usize::MAX
            invariant
                begin == old(self)@,
                self@ == begin + all_taken(samples@),
                self.arriving() == old(self).arriving(),
                samples@.len() > 0 ==> self.in_order(),
            decreases usize::MAX - samples.len(),
        {
            match self.take() {
                Some(sample) => {
                    let ghost before = samples@;
                    samples.push(sample);
                    assert(all_taken(samples@) =~= all_taken(before).push(Some(sample)));
                    assert(self@ =~= begin + all_taken(samples@));
                },
                None => {
                    return samples;
                },
            }
        }
        samples
    }

    /// Take and discard samples until the ring is empty; returns how many there were. (No
    /// more than can be counted.)
    pub fn discard(&mut self) -> (n: u64)
        ensures
            ({
                let gone = final(self)@.skip(old(self)@.len() as int);
                &&& final(self)@ == old(self)@ + gone
                &&& values_of(gone).len() == n
                &&& gone.len() == n + 1 && gone.last() is None || gone.len() == n && n == u64::MAX
            }),
            final(self).arriving() == old(self).arriving(),
            final(self).in_order(),
    {
        let ghost begin = self@;
        let ghost mut gone = Seq::<Option<u32>>::empty();
        let mut n: u64 = 0;
        assert(begin + gone =~= begin);
        while n < u64::MAX
            invariant
                begin == old(self)@,
                self@ == begin + gone,
                gone.len() == n,
                values_of(gone).len() == n,
                self.arriving() == old(self).arriving(),
                n > 0 ==> self.in_order(),
            decreases u64::MAX - n,
        {
            let sample = self.take();
            proof {
                let longer = gone.push(sample);
                assert(longer.drop_last() == gone);
                assert(self@ =~= begin + longer);
                assert(self@.skip(begin.len() as int) =~= longer);
                gone = longer;
            }
            match sample {
                Some(_) => {
                    n += 1;
                },
                None => {
                    return n;
                },
            }
        }
        assert(self@.skip(begin.len() as int) =~= gone);
        n
    }
}

/// What is taken is never more than what is tried for, and it comes in the order in which it
/// was taken.
pub proof fn law_values_are_a_subsequence(pops: Seq<Option<u32>>, more: Seq<Option<u32>>)
    ensures
        values_of(pops).len() <= pops.len(),
        values_of(pops + more) == values_of(pops) + values_of(more),
    decreases pops.len() + more.len(),
{
    if more.len() > 0 {
        assert((pops + more).drop_last() =~= pops + more.drop_last());
        law_values_are_a_subsequence(pops, more.drop_last());
        assert(values_of(pops + more) =~= values_of(pops) + values_of(more));
    } else {
        assert(pops + more =~= pops);
        assert(values_of(pops) + values_of(more) =~= values_of(pops));
        if pops.len() > 0 {
            law_values_are_a_subsequence(pops.drop_last(), more);
        }
    }
}

/// What was accepted is known offer by offer: an accepted sample joins the others at the end,
/// and a refused one leaves them as they are. The same holds of what was taken.
pub proof fn law_one_by_one(
    pushes: Seq<(u32, bool)>,
    pops: Seq<Option<u32>>,
    sample: u32,
)
    ensures
        accepted_of(pushes.push((sample, true))) == accepted_of(pushes).push(sample),
        accepted_of(pushes.push((sample, false))) == accepted_of(pushes),
        accepted_of(Seq::<(u32, bool)>::empty()).len() == 0,
        accepted_in(pushes.push((sample, true))) == accepted_in(pushes) + 1,
        accepted_in(pushes.push((sample, false))) == accepted_in(pushes),
        values_of(pops.push(Some(sample))) == values_of(pops).push(sample),
        values_of(pops.push(None)) == values_of(pops),
        values_of(Seq::<Option<u32>>::empty()).len() == 0,
{
    assert(pushes.push((sample, true)).drop_last() =~= pushes);
    assert(pushes.push((sample, false)).drop_last() =~= pushes);
    assert(pops.push(Some(sample)).drop_last() =~= pops);
    assert(pops.push(None).drop_last() =~= pops);
}

} // verus!
