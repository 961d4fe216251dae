//! Samples of how long events take on their way to the engine.

use crate::time::{Duration, Instant};
use std::collections::VecDeque;
use vstd::prelude::*;
use vstd::relations::{sorted_by, total_ordering};

verus! {

/// How many samples are kept.
pub const LATENCY_SAMPLE_CAPACITY: usize = 4096;

/// The newest samples of a latency.
#[derive(Debug)]
pub struct LatencySamples {
    samples: VecDeque<Duration>,
}

/// A part of the way of market data to the engine.
#[derive(Debug, Clone, Copy, PartialEq, Eq, Hash, Structural)]
pub enum LatencyHop {
    /// From the time stamp of the exchange to its receipt.
    ExchangeToReceived,
    /// From its receipt to the queue of the engine.
    ReceivedToEngine,
    /// Its processing by the engine.
    EngineProcess,
}

/// The samples of each part of the way.
#[derive(Debug)]
pub struct MarketLatency {
    pub exchange_to_received: LatencySamples,
    pub received_to_engine: LatencySamples,
    pub engine_process: LatencySamples,
}

/// The numbers in ascending order.
pub open spec fn ascending(numbers: Seq<u128>) -> Seq<u128> {
    numbers.sort_by(|x: u128, y: u128| x <= y)
}

/// The samples in nanoseconds.
pub open spec fn nanos_of(samples: Seq<Duration>) -> Seq<u128> {
    samples.map_values(|sample: Duration| sample.nanos)
}

/// `slice::sort_unstable` on numbers: the same numbers in ascending order.
#[verifier::external_body]
fn sort_numbers(numbers: Vec<u128>) -> (result: Vec<u128>)
    ensures
        result@.to_multiset() == numbers@.to_multiset(),
        forall|i: int, j: int|
            0 <= i < j < result@.len() ==> #[trigger] result@[i] <= #[trigger] result@[j],
{
    let mut numbers = numbers;
    numbers.sort_unstable();
    numbers
}

/// The sample of the rank among the samples in ascending order, if there are so many.
pub open spec fn ranked(samples: Seq<Duration>, rank: usize) -> Option<Duration> {
    if rank < samples.len() {
        Some(Duration { nanos: ascending(nanos_of(samples))[rank as int] })
    } else {
        None
    }
}

impl View for LatencySamples {
    type V = Seq<Duration>;

    closed spec fn view(&self) -> Seq<Duration> {
        self.samples@
    }
}

impl Default for LatencySamples {
    fn default() -> (result: LatencySamples)
        ensures
            result@ == Seq::<Duration>::empty(),
    {
        LatencySamples { samples: VecDeque::new() }
    }
}

impl Default for MarketLatency {
    fn default() -> (result: MarketLatency)
        ensures
            result.exchange_to_received@ == Seq::<Duration>::empty(),
            result.received_to_engine@ == Seq::<Duration>::empty(),
            result.engine_process@ == Seq::<Duration>::empty(),
    {
        MarketLatency {
            exchange_to_received: LatencySamples::default(),
            received_to_engine: LatencySamples::default(),
            engine_process: LatencySamples::default(),
        }
    }
}

/// The samples with one more, of which the newest are kept.
pub open spec fn with_sample(samples: Seq<Duration>, sample: Duration) -> Seq<Duration> {
    if samples.len() == LATENCY_SAMPLE_CAPACITY {
        samples.skip(1).push(sample)
    } else {
        samples.push(sample)
    }
}

impl LatencySamples {
    #[verifier::type_invariant]
    spec fn well_formed(self) -> bool {
        self.samples@.len() <= LATENCY_SAMPLE_CAPACITY
    }

    /// Records the time from the start until now.
    pub fn record(&mut self, started: Instant, now: Instant)
        ensures
            final(self)@ == with_sample(old(self)@, now.since(started)),
    {
        self.record_duration(now.duration_since(started));
    }

    /// Records a latency.
    pub fn record_duration(&mut self, duration: Duration)
        ensures
            final(self)@ == with_sample(old(self)@, duration),
            final(self)@.len() <= LATENCY_SAMPLE_CAPACITY,
    {
        let mut taken = LatencySamples { samples: VecDeque::new() };
        std::mem::swap(self, &mut taken);
        proof {
            use_type_invariant(&taken);
        }
        let ghost before = taken@;
        let LatencySamples { mut samples } = taken;
        if samples.len() == LATENCY_SAMPLE_CAPACITY {
            let _ = samples.pop_front();
        }
        samples.push_back(duration);
        assert(samples@ =~= with_sample(before, duration));
        *self = LatencySamples { samples };
    }

    /// How many samples there are.
    pub fn len(&self) -> (result: usize)
        ensures
            result == self@.len(),
            result <= LATENCY_SAMPLE_CAPACITY,
    {
        proof {
            use_type_invariant(self);
        }
        self.samples.len()
    }

    /// Whether there is no sample.
    pub fn is_empty(&self) -> (result: bool)
        ensures
            result == (self@.len() == 0),
    {
        self.samples.len() == 0
    }

    /// The sample of the rank among the samples in ascending order, if there are so many.
    pub fn sample_at_rank(&self, rank: usize) -> (result: Option<Duration>)
        ensures
            result == ranked(self@, rank),
    {
        let mut numbers: Vec<u128> = Vec::new();
        let mut next: usize = 0;
        while next < self.samples.len()
            invariant
                next <= self.samples@.len(),
                numbers@ == nanos_of(self@.take(next as int)),
            decreases self.samples@.len() - next,
        {
            let sample = self.samples[next];
            numbers.push(sample.nanos);
            next = next + 1;
            assert(numbers@ =~= nanos_of(self@.take(next as int)));
        }
        assert(self@.take(next as int) =~= self@);
        let sorted = sort_numbers(numbers);
        proof {
            let leq = |x: u128, y: u128| x <= y;
            assert(total_ordering(leq));
            nanos_of(self@).lemma_sort_by_ensures(leq);
            assert(sorted_by(sorted@, leq));
            vstd::seq_lib::to_multiset_len(sorted@);
            vstd::seq_lib::to_multiset_len(nanos_of(self@));
            vstd::seq_lib::lemma_sorted_unique(sorted@, ascending(nanos_of(self@)), leq);
        }
        if rank < sorted.len() {
            Some(Duration { nanos: sorted[rank] })
        } else {
            None
        }
    }
}

impl MarketLatency {
    /// The samples of the part of the way.
    pub open spec fn samples_of(self, hop: LatencyHop) -> Seq<Duration> {
        match hop {
            LatencyHop::ExchangeToReceived => self.exchange_to_received@,
            LatencyHop::ReceivedToEngine => self.received_to_engine@,
            LatencyHop::EngineProcess => self.engine_process@,
        }
    }

    /// The samples of the part of the way.
    pub fn samples(&self, hop: LatencyHop) -> (result: &LatencySamples)
        ensures
            result@ == self.samples_of(hop),
            hop is ExchangeToReceived ==> *result == self.exchange_to_received,
            hop is ReceivedToEngine ==> *result == self.received_to_engine,
            hop is EngineProcess ==> *result == self.engine_process,
    {
        match hop {
            LatencyHop::ExchangeToReceived => &self.exchange_to_received,
            LatencyHop::ReceivedToEngine => &self.received_to_engine,
            LatencyHop::EngineProcess => &self.engine_process,
        }
    }

    /// The sample of the rank among those of the part of the way, in ascending order, if there
    /// are so many.
    pub fn sample_at_rank(&self, hop: LatencyHop, rank: usize) -> (result: Option<Duration>)
        ensures
            result == ranked(self.samples_of(hop), rank),
    {
        self.samples(hop).sample_at_rank(rank)
    }
}

/// Of the samples in ascending order, a higher rank never holds a smaller one, and every rank
/// holds one of the samples.
pub proof fn law_ranks_ascend(samples: Seq<Duration>, low: usize, high: usize)
    requires
        low <= high < samples.len(),
    ensures
        ranked(samples, low)->0.nanos <= ranked(samples, high)->0.nanos,
        samples.contains(ranked(samples, low)->0),
{
    broadcast use vstd::seq_lib::group_to_multiset_ensures;

    let leq = |x: u128, y: u128| x <= y;
    let numbers = nanos_of(samples);
    let sorted = ascending(numbers);
    assert(total_ordering(leq));
    numbers.lemma_sort_by_ensures(leq);
    vstd::seq_lib::to_multiset_len(sorted);
    vstd::seq_lib::to_multiset_len(numbers);
    if low < high {
        assert(leq(sorted[low as int], sorted[high as int]));
    }
    let found = sorted[low as int];
    assert(sorted.contains(found));
    assert(sorted.to_multiset().contains(found));
    assert(numbers.to_multiset().contains(found));
    assert(numbers.contains(found));
    let i = choose|i: int| 0 <= i < numbers.len() && numbers[i] == found;
    assert(samples[i] == (Duration { nanos: found }));
}

/// A sample that is recorded is the newest; all others are kept, but for the oldest where there are
/// as many as are kept.
pub proof fn law_newest_samples_are_kept(samples: Seq<Duration>, sample: Duration)
    requires
        samples.len() <= 4096,
    ensures
        with_sample(samples, sample).last() == sample,
        samples.len() < 4096 ==> with_sample(samples, sample).drop_last() == samples,
        samples.len() == 4096 ==> with_sample(samples, sample).len() == 4096,
        samples.len() == 4096 ==> forall|i: int|
            0 <= i < 4095 ==> #[trigger] with_sample(samples, sample)[i] == samples[i + 1],
{
    assert(samples.len() < 4096 ==> with_sample(samples, sample).drop_last() =~= samples);
}

/// The ranks hold all the samples, each as often as it was recorded.
pub proof fn law_ranks_hold_all_samples(samples: Seq<Duration>)
    requires
        samples.len() <= 4096,
    ensures
        Seq::new(
            samples.len(),
            |rank: int| ranked(samples, rank as usize)->0.nanos,
        ).to_multiset() == samples.map_values(|sample: Duration| sample.nanos).to_multiset(),
        forall|rank: usize| rank >= samples.len() ==> #[trigger] ranked(samples, rank) is None,
{
    let leq = |x: u128, y: u128| x <= y;
    let numbers = nanos_of(samples);
    let sorted = ascending(numbers);
    assert(total_ordering(leq));
    numbers.lemma_sort_by_ensures(leq);
    vstd::seq_lib::to_multiset_len(sorted);
    vstd::seq_lib::to_multiset_len(numbers);
    let ranks = Seq::new(samples.len(), |rank: int| ranked(samples, rank as usize)->0.nanos);
    assert(ranks =~= sorted);
}

} // verus!
