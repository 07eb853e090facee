//! The lock-free protocol between the producer and the consumer, one atomic
//! operation at a time.
//!
//! `Protocol` is the state of the shared atomics together with where each of
//! the two threads stands inside `push` or `pop`; `Protocol::next` performs
//! one atomic operation of one thread, in the order the shared buffer
//! performs them. A compare-exchange may fail even when the value matches,
//! as a weak compare-exchange may. Every interleaving of the two threads is
//! a sequence of `Step`s, and the invariant proved here holds after each of
//! them: that is where the accounting and ordering promises of the buffer
//! hold in every interleaving.
use vstd::prelude::*;
use crate::ring::{
    available_between, is_power_of_two, lemma_distinct_slots, lemma_mask_is_mod,
    lemma_power_of_two_positive, occupancy, RingModel,
};

verus! {

/// Where the producer stands inside `push`.
pub enum ProducerPc {
    Idle,
    /// About to read the read position.
    Checking { sample: u32 },
    /// Found the buffer full at read position `observed`; about to try to
    /// move the read position past the oldest sample.
    Discarding { sample: u32, observed: nat },
    /// Discarded the oldest sample; about to count it.
    Counting { sample: u32 },
    /// About to store the sample in its slot.
    Storing { sample: u32 },
    /// About to publish the new write position.
    Publishing { sample: u32 },
}

/// Where the consumer stands inside `pop`.
pub enum ConsumerPc {
    Idle,
    /// Read the read position; about to read the write position.
    CheckingWrite { observed: nat },
    /// Found a sample at `observed`; about to load its slot.
    Loading { observed: nat },
    /// Loaded `sample`; about to move the read position past `observed`.
    Claiming { observed: nat, sample: u32 },
}

/// Where a call of `available` stands. Each half has its own, so that the
/// producer and the consumer may call it at the same time.
pub enum ObserverPc {
    Idle,
    /// Read the write position `observed`; about to read the read position.
    ReadingRead { observed: nat },
}

/// One atomic operation of one of the two threads.
///
/// `ObserveWrite` and `ObserveRead` are the two loads of a call of
/// `available` by the producer's half (`by_producer`) or the consumer's.
pub enum Step {
    /// The producer starts pushing `sample`.
    ProducerBegin { sample: u32 },
    /// The producer reads the read position and decides whether to discard.
    ProducerCheck,
    /// The producer's compare-exchange on the read position; with
    /// `spurious` it fails whatever the value. After a failure with
    /// `give_up` the producer abandons the push without storing the sample
    /// (the buffer does so after `usize::MAX` failures in a row).
    ProducerDiscard { spurious: bool, give_up: bool },
    /// The producer counts the discarded sample.
    ProducerCount,
    /// The producer stores the sample in its slot.
    ProducerStore,
    /// The producer publishes the new write position.
    ProducerPublish,
    /// The consumer reads the read position.
    ConsumerBegin,
    /// The consumer reads the write position; stops when nothing is unread.
    ConsumerCheck,
    /// The consumer loads the slot of the oldest sample.
    ConsumerLoad,
    /// The consumer's compare-exchange on the read position; with
    /// `spurious` it fails whatever the value. After a failure the consumer
    /// starts over, or gives up and returns `None` (the buffer does so after
    /// `usize::MAX` failures in a row); both leave it idle here.
    ConsumerClaim { spurious: bool },
    /// A call of `available` reads the write position.
    ObserveWrite { by_producer: bool },
    /// The call reads the read position and reports the unread count.
    ObserveRead { by_producer: bool },
}

/// The shared atomics, the history of published samples, what the consumer
/// has popped so far, and where each thread stands.
pub struct Protocol {
    pub capacity: nat,
    pub read_pos: nat,
    pub slots: Seq<u32>,
    pub overwrite_count: nat,
    /// Every published sample; its length is the write position.
    pub history: Seq<u32>,
    /// Positions of the popped samples, in the order they were popped.
    pub popped_at: Seq<nat>,
    /// The popped samples, in the order they were popped.
    pub popped: Seq<u32>,
    pub producer: ProducerPc,
    pub consumer: ConsumerPc,
    /// Where a call of `available` by the producer's half stands.
    pub producer_observer: ObserverPc,
    /// Where a call of `available` by the consumer's half stands.
    pub consumer_observer: ObserverPc,
    /// What the calls of `available` reported, in order.
    pub reported: Seq<nat>,
    /// Number of pushes that gave up and dropped their sample.
    pub abandoned: nat,
}

impl Protocol {
    /// The published write position.
    pub open spec fn write_pos(self) -> nat {
        self.history.len()
    }

    /// A discard that has happened but is not counted yet.
    pub open spec fn pending_count(self) -> nat {
        if self.producer is Counting { 1 } else { 0 }
    }

    /// Number of push calls that have finished: published or given up.
    pub open spec fn pushes(self) -> nat {
        self.write_pos() + self.abandoned
    }

    /// Unread samples, as `available()` computes them from the positions.
    pub open spec fn available(self) -> nat {
        occupancy(self.write_pos(), self.read_pos)
    }

    /// A fresh buffer with the given capacity, both threads idle.
    pub open spec fn initial(capacity: nat) -> Protocol {
        Protocol {
            capacity,
            read_pos: 0,
            slots: Seq::new(capacity, |i: int| 0u32),
            overwrite_count: 0,
            history: Seq::empty(),
            popped_at: Seq::empty(),
            popped: Seq::empty(),
            producer: ProducerPc::Idle,
            consumer: ConsumerPc::Idle,
            producer_observer: ObserverPc::Idle,
            consumer_observer: ObserverPc::Idle,
            reported: Seq::empty(),
            abandoned: 0,
        }
    }

    /// The state after one atomic operation. A step of a thread that is
    /// not at the point where that operation comes next changes nothing.
    pub open spec fn next(self, step: Step) -> Protocol {
        match step {
            Step::ProducerBegin { sample } => match self.producer {
                ProducerPc::Idle => Protocol { producer: ProducerPc::Checking { sample }, ..self },
                _ => self,
            },
            Step::ProducerCheck => match self.producer {
                ProducerPc::Checking { sample } => if occupancy(self.write_pos(), self.read_pos)
                    < self.capacity {
                    Protocol { producer: ProducerPc::Storing { sample }, ..self }
                } else {
                    Protocol {
                        producer: ProducerPc::Discarding { sample, observed: self.read_pos },
                        ..self
                    }
                },
                _ => self,
            },
            Step::ProducerDiscard { spurious, give_up } => match self.producer {
                ProducerPc::Discarding { sample, observed } => if !spurious && self.read_pos
                    == observed {
                    Protocol {
                        read_pos: observed + 1,
                        producer: ProducerPc::Counting { sample },
                        ..self
                    }
                } else if give_up {
                    Protocol { producer: ProducerPc::Idle, abandoned: self.abandoned + 1, ..self }
                } else {
                    Protocol { producer: ProducerPc::Checking { sample }, ..self }
                },
                _ => self,
            },
            Step::ProducerCount => match self.producer {
                ProducerPc::Counting { sample } => Protocol {
                    overwrite_count: self.overwrite_count + 1,
                    producer: ProducerPc::Storing { sample },
                    ..self
                },
                _ => self,
            },
            Step::ProducerStore => match self.producer {
                ProducerPc::Storing { sample } => Protocol {
                    slots: self.slots.update((self.write_pos() % self.capacity) as int, sample),
                    producer: ProducerPc::Publishing { sample },
                    ..self
                },
                _ => self,
            },
            Step::ProducerPublish => match self.producer {
                ProducerPc::Publishing { sample } => Protocol {
                    history: self.history.push(sample),
                    producer: ProducerPc::Idle,
                    ..self
                },
                _ => self,
            },
            Step::ConsumerBegin => match self.consumer {
                ConsumerPc::Idle => Protocol {
                    consumer: ConsumerPc::CheckingWrite { observed: self.read_pos },
                    ..self
                },
                _ => self,
            },
            Step::ConsumerCheck => match self.consumer {
                ConsumerPc::CheckingWrite { observed } => if observed >= self.write_pos() {
                    Protocol { consumer: ConsumerPc::Idle, ..self }
                } else {
                    Protocol { consumer: ConsumerPc::Loading { observed }, ..self }
                },
                _ => self,
            },
            Step::ConsumerLoad => match self.consumer {
                ConsumerPc::Loading { observed } => Protocol {
                    consumer: ConsumerPc::Claiming {
                        observed,
                        sample: self.slots[(observed % self.capacity) as int],
                    },
                    ..self
                },
                _ => self,
            },
            Step::ConsumerClaim { spurious } => match self.consumer {
                ConsumerPc::Claiming { observed, sample } => if !spurious && self.read_pos
                    == observed {
                    Protocol {
                        read_pos: observed + 1,
                        popped_at: self.popped_at.push(observed),
                        popped: self.popped.push(sample),
                        consumer: ConsumerPc::Idle,
                        ..self
                    }
                } else {
                    Protocol { consumer: ConsumerPc::Idle, ..self }
                },
                _ => self,
            },
            Step::ObserveWrite { by_producer } => match self.observer(by_producer) {
                ObserverPc::Idle => self.with_observer(
                    by_producer,
                    ObserverPc::ReadingRead { observed: self.write_pos() },
                ),
                _ => self,
            },
            Step::ObserveRead { by_producer } => match self.observer(by_producer) {
                ObserverPc::ReadingRead { observed } => Protocol {
                    reported: self.reported.push(occupancy(observed, self.read_pos)),
                    ..self.with_observer(by_producer, ObserverPc::Idle)
                },
                _ => self,
            },
        }
    }

    /// Where the call of `available` by one half stands.
    pub open spec fn observer(self, by_producer: bool) -> ObserverPc {
        if by_producer {
            self.producer_observer
        } else {
            self.consumer_observer
        }
    }

    /// The state with the call of `available` by one half moved to `o`.
    pub open spec fn with_observer(self, by_producer: bool, o: ObserverPc) -> Protocol {
        if by_producer {
            Protocol { producer_observer: o, ..self }
        } else {
            Protocol { consumer_observer: o, ..self }
        }
    }

    /// The state after the steps of `steps`, in order.
    pub open spec fn run(self, steps: Seq<Step>) -> Protocol
        decreases steps.len(),
    {
        if steps.len() == 0 {
            self
        } else {
            self.next(steps[0]).run(steps.drop_first())
        }
    }

    /// Both threads are between operations.
    pub open spec fn quiescent(self) -> bool {
        self.producer is Idle && self.consumer is Idle
    }

    /// The buffer as seen between operations.
    pub open spec fn model(self) -> RingModel {
        RingModel {
            capacity: self.capacity,
            read_pos: self.read_pos,
            slots: self.slots,
            history: self.history,
            overwrites: self.overwrite_count,
            popped: self.popped_at.len(),
        }
    }

    /// The atomic operations of a `push` of `sample` that runs alone.
    pub open spec fn push_steps(self, sample: u32) -> Seq<Step> {
        if occupancy(self.write_pos(), self.read_pos) < self.capacity {
            seq![Step::ProducerBegin { sample }, Step::ProducerCheck, Step::ProducerStore, Step::ProducerPublish]
        } else {
            seq![
                Step::ProducerBegin { sample },
                Step::ProducerCheck,
                Step::ProducerDiscard { spurious: false, give_up: false },
                Step::ProducerCount,
                Step::ProducerStore,
                Step::ProducerPublish,
            ]
        }
    }

    /// The state after one whole `push` of each sample of `samples`, in
    /// order, with no `pop` interleaved.
    pub open spec fn push_all_alone(self, samples: Seq<u32>) -> Protocol
        decreases samples.len(),
    {
        if samples.len() == 0 {
            self
        } else {
            self.run(self.push_steps(samples[0])).push_all_alone(samples.drop_first())
        }
    }

    /// The atomic operations of a `pop` that runs alone.
    pub open spec fn pop_steps(self) -> Seq<Step> {
        if self.read_pos >= self.write_pos() {
            seq![Step::ConsumerBegin, Step::ConsumerCheck]
        } else {
            seq![Step::ConsumerBegin, Step::ConsumerCheck, Step::ConsumerLoad, Step::ConsumerClaim { spurious: false }]
        }
    }

    /// What the producer's position in `push` implies about the positions.
    pub open spec fn producer_ok(self) -> bool {
        match self.producer {
            ProducerPc::Idle => true,
            ProducerPc::Checking { .. } => true,
            ProducerPc::Discarding { observed, .. } => observed <= self.read_pos && observed
                + self.capacity <= self.write_pos(),
            ProducerPc::Counting { .. } => self.write_pos() < self.read_pos + self.capacity,
            ProducerPc::Storing { .. } => self.write_pos() < self.read_pos + self.capacity,
            ProducerPc::Publishing { sample } => self.write_pos() < self.read_pos + self.capacity
                && self.slots[(self.write_pos() % self.capacity) as int] == sample,
        }
    }

    /// What the consumer's position in `pop` implies about the positions.
    pub open spec fn consumer_ok(self) -> bool {
        match self.consumer {
            ConsumerPc::Idle => true,
            ConsumerPc::CheckingWrite { observed } => observed <= self.read_pos,
            ConsumerPc::Loading { observed } => observed <= self.read_pos && observed
                < self.write_pos(),
            ConsumerPc::Claiming { observed, sample } => observed <= self.read_pos && observed
                < self.write_pos() && (self.read_pos == observed ==> sample
                == self.history[observed as int]),
        }
    }

    /// The invariant of the protocol.
    pub open spec fn inv(self) -> bool {
        &&& is_power_of_two(self.capacity)
        &&& self.slots.len() == self.capacity
        &&& self.read_pos <= self.write_pos() <= self.read_pos + self.capacity
        &&& forall|p: nat|
            self.read_pos <= p < self.write_pos() ==> #[trigger] self.slots[(p
                % self.capacity) as int] == self.history[p as int]
        &&& self.read_pos == self.overwrite_count + self.popped_at.len() + self.pending_count()
        &&& self.popped.len() == self.popped_at.len()
        &&& forall|j: int|
            0 <= j < self.popped_at.len() ==> #[trigger] self.popped_at[j] < self.read_pos
                && self.popped[j] == self.history[self.popped_at[j] as int]
        &&& forall|i: int, j: int|
            0 <= i < j < self.popped_at.len() ==> #[trigger] self.popped_at[i]
                < #[trigger] self.popped_at[j]
        &&& self.producer_ok()
        &&& self.consumer_ok()
        &&& (self.producer_observer matches ObserverPc::ReadingRead { observed } ==> observed
            <= self.write_pos())
        &&& (self.consumer_observer matches ObserverPc::ReadingRead { observed } ==> observed
            <= self.write_pos())
        &&& forall|j: int| 0 <= j < self.reported.len() ==> #[trigger] self.reported[j] <= self.capacity
    }
}

/// A fresh buffer satisfies the invariant.
pub proof fn lemma_initial_inv(capacity: nat)
    requires
        is_power_of_two(capacity),
    ensures
        Protocol::initial(capacity).inv(),
{
}

/// Every atomic operation of either thread keeps the invariant.
pub proof fn lemma_next_inv(s: Protocol, step: Step)
    requires
        s.inv(),
    ensures
        s.next(step).inv(),
{
    lemma_power_of_two_positive(s.capacity);
    let t = s.next(step);
    let cap = s.capacity;
    let w = s.write_pos();
    match step {
        Step::ProducerStore => {
            if s.producer is Storing {
                assert forall|p: nat| t.read_pos <= p < t.write_pos() implies #[trigger] t.slots[(p
                    % cap) as int] == t.history[p as int] by {
                    lemma_distinct_slots(p, w, cap);
                    assert(s.slots[(p % cap) as int] == s.history[p as int]);
                }
            }
        },
        Step::ProducerPublish => {
            if s.producer is Publishing {
                assert forall|p: nat| t.read_pos <= p < t.write_pos() implies #[trigger] t.slots[(p
                    % cap) as int] == t.history[p as int] by {
                    if p < w {
                        assert(s.slots[(p % cap) as int] == s.history[p as int]);
                    }
                }
                assert forall|j: int| 0 <= j < t.popped_at.len() implies #[trigger] t.popped_at[j]
                    < t.read_pos && t.popped[j] == t.history[t.popped_at[j] as int] by {
                    assert(s.popped_at[j] < s.read_pos);
                }
            }
        },
        Step::ConsumerLoad => {
            if let ConsumerPc::Loading { observed } = s.consumer {
                if s.read_pos == observed {
                    assert(s.slots[(observed % cap) as int] == s.history[observed as int]);
                }
            }
        },
        Step::ConsumerClaim { spurious } => {
            if let ConsumerPc::Claiming { observed, sample } = s.consumer {
                if !spurious && s.read_pos == observed {
                    assert forall|j: int| 0 <= j < t.popped_at.len() implies #[trigger] t.popped_at[j]
                        < t.read_pos && t.popped[j] == t.history[t.popped_at[j] as int] by {
                        if j < s.popped_at.len() {
                            assert(s.popped_at[j] < s.read_pos);
                        }
                    }
                    assert forall|i: int, j: int| 0 <= i < j < t.popped_at.len() implies #[trigger] t.popped_at[i]
                        < #[trigger] t.popped_at[j] by {
                        if j < s.popped_at.len() {
                            assert(s.popped_at[i] < s.popped_at[j]);
                        } else {
                            assert(s.popped_at[i] < s.read_pos);
                        }
                    }
                }
            }
        },
        _ => {},
    }
}

/// Any sequence of atomic operations keeps the invariant.
pub proof fn lemma_run_inv(s: Protocol, steps: Seq<Step>)
    requires
        s.inv(),
    ensures
        s.run(steps).inv(),
    decreases steps.len(),
{
    if steps.len() > 0 {
        lemma_next_inv(s, steps[0]);
        lemma_run_inv(s.next(steps[0]), steps.drop_first());
    }
}

/// A strictly increasing sequence of naturals below its own length is
/// `0, 1, 2, ...`.
proof fn lemma_increasing_is_identity(s: Seq<nat>)
    requires
        forall|i: int, j: int| 0 <= i < j < s.len() ==> #[trigger] s[i] < #[trigger] s[j],
        forall|j: int| 0 <= j < s.len() ==> #[trigger] s[j] < s.len(),
    ensures
        forall|j: int| 0 <= j < s.len() ==> #[trigger] s[j] == j,
{
    assert forall|j: int| 0 <= j < s.len() implies #[trigger] s[j] >= j by {
        lemma_increasing_lower(s, j);
    }
    assert forall|j: int| 0 <= j < s.len() implies #[trigger] s[j] <= j by {
        lemma_increasing_upper(s, j);
    }
}

proof fn lemma_increasing_lower(s: Seq<nat>, j: int)
    requires
        forall|i: int, k: int| 0 <= i < k < s.len() ==> #[trigger] s[i] < #[trigger] s[k],
        0 <= j < s.len(),
    ensures
        s[j] >= j,
    decreases j,
{
    if j > 0 {
        lemma_increasing_lower(s, j - 1);
        assert(s[j - 1] < s[j]);
    }
}

proof fn lemma_increasing_upper(s: Seq<nat>, j: int)
    requires
        forall|i: int, k: int| 0 <= i < k < s.len() ==> #[trigger] s[i] < #[trigger] s[k],
        forall|k: int| 0 <= k < s.len() ==> #[trigger] s[k] < s.len(),
        0 <= j < s.len(),
    ensures
        s[j] + (s.len() - 1 - j) < s.len(),
    decreases s.len() - j,
{
    if j < s.len() - 1 {
        lemma_increasing_upper(s, j + 1);
        assert(s[j] < s[j + 1]);
    }
}

/// In every interleaving of the producer and the consumer:
/// - every published sample is unread, popped, overwritten, or (for one step
///   of the producer) discarded but not yet counted; with the pushes that
///   gave up, these account for every finished push call;
/// - the number of unread samples never exceeds the capacity, and neither
///   does any count `available` reports, although it reads the two
///   positions at different moments;
/// - the consumer pops pushed samples only, each at most once, in push order;
/// - as long as nothing was overwritten, the consumer has popped exactly the
///   first samples pushed, without gaps.
pub proof fn lemma_every_interleaving(capacity: nat, steps: Seq<Step>)
    requires
        is_power_of_two(capacity),
    ensures
        ({
            let t = Protocol::initial(capacity).run(steps);
            &&& t.overwrite_count + t.popped.len() + t.pending_count() + t.available()
                == t.write_pos()
            &&& !(t.producer is Counting) ==> t.overwrite_count + t.popped.len() + t.available()
                == t.write_pos()
            &&& !(t.producer is Counting) ==> t.overwrite_count + t.popped.len() + t.available()
                + t.abandoned == t.pushes()
            &&& t.available() <= t.capacity
            &&& forall|j: int| 0 <= j < t.reported.len() ==> #[trigger] t.reported[j] <= t.capacity
            &&& t.popped.len() == t.popped_at.len()
            &&& forall|j: int|
                0 <= j < t.popped.len() ==> #[trigger] t.popped[j] == t.history[t.popped_at[j] as int]
            &&& forall|i: int, j: int|
                0 <= i < j < t.popped_at.len() ==> #[trigger] t.popped_at[i] < #[trigger] t.popped_at[j]
            &&& t.overwrite_count == 0 && !(t.producer is Counting) ==> forall|j: int|
                0 <= j < t.popped_at.len() ==> #[trigger] t.popped_at[j] == j
        }),
{
    lemma_initial_inv(capacity);
    lemma_run_inv(Protocol::initial(capacity), steps);
    let t = Protocol::initial(capacity).run(steps);
    if t.overwrite_count == 0 && !(t.producer is Counting) {
        assert forall|j: int| 0 <= j < t.popped_at.len() implies #[trigger] t.popped_at[j]
            < t.popped_at.len() by {
            assert(t.popped_at[j] < t.read_pos);
        }
        lemma_increasing_is_identity(t.popped_at);
    }
}

/// A `push` that no `pop` interleaves with does what `RingModel::push` does.
pub proof fn lemma_push_alone(s: Protocol, sample: u32)
    requires
        s.inv(),
        s.quiescent(),
    ensures
        s.run(s.push_steps(sample)).quiescent(),
        s.run(s.push_steps(sample)).model() == s.model().push(sample),
        s.run(s.push_steps(sample)).popped == s.popped,
        s.run(s.push_steps(sample)).reported == s.reported,
{
    lemma_power_of_two_positive(s.capacity);
    let steps = s.push_steps(sample);
    reveal_with_fuel(Protocol::run, 7);
    let t = s.run(steps);
    assert(t.model() =~= s.model().push(sample));
}

/// Pushing a slice with no `pop` interleaved does what pushing each of its
/// samples in turn does in `RingModel`: the unread samples become the last
/// `capacity` (or all) of the old unread samples followed by the slice, and
/// every sample that no longer fits is counted as overwritten
/// (`ring::lemma_push_all`).
pub proof fn lemma_push_all_alone(s: Protocol, samples: Seq<u32>)
    requires
        s.inv(),
        s.quiescent(),
    ensures
        s.push_all_alone(samples).inv(),
        s.push_all_alone(samples).quiescent(),
        s.push_all_alone(samples).model() == s.model().push_all(samples),
        s.push_all_alone(samples).popped == s.popped,
        s.push_all_alone(samples).reported == s.reported,
    decreases samples.len(),
{
    if samples.len() > 0 {
        let t = s.run(s.push_steps(samples[0]));
        lemma_push_alone(s, samples[0]);
        lemma_run_inv(s, s.push_steps(samples[0]));
        lemma_push_all_alone(t, samples.drop_first());
    }
}

/// A `pop` that no `push` interleaves with does what `RingModel` says a pop
/// does, and returns the sample `RingModel::pop_result` names.
pub proof fn lemma_pop_alone(s: Protocol)
    requires
        s.inv(),
        s.quiescent(),
    ensures
        s.run(s.pop_steps()).quiescent(),
        s.run(s.pop_steps()).model() == s.model().pop_state(),
        s.model().pop_result() matches Some(v) ==> s.run(s.pop_steps()).popped == s.popped.push(v),
        s.model().pop_result() is None ==> s.run(s.pop_steps()).popped == s.popped,
        s.run(s.pop_steps()).reported == s.reported,
{
    lemma_power_of_two_positive(s.capacity);
    reveal_with_fuel(Protocol::run, 5);
    let t = s.run(s.pop_steps());
    assert(t.model() =~= s.model().pop_state());
}

/// The producer's phase inside `push`, as the buffer keeps it: what it
/// waits for next. Positions are the `usize` values read from the atomics.
#[derive(Clone, Copy)]
pub enum PushPhase {
    /// Waits for the read position, to decide whether there is room.
    Check,
    /// Waits for the outcome of moving the read position past `observed`.
    Discard { observed: usize },
    /// Waits for the discarded sample to be counted.
    Count,
    /// Decided: store the sample and publish it.
    Store,
    /// Gave up: the sample is not stored.
    Abandon,
}

/// What the atomic operation of the producer's phase returned.
#[derive(Clone, Copy)]
pub enum PushEvent {
    /// The read position that was loaded.
    ReadPos { read_pos: usize },
    /// Whether the compare-exchange succeeded, and whether to give up if it
    /// did not.
    Exchange { exchanged: bool, give_up: bool },
    /// The overwrite count was incremented.
    Counted,
}

impl PushPhase {
    /// The producer's position in `Protocol` while it pushes `sample`.
    pub open spec fn producer_pc(self, sample: u32) -> ProducerPc {
        match self {
            PushPhase::Check => ProducerPc::Checking { sample },
            PushPhase::Discard { observed } => ProducerPc::Discarding {
                sample,
                observed: observed as nat,
            },
            PushPhase::Count => ProducerPc::Counting { sample },
            PushPhase::Store => ProducerPc::Storing { sample },
            PushPhase::Abandon => ProducerPc::Idle,
        }
    }

    /// How many atomic operations at most are left before a new attempt.
    pub open spec fn rank(self) -> nat {
        match self {
            PushPhase::Check => 3,
            PushPhase::Discard { .. } => 2,
            PushPhase::Count => 1,
            _ => 0,
        }
    }
}

impl PushEvent {
    /// The step of `Protocol` whose outcome this event reports.
    pub open spec fn step(self) -> Step {
        match self {
            PushEvent::ReadPos { .. } => Step::ProducerCheck,
            PushEvent::Exchange { exchanged, give_up } => Step::ProducerDiscard {
                spurious: !exchanged,
                give_up,
            },
            PushEvent::Counted => Step::ProducerCount,
        }
    }

    /// `phase` waits for this kind of event, and `s` is a state in which the
    /// atomic operation returns it.
    pub open spec fn observed_in(self, phase: PushPhase, s: Protocol) -> bool {
        match (phase, self) {
            (PushPhase::Check, PushEvent::ReadPos { read_pos }) => s.read_pos == read_pos,
            (PushPhase::Discard { observed }, PushEvent::Exchange { exchanged, .. }) => exchanged
                ==> s.read_pos == observed,
            (PushPhase::Count, PushEvent::Counted) => true,
            _ => false,
        }
    }
}

/// The producer's next phase: room when fewer than `capacity` samples are
/// unread, else discard the oldest; after a successful discard count it,
/// after a failed one check again or give up.
pub open spec fn push_next(phase: PushPhase, event: PushEvent, write_pos: nat, capacity: nat) -> PushPhase {
    match (phase, event) {
        (PushPhase::Check, PushEvent::ReadPos { read_pos }) => if occupancy(write_pos, read_pos as nat)
            < capacity {
            PushPhase::Store
        } else {
            PushPhase::Discard { observed: read_pos }
        },
        (PushPhase::Discard { .. }, PushEvent::Exchange { exchanged, give_up }) => if exchanged {
            PushPhase::Count
        } else if give_up {
            PushPhase::Abandon
        } else {
            PushPhase::Check
        },
        (PushPhase::Count, PushEvent::Counted) => PushPhase::Store,
        _ => phase,
    }
}

/// The producer's decision after an atomic operation of `push` returned
/// `event`; it is the step `Protocol::next` takes for that operation.
pub fn push_step(phase: PushPhase, event: PushEvent, write_pos: usize, capacity: usize) -> (next:
    PushPhase)
    ensures
        next == push_next(phase, event, write_pos as nat, capacity as nat),
        forall|s: Protocol, sample: u32|
            #![trigger s.next(event.step()), phase.producer_pc(sample)]
            s.producer == phase.producer_pc(sample) && s.write_pos() == write_pos && s.capacity
                == capacity && event.observed_in(phase, s) ==> s.next(event.step()).producer
                == next.producer_pc(sample),
{
    match (phase, event) {
        (PushPhase::Check, PushEvent::ReadPos { read_pos }) => {
            if available_between(write_pos, read_pos) < capacity {
                PushPhase::Store
            } else {
                PushPhase::Discard { observed: read_pos }
            }
        },
        (PushPhase::Discard { .. }, PushEvent::Exchange { exchanged, give_up }) => {
            if exchanged {
                PushPhase::Count
            } else if give_up {
                PushPhase::Abandon
            } else {
                PushPhase::Check
            }
        },
        (PushPhase::Count, PushEvent::Counted) => PushPhase::Store,
        _ => phase,
    }
}

/// The consumer's phase inside `pop`, as the buffer keeps it.
#[derive(Clone, Copy)]
pub enum PopPhase {
    /// Waits for the read position.
    Begin,
    /// Waits for the write position, having read `observed`.
    CheckWrite { observed: usize },
    /// Waits for the sample in the slot of `observed`.
    Load { observed: usize },
    /// Waits for the outcome of moving the read position past `observed`.
    Claim { observed: usize, sample: u32 },
    /// Finished with `result`.
    Done { result: Option<u32> },
}

/// What the atomic operation of the consumer's phase returned.
#[derive(Clone, Copy)]
pub enum PopEvent {
    ReadPos { read_pos: usize },
    WritePos { write_pos: usize },
    Slot { sample: u32 },
    /// Whether the compare-exchange succeeded, and whether to give up if it
    /// did not.
    Exchange { exchanged: bool, give_up: bool },
}

impl PopPhase {
    /// The consumer's position in `Protocol`.
    pub open spec fn consumer_pc(self) -> ConsumerPc {
        match self {
            PopPhase::Begin => ConsumerPc::Idle,
            PopPhase::CheckWrite { observed } => ConsumerPc::CheckingWrite {
                observed: observed as nat,
            },
            PopPhase::Load { observed } => ConsumerPc::Loading { observed: observed as nat },
            PopPhase::Claim { observed, sample } => ConsumerPc::Claiming {
                observed: observed as nat,
                sample,
            },
            PopPhase::Done { .. } => ConsumerPc::Idle,
        }
    }

    /// The sample this phase has taken out of the buffer, if finished with one.
    pub open spec fn taken(self) -> Seq<u32> {
        match self {
            PopPhase::Done { result: Some(v) } => seq![v],
            _ => Seq::empty(),
        }
    }

    /// How many atomic operations at most are left before a new attempt.
    pub open spec fn rank(self) -> nat {
        match self {
            PopPhase::Begin => 4,
            PopPhase::CheckWrite { .. } => 3,
            PopPhase::Load { .. } => 2,
            PopPhase::Claim { .. } => 1,
            _ => 0,
        }
    }
}

impl PopEvent {
    /// The step of `Protocol` whose outcome this event reports.
    pub open spec fn step(self) -> Step {
        match self {
            PopEvent::ReadPos { .. } => Step::ConsumerBegin,
            PopEvent::WritePos { .. } => Step::ConsumerCheck,
            PopEvent::Slot { .. } => Step::ConsumerLoad,
            PopEvent::Exchange { exchanged, .. } => Step::ConsumerClaim { spurious: !exchanged },
        }
    }

    /// `phase` waits for this kind of event, and `s` is a state in which the
    /// atomic operation returns it.
    pub open spec fn observed_in(self, phase: PopPhase, s: Protocol) -> bool {
        match (phase, self) {
            (PopPhase::Begin, PopEvent::ReadPos { read_pos }) => s.read_pos == read_pos,
            (PopPhase::CheckWrite { .. }, PopEvent::WritePos { write_pos }) => s.write_pos()
                == write_pos,
            (PopPhase::Load { observed }, PopEvent::Slot { sample }) => s.slots[(observed as nat
                % s.capacity) as int] == sample,
            (PopPhase::Claim { observed, .. }, PopEvent::Exchange { exchanged, .. }) => exchanged
                ==> s.read_pos == observed,
            _ => false,
        }
    }
}

/// The consumer's next phase: nothing unread ends the pop with `None`; a
/// successful claim ends it with the loaded sample; a failed one starts
/// over or gives up with `None`.
pub open spec fn pop_next(phase: PopPhase, event: PopEvent) -> PopPhase {
    match (phase, event) {
        (PopPhase::Begin, PopEvent::ReadPos { read_pos }) => PopPhase::CheckWrite {
            observed: read_pos,
        },
        (PopPhase::CheckWrite { observed }, PopEvent::WritePos { write_pos }) => if observed
            >= write_pos {
            PopPhase::Done { result: None }
        } else {
            PopPhase::Load { observed }
        },
        (PopPhase::Load { observed }, PopEvent::Slot { sample }) => PopPhase::Claim {
            observed,
            sample,
        },
        (PopPhase::Claim { sample, .. }, PopEvent::Exchange { exchanged, give_up }) => if exchanged {
            PopPhase::Done { result: Some(sample) }
        } else if give_up {
            PopPhase::Done { result: None }
        } else {
            PopPhase::Begin
        },
        _ => phase,
    }
}

/// The consumer's decision after an atomic operation of `pop` returned
/// `event`; it is the step `Protocol::next` takes for that operation, and
/// what it hands back is what that step adds to the popped samples.
pub fn pop_step(phase: PopPhase, event: PopEvent) -> (next: PopPhase)
    ensures
        next == pop_next(phase, event),
        forall|s: Protocol|
            #![trigger s.next(event.step())]
            s.consumer == phase.consumer_pc() && event.observed_in(phase, s) ==> s.next(
                event.step(),
            ).consumer == next.consumer_pc() && s.next(event.step()).popped == s.popped
                + next.taken(),
{
    match (phase, event) {
        (PopPhase::Begin, PopEvent::ReadPos { read_pos }) => PopPhase::CheckWrite {
            observed: read_pos,
        },
        (PopPhase::CheckWrite { observed }, PopEvent::WritePos { write_pos }) => {
            if observed >= write_pos {
                PopPhase::Done { result: None }
            } else {
                PopPhase::Load { observed }
            }
        },
        (PopPhase::Load { observed }, PopEvent::Slot { sample }) => PopPhase::Claim {
            observed,
            sample,
        },
        (PopPhase::Claim { sample, .. }, PopEvent::Exchange { exchanged, give_up }) => {
            if exchanged {
                PopPhase::Done { result: Some(sample) }
            } else if give_up {
                PopPhase::Done { result: None }
            } else {
                PopPhase::Begin
            }
        },
        _ => phase,
    }
}

/// The position after `pos`; positions wrap to zero after `usize::MAX`.
pub open spec fn following(pos: usize) -> usize {
    if pos < usize::MAX {
        (pos + 1) as usize
    } else {
        0
    }
}

fn next_position(pos: usize) -> (p: usize)
    ensures
        p == following(pos),
{
    if pos < usize::MAX {
        pos + 1
    } else {
        0
    }
}

/// The values the atomics of a fresh buffer start with: write position,
/// read position, overwrite count, and the content of every slot.
pub fn initial_values() -> (v: (usize, usize, u64, u32))
    ensures
        v == (0usize, 0usize, 0u64, 0u32),
        forall|capacity: nat|
            #![trigger Protocol::initial(capacity)]
            Protocol::initial(capacity).write_pos() == v.0 && Protocol::initial(capacity).read_pos
                == v.1 && Protocol::initial(capacity).overwrite_count == v.2 && forall|i: int|
                0 <= i < capacity ==> #[trigger] Protocol::initial(capacity).slots[i] == v.3,
{
    (0, 0, 0, 0)
}

/// The atomic operation the producer performs in its current phase.
#[derive(Clone, Copy)]
pub enum PushAction {
    /// Load the read position.
    LoadReadPos,
    /// Compare-exchange the read position from `current` to `new`.
    Exchange { current: usize, new: usize },
    /// Add `amount` to the overwrite count.
    AddCount { amount: u64 },
    /// Store `sample` in slot `slot`, then store `write_pos` as the write
    /// position.
    Store { slot: usize, sample: u32, write_pos: usize },
    /// Nothing left to do.
    Finish,
}

impl PushAction {
    /// Performing this action in state `s` is the step `Protocol::next`
    /// takes for it.
    pub open spec fn agrees_with(self, s: Protocol) -> bool {
        match self {
            PushAction::LoadReadPos => s.producer is Checking,
            PushAction::Exchange { current, new } => (s.producer matches ProducerPc::Discarding {
                observed,
                ..
            } && observed == current) && (current < usize::MAX && s.read_pos == current
                ==> forall|give_up: bool|
                #[trigger] s.next(Step::ProducerDiscard { spurious: false, give_up }).read_pos
                    == new),
            PushAction::AddCount { amount } => s.producer is Counting && s.next(
                Step::ProducerCount,
            ).overwrite_count == s.overwrite_count + amount,
            PushAction::Store { slot, sample, write_pos } => s.producer is Storing && s.next(
                Step::ProducerStore,
            ).slots == s.slots.update(slot as int, sample) && s.next(Step::ProducerStore).next(
                Step::ProducerPublish,
            ).history == s.history.push(sample) && (s.write_pos() < usize::MAX ==> write_pos
                == s.write_pos() + 1),
            PushAction::Finish => s.producer is Idle,
        }
    }
}

/// The atomic operation of the producer's phase while it pushes `sample`,
/// with `write_pos` the write position it loaded and `mask` the capacity
/// minus one.
pub fn push_action(phase: PushPhase, write_pos: usize, mask: usize, sample: u32) -> (action:
    PushAction)
    requires
        mask < usize::MAX,
        is_power_of_two(mask as nat + 1),
    ensures
        match phase {
            PushPhase::Check => action == PushAction::LoadReadPos,
            PushPhase::Discard { observed } => action == (PushAction::Exchange {
                current: observed,
                new: following(observed),
            }),
            PushPhase::Count => action == (PushAction::AddCount { amount: 1 }),
            PushPhase::Store => action == (PushAction::Store {
                slot: (write_pos as nat % (mask as nat + 1)) as usize,
                sample,
                write_pos: following(write_pos),
            }),
            PushPhase::Abandon => action == PushAction::Finish,
        },
        forall|s: Protocol|
            s.producer == phase.producer_pc(sample) && s.write_pos() == write_pos && s.capacity
                == mask + 1 ==> #[trigger] action.agrees_with(s),
{
    match phase {
        PushPhase::Check => PushAction::LoadReadPos,
        PushPhase::Discard { observed } => PushAction::Exchange {
            current: observed,
            new: next_position(observed),
        },
        PushPhase::Count => PushAction::AddCount { amount: 1 },
        PushPhase::Store => {
            let capacity = (mask + 1) as usize;
            proof {
                lemma_mask_is_mod(write_pos, capacity);
            }
            PushAction::Store {
                slot: write_pos & mask,
                sample,
                write_pos: next_position(write_pos),
            }
        },
        PushPhase::Abandon => PushAction::Finish,
    }
}

/// The atomic operation the consumer performs in its current phase.
#[derive(Clone, Copy)]
pub enum PopAction {
    /// Load the read position.
    LoadReadPos,
    /// Load the write position.
    LoadWritePos,
    /// Load the sample in slot `slot`.
    LoadSlot { slot: usize },
    /// Compare-exchange the read position from `current` to `new`.
    Exchange { current: usize, new: usize },
    /// Return `result` from `pop`.
    Return { result: Option<u32> },
}

impl PopAction {
    /// Performing this action in state `s` is the step `Protocol::next`
    /// takes for it.
    pub open spec fn agrees_with(self, s: Protocol) -> bool {
        match self {
            PopAction::LoadReadPos => s.consumer is Idle,
            PopAction::LoadWritePos => s.consumer is CheckingWrite,
            PopAction::LoadSlot { slot } => s.consumer matches ConsumerPc::Loading { observed }
                && s.next(Step::ConsumerLoad).consumer == (ConsumerPc::Claiming {
                observed,
                sample: s.slots[slot as int],
            }),
            PopAction::Exchange { current, new } => (s.consumer matches ConsumerPc::Claiming {
                observed,
                ..
            } && observed == current) && (current < usize::MAX && s.read_pos == current ==> s.next(
                Step::ConsumerClaim { spurious: false },
            ).read_pos == new),
            PopAction::Return { .. } => s.consumer is Idle,
        }
    }
}

/// The atomic operation of the consumer's phase, with `mask` the capacity
/// minus one.
pub fn pop_action(phase: PopPhase, mask: usize) -> (action: PopAction)
    requires
        mask < usize::MAX,
        is_power_of_two(mask as nat + 1),
    ensures
        match phase {
            PopPhase::Begin => action == PopAction::LoadReadPos,
            PopPhase::CheckWrite { .. } => action == PopAction::LoadWritePos,
            PopPhase::Load { observed } => action == (PopAction::LoadSlot {
                slot: (observed as nat % (mask as nat + 1)) as usize,
            }),
            PopPhase::Claim { observed, .. } => action == (PopAction::Exchange {
                current: observed,
                new: following(observed),
            }),
            PopPhase::Done { result } => action == (PopAction::Return { result }),
        },
        forall|s: Protocol|
            s.consumer == phase.consumer_pc() && s.capacity == mask + 1
                ==> #[trigger] action.agrees_with(s),
{
    match phase {
        PopPhase::Begin => PopAction::LoadReadPos,
        PopPhase::CheckWrite { .. } => PopAction::LoadWritePos,
        PopPhase::Load { observed } => {
            let capacity = (mask + 1) as usize;
            proof {
                lemma_mask_is_mod(observed, capacity);
            }
            PopAction::LoadSlot { slot: observed & mask }
        },
        PopPhase::Claim { observed, .. } => PopAction::Exchange {
            current: observed,
            new: next_position(observed),
        },
        PopPhase::Done { result } => PopAction::Return { result },
    }
}

/// An exchange of a push that failed.
pub open spec fn failed_push_exchange(e: PushEvent) -> bool {
    e matches PushEvent::Exchange { exchanged: false, .. }
}

/// Failed exchanges among the events of a push.
pub open spec fn push_failed(events: Seq<PushEvent>) -> nat
    decreases events.len(),
{
    if events.len() == 0 {
        0
    } else {
        push_failed(events.drop_last()) + if failed_push_exchange(events.last()) {
            1nat
        } else {
            0nat
        }
    }
}

/// Successful exchanges among the events of a push.
pub open spec fn push_exchanged(events: Seq<PushEvent>) -> nat
    decreases events.len(),
{
    if events.len() == 0 {
        0
    } else {
        push_exchanged(events.drop_last()) + if events.last() matches PushEvent::Exchange {
            exchanged: true,
            ..
        } {
            1nat
        } else {
            0nat
        }
    }
}

/// Increments of the overwrite count among the events of a push.
pub open spec fn push_counted(events: Seq<PushEvent>) -> nat
    decreases events.len(),
{
    if events.len() == 0 {
        0
    } else {
        push_counted(events.drop_last()) + if events.last() == PushEvent::Counted {
            1nat
        } else {
            0nat
        }
    }
}

impl PushEvent {
    /// `phase` waits for this kind of event.
    pub open spec fn fits(self, phase: PushPhase) -> bool {
        match (phase, self) {
            (PushPhase::Check, PushEvent::ReadPos { .. }) => true,
            (PushPhase::Discard { .. }, PushEvent::Exchange { .. }) => true,
            (PushPhase::Count, PushEvent::Counted) => true,
            _ => false,
        }
    }
}

/// Failed exchanges a push has had once it has seen `event`, having had
/// `failures` before.
pub open spec fn push_failures_after(failures: nat, event: PushEvent) -> nat {
    if failed_push_exchange(event) {
        failures + 1
    } else {
        failures
    }
}

/// What the events a push has seen imply about its phase, given the
/// number of failed exchanges it counts.
pub open spec fn push_trace(phase: PushPhase, events: Seq<PushEvent>, failures: nat) -> bool {
    match phase {
        PushPhase::Check => push_failed(events) == failures && failures <= usize::MAX
            && push_exchanged(events) == 0 && push_counted(events) == 0,
        PushPhase::Discard { observed } => push_failed(events) == failures && failures
            <= usize::MAX && push_exchanged(events) == 0 && push_counted(events) == 0 && events.len()
            > 0 && events.last() == (PushEvent::ReadPos { read_pos: observed }),
        PushPhase::Count => push_failed(events) <= usize::MAX && push_exchanged(events) == 1
            && push_counted(events) == 0,
        PushPhase::Store => push_failed(events) <= usize::MAX && push_exchanged(events) <= 1
            && push_counted(events) == push_exchanged(events),
        PushPhase::Abandon => push_failed(events) == usize::MAX + 1 && push_exchanged(events) == 0
            && push_counted(events) == 0,
    }
}

/// One more event keeps what a push's events imply about its phase, as
/// long as it gives up only on its `usize::MAX + 1`-th failed exchange.
pub proof fn lemma_push_trace_step(
    phase: PushPhase,
    events: Seq<PushEvent>,
    failures: nat,
    event: PushEvent,
    write_pos: usize,
    capacity: usize,
)
    requires
        push_trace(phase, events, failures),
        event.fits(phase),
        event matches PushEvent::Exchange { give_up, .. } ==> give_up == (failures
            == usize::MAX),
    ensures
        push_trace(
            push_next(phase, event, write_pos as nat, capacity as nat),
            events.push(event),
            push_failures_after(failures, event),
        ),
{
    assert(events.push(event).drop_last() =~= events);
}

/// The law of a finished push, over the results of its atomic operations:
/// it published its sample unless `usize::MAX + 1` of its exchanges failed
/// in a row, in which case it gave up without storing the sample; it moved
/// the read position at most once, and counted exactly one overwrite for
/// that move.
pub open spec fn push_law(events: Seq<PushEvent>, published: bool) -> bool {
    &&& push_exchanged(events) <= 1
    &&& published ==> push_failed(events) <= usize::MAX && push_counted(events)
        == push_exchanged(events)
    &&& !published ==> push_failed(events) == usize::MAX + 1 && push_exchanged(events) == 0
        && push_counted(events) == 0
}

/// An exchange of a pop that failed.
pub open spec fn failed_pop_exchange(e: PopEvent) -> bool {
    e matches PopEvent::Exchange { exchanged: false, .. }
}

/// An exchange of a pop that succeeded: a claim.
pub open spec fn pop_claim(e: PopEvent) -> bool {
    e matches PopEvent::Exchange { exchanged: true, .. }
}

/// Failed exchanges among the events of a pop.
pub open spec fn pop_failed(events: Seq<PopEvent>) -> nat
    decreases events.len(),
{
    if events.len() == 0 {
        0
    } else {
        pop_failed(events.drop_last()) + if failed_pop_exchange(events.last()) {
            1nat
        } else {
            0nat
        }
    }
}

/// Successful exchanges (claims) among the events of a pop.
pub open spec fn pop_claims(events: Seq<PopEvent>) -> nat
    decreases events.len(),
{
    if events.len() == 0 {
        0
    } else {
        pop_claims(events.drop_last()) + if pop_claim(events.last()) {
            1nat
        } else {
            0nat
        }
    }
}

impl PopEvent {
    /// `phase` waits for this kind of event.
    pub open spec fn fits(self, phase: PopPhase) -> bool {
        match (phase, self) {
            (PopPhase::Begin, PopEvent::ReadPos { .. }) => true,
            (PopPhase::CheckWrite { .. }, PopEvent::WritePos { .. }) => true,
            (PopPhase::Load { .. }, PopEvent::Slot { .. }) => true,
            (PopPhase::Claim { .. }, PopEvent::Exchange { .. }) => true,
            _ => false,
        }
    }
}

/// Failed exchanges a pop has had once it has seen `event`, having had
/// `failures` before.
pub open spec fn pop_failures_after(failures: nat, event: PopEvent) -> nat {
    if failed_pop_exchange(event) {
        failures + 1
    } else {
        failures
    }
}

/// The last two events are a read position and then a write position that
/// it is not behind: nothing was unread at the positions read.
pub open spec fn nothing_unread(events: Seq<PopEvent>) -> bool {
    events.len() >= 2 && match (events[events.len() - 2], events.last()) {
        (PopEvent::ReadPos { read_pos }, PopEvent::WritePos { write_pos }) => read_pos >= write_pos,
        _ => false,
    }
}

/// The law of a finished pop, over the results of its atomic operations:
/// `Some(v)` means it loaded `v` and then claimed that sample with its one
/// successful exchange; `None` means it claimed nothing, and either the read
/// position it read was not behind the write position it read next, or
/// `usize::MAX + 1` of its exchanges failed in a row.
pub open spec fn pop_law(result: Option<u32>, events: Seq<PopEvent>) -> bool {
    match result {
        Some(v) => events.len() >= 2 && pop_claim(events.last()) && events[events.len() - 2]
            == (PopEvent::Slot { sample: v }) && pop_claims(events) == 1,
        None => pop_claims(events) == 0 && (pop_failed(events) == usize::MAX + 1
            || nothing_unread(events)),
    }
}

/// What the events a pop has seen imply about its phase, given the number
/// of failed exchanges it counts.
pub open spec fn pop_trace(phase: PopPhase, events: Seq<PopEvent>, failures: nat) -> bool {
    match phase {
        PopPhase::Begin => pop_failed(events) == failures && failures <= usize::MAX && pop_claims(
            events,
        ) == 0,
        PopPhase::CheckWrite { observed } => pop_failed(events) == failures && failures
            <= usize::MAX && pop_claims(events) == 0 && events.len() > 0 && events.last()
            == (PopEvent::ReadPos { read_pos: observed }),
        PopPhase::Load { .. } => pop_failed(events) == failures && failures <= usize::MAX
            && pop_claims(events) == 0,
        PopPhase::Claim { sample, .. } => pop_failed(events) == failures && failures
            <= usize::MAX && pop_claims(events) == 0 && events.len() > 0 && events.last()
            == (PopEvent::Slot { sample }),
        PopPhase::Done { result } => pop_law(result, events),
    }
}

/// One more event keeps what a pop's events imply about its phase, as long
/// as it gives up only on its `usize::MAX + 1`-th failed exchange.
pub proof fn lemma_pop_trace_step(
    phase: PopPhase,
    events: Seq<PopEvent>,
    failures: nat,
    event: PopEvent,
)
    requires
        pop_trace(phase, events, failures),
        event.fits(phase),
        event matches PopEvent::Exchange { give_up, .. } ==> give_up == (failures == usize::MAX),
    ensures
        pop_trace(pop_next(phase, event), events.push(event), pop_failures_after(failures, event)),
{
    let e2 = events.push(event);
    assert(e2.drop_last() =~= events);
    assert(e2.last() == event);
    if e2.len() >= 2 {
        assert(e2[e2.len() - 2] == events.last());
    }
}
/// The law of a call of `available`, over the results of its two loads:
/// it read the write position first and the read position second (the
/// `ObserveWrite` and `ObserveRead` steps), and reports how many samples are
/// unread between them.
pub open spec fn available_law(n: usize, events: Seq<PopEvent>) -> bool {
    events.len() == 2 && match (events[0], events[1]) {
        (PopEvent::WritePos { write_pos }, PopEvent::ReadPos { read_pos }) => n == occupancy(
            write_pos as nat,
            read_pos as nat,
        ),
        _ => false,
    }
}

} // verus!
