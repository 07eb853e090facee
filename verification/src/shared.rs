//! The storage shared by the producer and the consumer.
//!
//! Positions and samples live in atomics so that one producer thread and one
//! consumer thread can work on the buffer at the same time without a lock.
//! The values the atomics return depend on the other thread and are not
//! known to the verifier, so `push`, `pop`, `available` and
//! `overwrite_count` promise nothing about the samples or counts they
//! report. What they hand to the atomics and every decision they take on a
//! value read come from verified functions of plain values whose contracts
//! equal the steps of `crate::protocol::Protocol`: the initial values
//! (`initial_values`), the operation of each phase (`push_action`,
//! `pop_action`), the decision after it (`push_step`, `pop_step`), and the
//! unread count (`crate::ring::available_between`, the `ObserveWrite` and
//! `ObserveRead` steps). `push`, `pop` and `available` also hand back, as
//! ghost values, the results of their atomic operations in the order they
//! were made, and state over them what each call did (`push_law`, `pop_law`,
//! `available_law`); `push_slice` hands back the samples it pushed. These
//! records are kept by the code next to each operation: Verus checks the
//! laws against them, not against the atomics. That the atomics themselves behave as `Protocol`
//! assumes (sequentially consistent loads, stores and exchanges on shared
//! values) is not proved here.
use std::sync::atomic::{AtomicU32, AtomicU64, AtomicUsize, Ordering};
use vstd::prelude::*;
use crate::ring::{
    available_between, fill_step, is_power_of_two, max_request, round_capacity, rounded_capacity,
};
use crate::protocol::{
    available_law, initial_values, lemma_pop_trace_step, lemma_push_trace_step, pop_action, pop_failures_after,
    pop_law, pop_step, pop_trace, push_action, push_failures_after, push_law, push_step,
    push_trace, PopAction, PopEvent, PopPhase, PushAction, PushEvent, PushPhase,
};

verus! {

pub(crate) struct Shared {
    data: Vec<AtomicU32>,
    capacity: usize,
    mask: usize,
    write_pos: AtomicUsize,
    read_pos: AtomicUsize,
    overwrite_count: AtomicU64,
}

impl Shared {
    #[verifier::type_invariant]
    spec fn shape(self) -> bool {
        &&& is_power_of_two(self.capacity as nat)
        &&& self.data.len() == self.capacity
        &&& self.mask == self.capacity - 1
    }

    /// Number of slots of the buffer.
    pub(crate) closed spec fn slots(self) -> nat {
        self.capacity as nat
    }

    /// Creates the storage for `capacity` samples, rounded up to a power of two.
    pub(crate) fn new(capacity: usize) -> (s: Self)
        requires
            0 < capacity <= max_request(),
        ensures
            rounded_capacity(capacity as nat, s.slots()),
    {
        let capacity = round_capacity(capacity);
        let mask = capacity - 1;
        let (write_pos, read_pos, overwrite_count, slot) = initial_values();
        let mut data: Vec<AtomicU32> = Vec::new();
        while data.len() < capacity
            invariant
                data.len() <= capacity,
            decreases capacity - data.len(),
        {
            data.push(AtomicU32::new(slot));
        }
        Shared {
            data,
            capacity,
            mask,
            write_pos: AtomicUsize::new(write_pos),
            read_pos: AtomicUsize::new(read_pos),
            overwrite_count: AtomicU64::new(overwrite_count),
        }
    }

    /// Stores a sample. When the buffer is full the oldest unread sample is
    /// discarded first and counted as overwritten.
    ///
    /// Each atomic operation is the one `push_action` names for the current
    /// phase, and each decision is the one `push_step` takes from what that
    /// operation returned. A failed exchange means the consumer moved the
    /// read position (or the weak exchange failed spuriously), so the check
    /// is retried; after `usize::MAX + 1` failed exchanges in a row the push
    /// gives up and the sample is not stored.
    ///
    /// Returns, as ghost values, the results of its atomic operations and
    /// whether it published the sample; `push_law` holds of them.
    pub(crate) fn push(&self, sample: u32) -> (trace: Ghost<(Seq<PushEvent>, bool)>)
        ensures
            push_law(trace@.0, trace@.1),
    {
        let wp = self.write_pos.load(Ordering::Relaxed);
        let mut phase = PushPhase::Check;
        let mut attempts: usize = 0;
        let ghost mut events: Seq<PushEvent> = Seq::empty();
        let ghost mut failures: nat = 0;
        loop
            invariant
                push_trace(phase, events, failures),
                phase is Abandon || failures == attempts,
            decreases usize::MAX - attempts, phase.rank(),
        {
            proof {
                use_type_invariant(self);
            }
            match push_action(phase, wp, self.mask, sample) {
                PushAction::LoadReadPos => {
                    let rp = self.read_pos.load(Ordering::Acquire);
                    let event = PushEvent::ReadPos { read_pos: rp };
                    proof {
                        lemma_push_trace_step(phase, events, failures, event, wp, self.capacity);
                        events = events.push(event);
                        failures = push_failures_after(failures, event);
                    }
                    phase = push_step(phase, event, wp, self.capacity);
                },
                PushAction::Exchange { current, new } => {
                    // Full: discard the oldest sample, unless the consumer
                    // moved the read position in the meantime.
                    let exchanged = self.read_pos.compare_exchange_weak(
                        current,
                        new,
                        Ordering::Release,
                        Ordering::Relaxed,
                    ).is_ok();
                    let give_up = attempts == usize::MAX;
                    let event = PushEvent::Exchange { exchanged, give_up };
                    proof {
                        lemma_push_trace_step(phase, events, failures, event, wp, self.capacity);
                        events = events.push(event);
                        failures = push_failures_after(failures, event);
                    }
                    phase = push_step(phase, event, wp, self.capacity);
                    if !exchanged && !give_up {
                        attempts = attempts + 1;
                    }
                },
                PushAction::AddCount { amount } => {
                    self.overwrite_count.fetch_add(amount, Ordering::Relaxed);
                    let event = PushEvent::Counted;
                    proof {
                        lemma_push_trace_step(phase, events, failures, event, wp, self.capacity);
                        events = events.push(event);
                        failures = push_failures_after(failures, event);
                    }
                    phase = push_step(phase, event, wp, self.capacity);
                },
                PushAction::Store { slot, sample, write_pos } => {
                    self.data[slot].store(sample, Ordering::Release);
                    self.write_pos.store(write_pos, Ordering::Release);
                    return Ghost((events, true));
                },
                PushAction::Finish => {
                    return Ghost((events, false));
                },
            }
        }
    }

    /// Pushes every sample of `samples`, in order. Returns, as a ghost
    /// value, the samples it handed to `push`, in order.
    pub(crate) fn push_slice(&self, samples: &[u32]) -> (pushed: Ghost<Seq<u32>>)
        ensures
            pushed@ == samples@,
    {
        let mut i: usize = 0;
        let ghost mut pushed: Seq<u32> = Seq::empty();
        while i < samples.len()
            invariant
                i <= samples.len(),
                pushed == samples@.take(i as int),
            decreases samples.len() - i,
        {
            let sample = samples[i];
            self.push(sample);
            proof {
                pushed = pushed.push(sample);
            }
            i = i + 1;
            assert(pushed =~= samples@.take(i as int));
        }
        assert(pushed =~= samples@);
        Ghost(pushed)
    }

    /// Takes the oldest unread sample, or `None` when there is none.
    ///
    /// Each atomic operation is the one `pop_action` names for the current
    /// phase, and each decision is the one `pop_step` takes from what that
    /// operation returned. A failed exchange means the producer discarded
    /// the sample that was read (or the weak exchange failed spuriously), so
    /// the pop starts over; after `usize::MAX + 1` failed exchanges in a row
    /// it returns `None`.
    ///
    /// Returns the result and, as a ghost value, the results of its atomic
    /// operations; `pop_law` holds of them.
    pub(crate) fn pop(&self) -> (r: (Option<u32>, Ghost<Seq<PopEvent>>))
        ensures
            pop_law(r.0, r.1@),
    {
        let mut phase = PopPhase::Begin;
        let mut attempts: usize = 0;
        let ghost mut events: Seq<PopEvent> = Seq::empty();
        let ghost mut failures: nat = 0;
        loop
            invariant
                pop_trace(phase, events, failures),
                phase is Done || failures == attempts,
            decreases usize::MAX - attempts, phase.rank(),
        {
            proof {
                use_type_invariant(self);
            }
            let event;
            match pop_action(phase, self.mask) {
                PopAction::LoadReadPos => {
                    let rp = self.read_pos.load(Ordering::Acquire);
                    event = PopEvent::ReadPos { read_pos: rp };
                },
                PopAction::LoadWritePos => {
                    let wp = self.write_pos.load(Ordering::Acquire);
                    event = PopEvent::WritePos { write_pos: wp };
                },
                PopAction::LoadSlot { slot } => {
                    let bits = self.data[slot].load(Ordering::Acquire);
                    event = PopEvent::Slot { sample: bits };
                },
                PopAction::Exchange { current, new } => {
                    // The producer may have discarded this sample meanwhile;
                    // then the read position moved and the exchange fails.
                    let exchanged = self.read_pos.compare_exchange_weak(
                        current,
                        new,
                        Ordering::Release,
                        Ordering::Relaxed,
                    ).is_ok();
                    event = PopEvent::Exchange { exchanged, give_up: attempts == usize::MAX };
                },
                PopAction::Return { result } => {
                    return (result, Ghost(events));
                },
            }
            proof {
                lemma_pop_trace_step(phase, events, failures, event);
                events = events.push(event);
                failures = pop_failures_after(failures, event);
            }
            phase = pop_step(phase, event);
            if event matches PopEvent::Exchange { exchanged: false, give_up: false } {
                attempts = attempts + 1;
            }
        }
    }

    /// Pops into `buf` until it is full or nothing is left; returns how many
    /// samples were written to the front of `buf`. Each popped sample goes
    /// to `buf` through `fill_step`.
    pub(crate) fn pop_slice(&self, buf: &mut [u32]) -> (count: usize)
        ensures
            count <= old(buf)@.len(),
            final(buf)@.len() == old(buf)@.len(),
            final(buf)@.subrange(count as int, final(buf)@.len() as int)
                == old(buf)@.subrange(count as int, old(buf)@.len() as int),
    {
        let mut count: usize = 0;
        while count < buf.len()
            invariant
                count <= buf@.len(),
                buf@.len() == old(buf)@.len(),
                forall|j: int| count <= j < buf@.len() ==> buf@[j] == old(buf)@[j],
            decreases buf@.len() - count,
        {
            let (popped, _) = self.pop();
            if !fill_step(buf, count, popped) {
                break;
            }
            count = count + 1;
        }
        count
    }

    /// Number of unread samples, from the write position and then the read
    /// position (the `ObserveWrite` and `ObserveRead` steps of `Protocol`,
    /// for the half that calls it).
    ///
    /// Returns the count and, as a ghost value, the results of its two loads
    /// in the order made; `available_law` holds of them.
    pub(crate) fn available(&self) -> (r: (usize, Ghost<Seq<PopEvent>>))
        ensures
            available_law(r.0, r.1@),
    {
        let wp = self.write_pos.load(Ordering::Acquire);
        let ghost first = PopEvent::WritePos { write_pos: wp };
        let rp = self.read_pos.load(Ordering::Acquire);
        let ghost events: Seq<PopEvent> = seq![first, PopEvent::ReadPos { read_pos: rp }];
        (available_between(wp, rp), Ghost(events))
    }

    /// Number of samples discarded to make room, since creation.
    pub(crate) fn overwrite_count(&self) -> u64 {
        self.overwrite_count.load(Ordering::Relaxed)
    }

    /// Number of slots, a power of two.
    pub(crate) fn capacity(&self) -> (c: usize)
        ensures
            c == self.slots(),
            is_power_of_two(c as nat),
    {
        proof {
            use_type_invariant(self);
        }
        self.capacity
    }
}

} // verus!
