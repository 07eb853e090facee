//! A single-producer, single-consumer ring buffer of audio-style samples that
//! overwrites the oldest unread sample when it is full.
//!
//! Samples are 32-bit words (the bit pattern of an `f32` sample). The
//! producer never blocks: when every slot is taken it discards the oldest
//! unread sample and counts it as overwritten. The capacity is rounded up to
//! a power of two so that positions map to slots by masking.
//!
//! `ring` holds the position arithmetic and `ring::RingModel`, the buffer
//! between operations, over which FIFO order and overwrite-oldest are
//! proved; `protocol` models the atomic steps of the two threads and proves
//! the accounting invariant and the push order of popped samples in every
//! interleaving of those steps. The code of `new`, `push` and `pop` takes
//! its initial values, the operation of each phase and each decision from
//! functions of `protocol` whose contracts equal the model's steps; what the
//! atomics return is not tied to the model, so the operations themselves
//! carry no contract on the samples.
pub mod ring;
pub mod protocol;
mod shared;

use std::sync::Arc;
use vstd::prelude::*;
use crate::shared::Shared;
use crate::ring::{is_power_of_two, max_request, rounded_capacity};

verus! {

/// Creates a ring buffer for `capacity` samples and returns its two halves.
///
/// The capacity is rounded up to the next power of two; it must not be zero.
pub fn new(capacity: usize) -> (halves: (Producer, Consumer))
    requires
        0 < capacity <= max_request(),
    ensures
        rounded_capacity(capacity as nat, halves.0.slots()),
        halves.1.slots() == halves.0.slots(),
        halves.0.same_ring(halves.1),
{
    let shared = Arc::new(Shared::new(capacity));
    (Producer { shared: Arc::clone(&shared) }, Consumer { shared })
}

/// The producer half of the ring buffer. It is not `Clone`: there is one
/// producer per buffer.
pub struct Producer {
    shared: Arc<Shared>,
}

impl Producer {
    /// Number of slots of the buffer.
    pub closed spec fn slots(self) -> nat {
        self.shared.slots()
    }

    /// This producer and `consumer` work on one and the same buffer.
    pub closed spec fn same_ring(self, consumer: Consumer) -> bool {
        self.shared == consumer.shared
    }

    /// Pushes a sample. If the buffer is full, the oldest sample is
    /// overwritten.
    ///
    /// What the buffer holds afterwards depends on what the consumer does
    /// meanwhile and is not stated. Its atomic operations are those
    /// `protocol::push_action` names and its decisions are taken by
    /// `protocol::push_step`; both contracts equal the producer's steps of
    /// `protocol::Protocol`; the model, not this call, is proved to behave as
    /// `ring::RingModel::push` when no pop overlaps it.
    pub fn push(&self, sample: u32) {
        self.shared.push(sample);
    }

    /// Pushes the samples of a slice in order; samples that find the buffer
    /// full overwrite the oldest data.
    pub fn push_slice(&self, samples: &[u32]) {
        self.shared.push_slice(samples);
    }

    /// Number of samples currently available for reading, as computed by
    /// `ring::available_between` from the two positions it reads.
    pub fn available(&self) -> usize {
        self.shared.available().0
    }

    /// Number of samples overwritten since creation.
    pub fn overwrite_count(&self) -> u64 {
        self.shared.overwrite_count()
    }

    /// The buffer capacity, a power of two.
    pub fn capacity(&self) -> (c: usize)
        ensures
            c == self.slots(),
            is_power_of_two(c as nat),
    {
        self.shared.capacity()
    }
}

/// The consumer half of the ring buffer. It is not `Clone`: there is one
/// consumer per buffer.
pub struct Consumer {
    shared: Arc<Shared>,
}

impl Consumer {
    /// Number of slots of the buffer.
    pub closed spec fn slots(self) -> nat {
        self.shared.slots()
    }

    /// Pops the oldest sample, or `None` if the buffer is empty.
    ///
    /// What it returns depends on what the producer does meanwhile and is not
    /// stated. Its atomic operations are those `protocol::pop_action` names
    /// and its decisions are taken by `protocol::pop_step`; both contracts
    /// equal the consumer's steps of `protocol::Protocol`; the
    /// model, not this call, is proved to return
    /// `ring::RingModel::pop_result` when no push overlaps it.
    pub fn pop(&self) -> Option<u32> {
        self.shared.pop().0
    }

    /// Pops up to `buf.len()` samples into the front of `buf`, oldest first;
    /// returns how many were read. The rest of `buf` is left as it was.
    pub fn pop_slice(&self, buf: &mut [u32]) -> (count: usize)
        ensures
            count <= old(buf)@.len(),
            final(buf)@.len() == old(buf)@.len(),
            final(buf)@.subrange(count as int, final(buf)@.len() as int)
                == old(buf)@.subrange(count as int, old(buf)@.len() as int),
    {
        self.shared.pop_slice(buf)
    }

    /// Number of samples currently available for reading, as computed by
    /// `ring::available_between` from the two positions it reads.
    pub fn available(&self) -> usize {
        self.shared.available().0
    }

    /// Number of samples overwritten since creation.
    pub fn overwrite_count(&self) -> u64 {
        self.shared.overwrite_count()
    }

    /// The buffer capacity, a power of two.
    pub fn capacity(&self) -> (c: usize)
        ensures
            c == self.slots(),
            is_power_of_two(c as nat),
    {
        self.shared.capacity()
    }
}

} // verus!
