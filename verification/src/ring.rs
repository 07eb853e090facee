//! Position arithmetic and decision rules of the overwrite-oldest ring.
//!
//! Positions count samples from the creation of the buffer and only grow;
//! a position is turned into a slot of the backing storage by masking it
//! with `capacity - 1`, which is why the capacity is a power of two.
use vstd::prelude::*;
use vstd::arithmetic::power2::{pow2, lemma_pow2_pos, lemma_pow2_unfold, lemma_pow2_strictly_increases, lemma2_to64};
use vstd::bits::lemma_usize_low_bits_mask_is_mod;
use vstd::arithmetic::div_mod::{lemma_mod_equivalence, lemma_small_mod};

verus! {

/// `n` is a power of two.
pub open spec fn is_power_of_two(n: nat) -> bool {
    exists|k: nat| pow2(k) == n
}

/// A power of two is positive.
pub proof fn lemma_power_of_two_positive(n: nat)
    requires
        is_power_of_two(n),
    ensures
        n > 0,
{
    let k = choose|k: nat| pow2(k) == n;
    lemma_pow2_pos(k);
}

/// A power of two that fits in a `usize` has an exponent below `usize::BITS`.
pub proof fn lemma_pow2_exponent_fits(k: nat)
    requires
        pow2(k) <= usize::MAX,
    ensures
        k < usize::BITS,
{
    lemma2_to64();
    if k >= usize::BITS {
        if k > usize::BITS {
            lemma_pow2_strictly_increases(usize::BITS as nat, k);
        }
    }
}

/// Masking a position with `capacity - 1` selects the slot `pos % capacity`.
pub proof fn lemma_mask_is_mod(pos: usize, capacity: usize)
    requires
        is_power_of_two(capacity as nat),
    ensures
        capacity > 0,
        pos & ((capacity - 1) as usize) == pos % capacity,
        pos % capacity < capacity,
{
    let k = choose|k: nat| pow2(k) == capacity as nat;
    lemma_power_of_two_positive(capacity as nat);
    lemma_pow2_exponent_fits(k);
    lemma_usize_low_bits_mask_is_mod(pos, k);
}

/// The capacity a buffer asked for `requested` samples gets: the smallest
/// power of two that is at least `requested`.
pub open spec fn rounded_capacity(requested: nat, capacity: nat) -> bool {
    &&& is_power_of_two(capacity)
    &&& requested <= capacity
    &&& (capacity == 1 || capacity < 2 * requested)
}

/// Largest request whose rounded capacity still fits in a `usize`.
pub open spec fn max_request() -> nat {
    (usize::MAX / 2 + 1) as nat
}

/// Rounds a requested capacity up to the next power of two.
///
/// A request of zero or one gives one.
pub fn round_capacity(requested: usize) -> (capacity: usize)
    requires
        requested <= max_request(),
    ensures
        rounded_capacity(requested as nat, capacity as nat),
{
    let mut capacity: usize = 1;
    let ghost mut k: nat = 0;
    proof {
        lemma_pow2_pos(0);
        lemma2_to64();
    }
    while capacity < requested
        invariant
            pow2(k) == capacity,
            capacity == 1 || capacity < 2 * requested,
            requested <= max_request(),
            1 <= capacity,
        decreases 2 * requested - capacity,
    {
        proof {
            lemma_pow2_unfold(k + 1);
        }
        capacity = capacity * 2;
        proof {
            k = k + 1;
        }
    }
    assert(pow2(k) == capacity as nat);
    capacity
}

/// Number of unread samples between a read position and a write position;
/// zero when the read position is not behind the write position.
pub open spec fn occupancy(write_pos: nat, read_pos: nat) -> nat {
    if read_pos <= write_pos {
        (write_pos - read_pos) as nat
    } else {
        0
    }
}

/// Unread samples between `read_pos` and `write_pos`.
pub fn available_between(write_pos: usize, read_pos: usize) -> (n: usize)
    ensures
        n == occupancy(write_pos as nat, read_pos as nat),
{
    write_pos.saturating_sub(read_pos)
}

/// Puts the result of one pop into `buf`: a sample goes to index `count`
/// and filling goes on; `None` leaves `buf` as it is and ends the filling.
pub fn fill_step(buf: &mut [u32], count: usize, popped: Option<u32>) -> (more: bool)
    requires
        count < old(buf)@.len(),
    ensures
        popped matches Some(v) ==> more && final(buf)@ == old(buf)@.update(count as int, v),
        popped is None ==> !more && final(buf)@ == old(buf)@,
{
    match popped {
        Some(v) => {
            buf[count] = v;
            true
        },
        None => false,
    }
}

/// Two positions less than `capacity` apart use different slots.
pub proof fn lemma_distinct_slots(lo: nat, hi: nat, capacity: nat)
    requires
        lo < hi < lo + capacity,
    ensures
        lo % capacity != hi % capacity,
{
    lemma_mod_equivalence(hi as int, lo as int, capacity as int);
    lemma_small_mod((hi - lo) as nat, capacity);
}

/// The observable state of a ring buffer between two operations.
///
/// `history` holds every sample ever pushed, so its length is the write
/// position; `slots` is the backing storage, in which position `p` lives in
/// slot `p % capacity`.
pub struct RingModel {
    pub capacity: nat,
    pub read_pos: nat,
    pub slots: Seq<u32>,
    pub history: Seq<u32>,
    pub overwrites: nat,
    pub popped: nat,
}

impl RingModel {
    /// Number of samples pushed so far.
    pub open spec fn write_pos(self) -> nat {
        self.history.len()
    }

    /// The invariant every reachable state keeps.
    pub open spec fn wf(self) -> bool {
        &&& is_power_of_two(self.capacity)
        &&& self.slots.len() == self.capacity
        &&& self.read_pos <= self.write_pos() <= self.read_pos + self.capacity
        &&& self.read_pos == self.overwrites + self.popped
        &&& forall|p: nat|
            self.read_pos <= p < self.write_pos() ==> #[trigger] self.slots[(p % self.capacity) as int]
                == self.history[p as int]
    }

    /// Samples that a consumer would read, oldest first.
    pub open spec fn contents(self) -> Seq<u32> {
        Seq::new(
            occupancy(self.write_pos(), self.read_pos),
            |i: int| self.slots[((self.read_pos + i) % (self.capacity as int))],
        )
    }

    /// Number of unread samples.
    pub open spec fn available(self) -> nat {
        occupancy(self.write_pos(), self.read_pos)
    }

    /// A fresh buffer of the given (already rounded) capacity.
    pub open spec fn initial(capacity: nat) -> RingModel {
        RingModel {
            capacity,
            read_pos: 0,
            slots: Seq::new(capacity, |i: int| 0u32),
            history: Seq::empty(),
            overwrites: 0,
            popped: 0,
        }
    }

    /// Pushing a sample: when no slot is free the oldest unread sample is
    /// discarded first, then the sample is stored at the write position.
    pub open spec fn push(self, sample: u32) -> RingModel {
        let room = occupancy(self.write_pos(), self.read_pos) < self.capacity;
        let read_pos = if room { self.read_pos } else { self.read_pos + 1 };
        let overwrites = if room { self.overwrites } else { self.overwrites + 1 };
        RingModel {
            capacity: self.capacity,
            read_pos,
            slots: self.slots.update((self.write_pos() % self.capacity) as int, sample),
            history: self.history.push(sample),
            overwrites,
            popped: self.popped,
        }
    }

    /// Pushing the samples of `samples`, in order.
    pub open spec fn push_all(self, samples: Seq<u32>) -> RingModel
        decreases samples.len(),
    {
        if samples.len() == 0 {
            self
        } else {
            self.push(samples[0]).push_all(samples.drop_first())
        }
    }

    /// State after a pop.
    pub open spec fn pop_state(self) -> RingModel {
        if self.write_pos() <= self.read_pos {
            self
        } else {
            RingModel { read_pos: self.read_pos + 1, popped: self.popped + 1, ..self }
        }
    }

    /// Sample returned by a pop.
    pub open spec fn pop_result(self) -> Option<u32> {
        if self.write_pos() <= self.read_pos {
            None
        } else {
            Some(self.slots[(self.read_pos % self.capacity) as int])
        }
    }
}

/// The unread samples are exactly the most recent pushes that were neither
/// popped nor overwritten, in push order.
pub proof fn lemma_contents_window(m: RingModel)
    requires
        m.wf(),
    ensures
        m.contents() =~= m.history.subrange(m.read_pos as int, m.write_pos() as int),
        m.available() <= m.capacity,
{
    assert forall|i: int| 0 <= i < m.contents().len() implies m.contents()[i]
        == m.history[m.read_pos + i] by {
        let p = (m.read_pos + i) as nat;
        assert(m.slots[(p % m.capacity) as int] == m.history[p as int]);
    }
}

/// Accounting: every sample ever pushed is either still unread, was popped,
/// or was overwritten.
pub proof fn lemma_accounting(m: RingModel)
    requires
        m.wf(),
    ensures
        m.overwrites + m.popped + m.available() == m.write_pos(),
        m.available() <= m.capacity,
{
}

/// A fresh buffer is well formed and empty.
pub proof fn lemma_initial(capacity: nat)
    requires
        is_power_of_two(capacity),
    ensures
        RingModel::initial(capacity).wf(),
        RingModel::initial(capacity).contents() =~= Seq::<u32>::empty(),
        RingModel::initial(capacity).overwrites == 0,
{
}

/// Push: FIFO while there is room, overwrite-oldest when full.
pub proof fn lemma_push(m: RingModel, sample: u32)
    requires
        m.wf(),
    ensures
        m.push(sample).wf(),
        m.available() < m.capacity ==> m.push(sample).contents() =~= m.contents().push(sample)
            && m.push(sample).overwrites == m.overwrites,
        m.available() == m.capacity ==> m.push(sample).contents()
            =~= m.contents().drop_first().push(sample) && m.push(sample).overwrites
            == m.overwrites + 1,
        m.push(sample).popped == m.popped,
        m.push(sample).history == m.history.push(sample),
{
    let n = m.push(sample);
    let cap = m.capacity;
    let w = m.write_pos();
    lemma_power_of_two_positive(cap);
    assert forall|p: nat| n.read_pos <= p < n.write_pos() implies #[trigger] n.slots[(p % cap) as int]
        == n.history[p as int] by {
        if p < w {
            lemma_distinct_slots(p, w, cap);
            assert(m.slots[(p % cap) as int] == m.history[p as int]);
        }
    }
    lemma_contents_window(m);
    lemma_contents_window(n);
}

/// Pop: the oldest unread sample, or `None` when nothing is unread.
pub proof fn lemma_pop(m: RingModel)
    requires
        m.wf(),
    ensures
        m.pop_state().wf(),
        m.available() == 0 ==> m.pop_result() == None::<u32> && m.pop_state() == m,
        m.available() > 0 ==> m.pop_result() == Some(m.contents()[0]) && m.pop_result()
            == Some(m.history[m.read_pos as int]) && m.pop_state().contents()
            =~= m.contents().drop_first() && m.pop_state().popped == m.popped + 1
            && m.pop_state().overwrites == m.overwrites && m.pop_state().history == m.history,
{
    lemma_contents_window(m);
    lemma_contents_window(m.pop_state());
    if m.available() > 0 {
        assert(m.slots[(m.read_pos % m.capacity) as int] == m.history[m.read_pos as int]);
    }
}

/// Pushing a run of samples: the unread samples become the last
/// `capacity` (or all) of the old unread samples followed by the run, and
/// every sample that no longer fits is counted as overwritten.
pub proof fn lemma_push_all(m: RingModel, samples: Seq<u32>)
    requires
        m.wf(),
    ensures
        ({
            let all = m.contents() + samples;
            let keep = if all.len() < m.capacity { all.len() } else { m.capacity };
            let n = m.push_all(samples);
            &&& n.wf()
            &&& n.contents() =~= all.subrange(all.len() - keep, all.len() as int)
            &&& n.overwrites == m.overwrites + (all.len() - keep)
            &&& n.popped == m.popped
            &&& n.history =~= m.history + samples
            &&& n.capacity == m.capacity
        }),
    decreases samples.len(),
{
    lemma_contents_window(m);
    let all = m.contents() + samples;
    if samples.len() == 0 {
        assert(all =~= m.contents());
        assert(m.push_all(samples) == m);
    } else {
        let x = samples[0];
        let rest = samples.drop_first();
        let m1 = m.push(x);
        lemma_push(m, x);
        lemma_push_all(m1, rest);
        let all1 = m1.contents() + rest;
        let full = m.available() == m.capacity;
        if full {
            assert(all1 =~= all.subrange(1, all.len() as int));
        } else {
            assert(all1 =~= all);
        }
        assert(m.push_all(samples) == m1.push_all(rest));
        assert(m.history + samples =~= m1.history + rest);
    }
}

} // verus!
