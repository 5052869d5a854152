//! Fixed-capacity histories: the per-second throughput ring and the buffer of
//! recent records. Both keep their oldest item at index 0 and, once full,
//! drop exactly that item to make room for a new one.

use crate::capture::PacketData;
use std::collections::VecDeque;
use vstd::prelude::*;

verus! {

broadcast use vstd::std_specs::vecdeque::group_vec_dequeue_axioms;

/// Per-second byte totals kept by the throughput ring.
pub const RING_CAPACITY: usize = 200;

/// Records kept by the record buffer.
pub const BUFFER_CAPACITY: usize = 1000;

/// `s` with `x` appended, then the oldest items dropped until at most `cap`
/// remain.
pub open spec fn slide<T>(s: Seq<T>, cap: nat, x: T) -> Seq<T> {
    if s.len() < cap {
        s.push(x)
    } else {
        s.push(x).skip(s.len() + 1 - cap)
    }
}

/// An ordered history of at most `capacity` items, oldest first.
pub struct SlidingWindow<T> {
    items: VecDeque<T>,
    capacity: usize,
}

/// The throughput ring: one byte total per elapsed second, oldest first.
pub type ThroughputRing = SlidingWindow<u64>;

/// The buffer of recently delivered records, oldest first.
pub type RecordBuffer = SlidingWindow<PacketData>;

impl<T> View for SlidingWindow<T> {
    type V = Seq<T>;

    closed spec fn view(&self) -> Seq<T> {
        self.items@
    }
}

impl<T> SlidingWindow<T> {
    /// The most items the window keeps.
    pub closed spec fn cap(&self) -> nat {
        self.capacity as nat
    }

    /// The capacity is positive and never exceeded.
    pub closed spec fn wf(&self) -> bool {
        0 < self.capacity && self.items@.len() <= self.capacity
    }

    /// An empty window of the given capacity.
    pub fn new(capacity: usize) -> (r: Self)
        requires
            capacity > 0,
        ensures
            r.wf(),
            r.cap() == capacity,
            r@ == Seq::<T>::empty(),
    {
        SlidingWindow { items: VecDeque::new(), capacity }
    }

    /// The most items the window keeps.
    pub fn capacity(&self) -> (r: usize)
        ensures
            r == self.cap(),
    {
        self.capacity
    }

    /// The number of items held.
    pub fn len(&self) -> (r: usize)
        ensures
            r == self@.len(),
    {
        self.items.len()
    }

    /// The item at `i`, counting from the oldest.
    pub fn get(&self, i: usize) -> (r: &T)
        requires
            i < self@.len(),
        ensures
            *r == self@[i as int],
    {
        &self.items[i]
    }

    /// Appends `x`; where the window is full, the oldest item leaves first.
    pub fn push(&mut self, x: T)
        requires
            old(self).wf(),
        ensures
            final(self).wf(),
            final(self).cap() == old(self).cap(),
            final(self)@ == slide(old(self)@, old(self).cap(), x),
            final(self)@.len() <= final(self).cap(),
            old(self)@.len() == old(self).cap() ==> final(self)@ == old(self)@.drop_first().push(
                x,
            ),
            old(self)@.len() < old(self).cap() ==> final(self)@ == old(self)@.push(x),
    {
        let ghost before = self.items@;
        if self.items.len() >= self.capacity {
            let _ = self.items.pop_front();
        }
        self.items.push_back(x);
        proof {
            if before.len() >= self.capacity {
                assert(before.push(x).skip(before.len() + 1 - self.capacity) =~= before.subrange(
                    1,
                    before.len() as int,
                ).push(x));
                assert(before.drop_first() =~= before.subrange(1, before.len() as int));
            }
        }
    }

    /// Removes every item; the capacity stays.
    pub fn clear(&mut self)
        requires
            old(self).wf(),
        ensures
            final(self).wf(),
            final(self).cap() == old(self).cap(),
            final(self)@ == Seq::<T>::empty(),
    {
        self.items.clear();
    }
}

impl SlidingWindow<u64> {
    /// A full ring of `capacity` zero totals.
    pub fn zero_filled(capacity: usize) -> (r: Self)
        requires
            capacity > 0,
        ensures
            r.wf(),
            r.cap() == capacity,
            r@ == Seq::new(capacity as nat, |i: int| 0u64),
    {
        let mut items: VecDeque<u64> = VecDeque::new();
        let mut i: usize = 0;
        while i < capacity
            invariant
                i <= capacity,
                items@ == Seq::new(i as nat, |k: int| 0u64),
            decreases capacity - i,
        {
            items.push_back(0);
            i = i + 1;
            assert(items@ =~= Seq::new(i as nat, |k: int| 0u64));
        }
        SlidingWindow { items, capacity }
    }

    /// The totals, oldest first.
    pub fn to_vec(&self) -> (r: Vec<u64>)
        ensures
            r@ == self@,
    {
        let n = self.items.len();
        let mut v: Vec<u64> = Vec::new();
        let mut i: usize = 0;
        while i < n
            invariant
                n == self@.len(),
                i <= n,
                v@ == self@.take(i as int),
            decreases n - i,
        {
            v.push(self.items[i]);
            i = i + 1;
            assert(v@ =~= self@.take(i as int));
        }
        assert(self@.take(n as int) =~= self@);
        v
    }
}

/// Pushing onto a full window drops exactly its oldest item and keeps the
/// length at the capacity; pushing onto one with room drops nothing. Either
/// way the length never exceeds the capacity.
pub proof fn lemma_slide_fifo<T>(s: Seq<T>, cap: nat, x: T)
    requires
        0 < cap,
        s.len() <= cap,
    ensures
        slide(s, cap, x).len() <= cap,
        slide(s, cap, x).last() == x,
        s.len() == cap ==> slide(s, cap, x) == s.drop_first().push(x),
        s.len() < cap ==> slide(s, cap, x) == s.push(x),
        forall|i: int|
            0 <= i < slide(s, cap, x).len() - 1 ==> slide(s, cap, x)[i] == s[i + s.len() + 1
                - slide(s, cap, x).len()],
{
    if s.len() == cap {
        assert(s.push(x).skip(s.len() + 1 - cap) =~= s.drop_first().push(x));
    }
}

} // verus!
