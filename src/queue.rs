//! A fixed-capacity ring buffer of pending actions that drops its oldest item when full.
//!
//! The occupied slots run from `head` to `tail`, wrapping at `capacity`. An empty queue has
//! `head == tail` and nothing in `buffer[head]`.
use vstd::prelude::*;

verus! {

/// The largest capacity that a queue can have.
pub const MAX_CAPACITY: usize = 1000;

pub struct Queue<T> {
    pub capacity: usize,
    pub head: usize,
    pub tail: usize,
    pub buffer: Vec<Option<T>>,
}

/// The queue's contents after pushing `x` onto `q`: when `q` already holds `cap` items, its
/// oldest one is dropped.
pub open spec fn pushed<T>(q: Seq<T>, x: T, cap: nat) -> Seq<T> {
    if q.len() < cap {
        q.push(x)
    } else {
        q.drop_first().push(x)
    }
}

/// The queue's contents after pushing each of `xs` in order.
pub open spec fn pushed_all<T>(q: Seq<T>, xs: Seq<T>, cap: nat) -> Seq<T>
    decreases xs.len(),
{
    if xs.len() == 0 {
        q
    } else {
        pushed(pushed_all(q, xs.drop_last(), cap), xs.last(), cap)
    }
}

impl<T> Queue<T> {
    /// Distance from `head` to slot `i`, going forward round the ring.
    pub open spec fn offset(&self, i: int) -> int {
        if i >= self.head {
            i - self.head
        } else {
            i + self.capacity - self.head
        }
    }

    /// The slot that holds the item at position `k` from the front.
    pub open spec fn slot(&self, k: int) -> int {
        if self.head + k < self.capacity {
            self.head + k
        } else {
            self.head + k - self.capacity
        }
    }

    /// The number of items held.
    pub open spec fn size(&self) -> nat {
        if self.buffer@[self.head as int] is None {
            0
        } else {
            (self.offset(self.tail as int) + 1) as nat
        }
    }

    /// Well-formedness: the capacity is in range, the buffer has one slot per unit of capacity,
    /// and exactly the slots from `head` to `tail` hold items.
    pub open spec fn wf(&self) -> bool {
        &&& 1 <= self.capacity <= MAX_CAPACITY
        &&& self.buffer@.len() == self.capacity
        &&& self.head < self.capacity
        &&& self.tail < self.capacity
        &&& (self.buffer@[self.head as int] is None ==> self.head == self.tail)
        &&& forall|i: int|
            0 <= i < self.capacity ==> (#[trigger] self.buffer@[i] is Some <==> self.offset(i)
                < self.size())
    }

    /// The items held, oldest first.
    pub open spec fn items(&self) -> Seq<T> {
        Seq::new(self.size(), |k: int| self.buffer@[self.slot(k)]->0)
    }
}

impl<T> View for Queue<T> {
    type V = Seq<T>;

    open spec fn view(&self) -> Seq<T> {
        self.items()
    }
}

impl<T> Queue<T> {
    /// An empty queue whose capacity is `capacity` clamped into `1..=MAX_CAPACITY`.
    pub fn new(capacity: usize) -> (r: Self)
        ensures
            r.wf(),
            r@ == Seq::<T>::empty(),
            r.capacity == (if capacity < 1 {
                1
            } else if capacity > MAX_CAPACITY {
                MAX_CAPACITY
            } else {
                capacity
            }),
            r.head == 0,
            r.tail == 0,
    {
        let cap: usize = if capacity < 1 {
            1
        } else if capacity > MAX_CAPACITY {
            MAX_CAPACITY
        } else {
            capacity
        };
        let buffer = Self::empty_buffer(cap);
        let q = Queue { capacity: cap, head: 0, tail: 0, buffer };
        assert(q@ =~= Seq::<T>::empty());
        q
    }

    fn empty_buffer(cap: usize) -> (r: Vec<Option<T>>)
        ensures
            r@.len() == cap,
            forall|i: int| 0 <= i < cap ==> #[trigger] r@[i] is None,
    {
        let mut buffer: Vec<Option<T>> = Vec::new();
        let mut i: usize = 0;
        while i < cap
            invariant
                i <= cap,
                buffer@.len() == i,
                forall|j: int| 0 <= j < i ==> #[trigger] buffer@[j] is None,
            decreases cap - i,
        {
            buffer.push(None);
            i = i + 1;
        }
        buffer
    }

    /// The slot of the oldest item.
    pub fn get_first_position(&self) -> (r: usize)
        ensures
            r == self.head,
    {
        self.head
    }

    /// The slot after the oldest item's, wrapping at the capacity.
    fn get_next_first_position(&self) -> (r: usize)
        requires
            self.head < self.capacity,
        ensures
            r == (if self.head + 1 >= self.capacity { 0 } else { self.head + 1 }),
    {
        let curr = self.get_first_position();
        let mut pos = curr + 1;
        if pos >= self.capacity {
            pos = 0;
        }
        pos
    }

    /// The slot of the newest item.
    pub fn get_curr_position(&self) -> (r: usize)
        ensures
            r == self.tail,
    {
        self.tail
    }

    /// The slot that the next push writes: `tail` itself when it is free, else the slot after.
    fn get_next_position(&self) -> (r: usize)
        requires
            self.buffer@.len() == self.capacity,
            self.tail < self.capacity,
        ensures
            r == (if self.buffer@[self.tail as int] is None {
                self.tail as int
            } else if self.tail + 1 >= self.capacity {
                0
            } else {
                self.tail + 1
            }),
    {
        let curr = self.get_curr_position();
        if self.buffer[curr].is_none() {
            return curr;
        }
        let mut pos = curr + 1;
        if pos >= self.capacity {
            pos = 0;
        }
        pos
    }

    /// Whether the slot after the newest item is taken, that is the ring has come round to
    /// the oldest item.
    fn has_wrapped(&self) -> (r: bool)
        requires
            self.buffer@.len() == self.capacity,
            self.tail < self.capacity,
        ensures
            r == (self.buffer@[(if self.buffer@[self.tail as int] is None {
                self.tail as int
            } else if self.tail + 1 >= self.capacity {
                0
            } else {
                self.tail + 1
            })] is Some),
    {
        let next = self.get_next_position();
        self.buffer[next].is_some()
    }

    /// Whether the queue holds no item.
    pub fn is_empty(&self) -> (r: bool)
        requires
            self.wf(),
        ensures
            r == (self@.len() == 0),
    {
        if self.capacity == 0 {
            return true;
        }
        if self.head == self.tail && self.buffer[self.head].is_none() {
            return true;
        }
        false
    }

    /// Appends `item` as the newest item; when the queue is full, the oldest item is dropped.
    pub fn push(&mut self, item: T)
        requires
            old(self).wf(),
        ensures
            final(self).wf(),
            final(self).capacity == old(self).capacity,
            final(self)@ == pushed(old(self)@, item, old(self).capacity as nat),
    {
        if self.capacity == 0 {
            return;
        }
        let ghost q0 = self@;
        let ghost n0 = self.size();
        let ghost h0 = self.head as int;
        let ghost t0 = self.tail as int;
        let ghost b0 = self.buffer@;
        let t = self.get_next_position();
        self.tail = t;
        self.buffer[t] = Some(item);
        if self.has_wrapped() {
            self.head = self.get_next_position();
        }
        proof {
            let cap = self.capacity as int;
            if n0 == 0 {
                assert(t == t0);
                assert(self.head == h0);
                assert(self.size() == 1);
                assert forall|i: int| 0 <= i < cap implies (#[trigger] self.buffer@[i] is Some
                    <==> self.offset(i) < self.size()) by {
                    if i != t {
                        assert(b0[i] is None);
                    }
                }
                assert(self@ =~= q0.push(item));
            } else if n0 < cap {
                assert(b0[t0] is Some);
                assert(self.head == h0);
                assert(self.offset(t as int) == n0);
                assert forall|i: int| 0 <= i < cap implies (#[trigger] self.buffer@[i] is Some
                    <==> self.offset(i) < self.size()) by {
                    if i != t {
                        assert(b0[i] == self.buffer@[i]);
                    }
                }
                assert forall|k: int| 0 <= k < n0 implies #[trigger] self@[k] == q0[k] by {
                    assert(self.slot(k) != t);
                }
                assert(self@ =~= q0.push(item));
            } else {
                assert(t == h0);
                assert forall|i: int| 0 <= i < cap implies (#[trigger] self.buffer@[i] is Some
                    <==> self.offset(i) < self.size()) by {
                    assert(b0[i] is Some);
                }
                assert forall|k: int| 0 <= k < n0 - 1 implies #[trigger] self@[k] == q0[k + 1] by {
                }
                assert(self@ =~= q0.drop_first().push(item));
            }
        }
    }

    /// Removes and returns the oldest item; `None` when the queue is empty.
    pub fn pop(&mut self) -> (r: Option<T>)
        requires
            old(self).wf(),
        ensures
            final(self).wf(),
            final(self).capacity == old(self).capacity,
            old(self)@.len() == 0 ==> r is None && final(self)@ == old(self)@,
            old(self)@.len() > 0 ==> r == Some(old(self)@[0]) && final(self)@ == old(
                self,
            )@.drop_first(),
    {
        if self.is_empty() {
            return None;
        }
        let ghost q0 = self@;
        let ghost n0 = self.size();
        let ghost h0 = self.head as int;
        let ghost b0 = self.buffer@;
        let first_pos = self.get_first_position();
        let item = self.buffer[first_pos].take();
        self.head = self.get_next_first_position();
        if self.is_empty_slots() || item.is_none() || self.buffer[self.head].is_none() {
            self.head = self.tail;
        }
        proof {
            let cap = self.capacity as int;
            assert(item == b0[h0]);
            if n0 == 1 {
                assert(self.tail == h0);
                assert forall|i: int| 0 <= i < cap implies #[trigger] self.buffer@[i] is None by {
                    if i != h0 {
                        assert(b0[i] is None);
                    }
                }
                assert(self.size() == 0);
                assert(self@ =~= q0.drop_first());
            } else {
                assert(self.head == self.slot_after(h0));
                assert(b0[self.head as int] is Some);
                assert(self.size() == n0 - 1);
                assert forall|i: int| 0 <= i < cap implies (#[trigger] self.buffer@[i] is Some
                    <==> self.offset(i) < self.size()) by {
                    if i != h0 {
                        assert(b0[i] == self.buffer@[i]);
                    }
                }
                assert forall|k: int| 0 <= k < n0 - 1 implies #[trigger] self@[k] == q0[k + 1] by {
                }
                assert(self@ =~= q0.drop_first());
            }
        }
        item
    }

    /// The ring slot that follows slot `i`.
    pub open spec fn slot_after(&self, i: int) -> int {
        if i + 1 >= self.capacity {
            0
        } else {
            i + 1
        }
    }

    /// Whether `head` and `tail` meet on a free slot, the ring's mark of emptiness.
    fn is_empty_slots(&self) -> (r: bool)
        requires
            self.buffer@.len() == self.capacity,
            self.head < self.capacity,
        ensures
            r == (self.head == self.tail && self.buffer@[self.head as int] is None),
    {
        self.head == self.tail && self.buffer[self.head].is_none()
    }

    /// The oldest item, left in place; `None` when the queue is empty.
    pub fn peek(&self) -> (r: Option<&T>)
        requires
            self.wf(),
        ensures
            match r {
                Some(x) => self@.len() > 0 && *x == self@[0],
                None => self@.len() == 0,
            },
    {
        self.buffer[self.get_first_position()].as_ref()
    }

    /// Removes every item.
    pub fn clear(&mut self)
        requires
            old(self).wf(),
        ensures
            final(self).wf(),
            final(self).capacity == old(self).capacity,
            final(self)@ == Seq::<T>::empty(),
            final(self).head == 0,
            final(self).tail == 0,
    {
        self.head = 0;
        self.tail = 0;
        self.buffer = Self::empty_buffer(self.capacity);
        assert(self@ =~= Seq::<T>::empty());
    }

    /// Pushes each of `items` in order, with the same dropping of the oldest as `push`.
    pub fn push_multiple(&mut self, items: Vec<T>)
        requires
            old(self).wf(),
        ensures
            final(self).wf(),
            final(self).capacity == old(self).capacity,
            final(self)@ == pushed_all(old(self)@, items@, old(self).capacity as nat),
    {
        let ghost all = items@;
        let n = items.len();
        let mut rest = items;
        let mut k: usize = 0;
        while rest.len() > 0
            invariant
                self.wf(),
                self.capacity == old(self).capacity,
                k <= all.len(),
                all.len() == n,
                rest@ == all.subrange(k as int, all.len() as int),
                self@ == pushed_all(old(self)@, all.subrange(0, k as int), self.capacity as nat),
            decreases rest@.len(),
        {
            assert(k < all.len());
            let x = rest.remove(0);
            self.push(x);
            proof {
                let done = all.subrange(0, k + 1);
                assert(done.drop_last() =~= all.subrange(0, k as int));
                assert(done.last() == x);
            }
            k = k + 1;
            assert(rest@ =~= all.subrange(k as int, all.len() as int));
        }
        assert(all.subrange(0, k as int) =~= all);
    }
}


/// Every well-formed queue, so every queue that `new`, `push`, `push_multiple`, `pop` and
/// `clear` leave, holds at most `capacity` items.
pub proof fn lemma_size_within_capacity<T>(q: Queue<T>)
    requires
        q.wf(),
    ensures
        q@.len() <= q.capacity,
{
}

/// The number of oldest items dropped when `total` items pass through a queue of capacity `cap`.
pub open spec fn evicted(total: int, cap: nat) -> int {
    if total > cap {
        total - cap
    } else {
        0
    }
}

/// FIFO within the window: after a run of pushes the queue holds what it held followed by the
/// pushed items, in order, less an evicted prefix of the oldest.
pub proof fn lemma_fifo_window<T>(q: Seq<T>, xs: Seq<T>, cap: nat)
    requires
        1 <= cap,
        q.len() <= cap,
    ensures
        pushed_all(q, xs, cap) == (q + xs).subrange(
            evicted(q.len() + xs.len() as int, cap),
            q.len() + xs.len() as int,
        ),
    decreases xs.len(),
{
    let all = q + xs;
    let total: int = q.len() + xs.len() as int;
    if xs.len() == 0 {
        assert(all.subrange(0, total as int) =~= q);
    } else {
        let before = q + xs.drop_last();
        lemma_fifo_window(q, xs.drop_last(), cap);
        assert(before =~= all.subrange(0, total - 1));
        let kept = before.subrange(evicted(total - 1, cap), total - 1);
        if kept.len() < cap {
            assert(kept.push(xs.last()) =~= all.subrange(evicted(total, cap), total as int));
        } else {
            assert(kept.drop_first().push(xs.last()) =~= all.subrange(
                evicted(total, cap),
                total as int,
            ));
        }
    }
}

/// Capacity: a run of pushes never leaves more than `cap` items, and once `cap` or more
/// items have been pushed with no pop, exactly the last `cap` of them remain, in order.
pub proof fn lemma_capacity_bound<T>(q: Seq<T>, xs: Seq<T>, cap: nat)
    requires
        1 <= cap,
        q.len() <= cap,
    ensures
        pushed_all(q, xs, cap).len() <= cap,
        xs.len() >= cap ==> pushed_all(q, xs, cap) == xs.subrange(
            xs.len() - cap,
            xs.len() as int,
        ),
{
    lemma_fifo_window(q, xs, cap);
    if xs.len() >= cap {
        let total: int = q.len() + xs.len() as int;
        assert((q + xs).subrange(evicted(total, cap), total) =~= xs.subrange(
            xs.len() - cap,
            xs.len() as int,
        ));
    }
}

} // verus!
