//! A fixed-capacity FIFO queue over a circular buffer.
//!
//! The storage holds one slot more than the requested capacity: the reserved
//! slot keeps "full" and "empty" distinguishable by comparing `head` and
//! `tail` alone, with no separate count field. Exactly the slots in the
//! circular half-open range `[head, tail)` hold elements; every other slot
//! is vacant and is never read.
use crate::Queue;
use vstd::prelude::*;

verus! {

/// A FIFO queue of fixed capacity backed by one contiguous buffer.
///
/// `head` is the index of the oldest occupied slot (equal to `tail` when the
/// queue is empty) and `tail` is the index of the next slot to write. Both
/// advance with wraparound. A push on a full queue silently discards the
/// item: callers that need to detect loss check [`BoundQueue::is_full`]
/// first.
pub struct BoundQueue<T> {
    slots: Vec<Option<T>>,
    head: usize,
    tail: usize,
}

impl<T> BoundQueue<T> {
    /// The raw number of slots allocated: the requested capacity plus the
    /// one reserved slot.
    pub closed spec fn raw_cap(&self) -> int {
        self.slots@.len() as int
    }

    /// The number of elements currently held.
    pub closed spec fn count(&self) -> int {
        if self.head <= self.tail {
            self.tail - self.head
        } else {
            self.tail - self.head + self.raw_cap()
        }
    }

    /// The physical slot index of the `k`-th oldest element.
    pub closed spec fn slot_of(&self, k: int) -> int {
        if self.head + k < self.raw_cap() {
            self.head + k
        } else {
            self.head + k - self.raw_cap()
        }
    }

    /// Whether physical slot `i` lies in the occupied circular range
    /// `[head, tail)`.
    pub closed spec fn live(&self, i: int) -> bool {
        if self.head <= self.tail {
            self.head <= i < self.tail
        } else {
            self.head <= i < self.raw_cap() || 0 <= i < self.tail
        }
    }

    /// Creates a queue that can hold `size` elements, allocating `size + 1`
    /// slots so that the full and empty states stay distinguishable.
    pub fn new(size: usize) -> (q: Self)
        requires
            size < usize::MAX,
        ensures
            q.wf(),
            q.contents() == Seq::<T>::empty(),
            q.cap_limit() == Some(size as nat),
            q.raw_cap() == size + 1,
    {
        let n = size + 1;
        let mut slots: Vec<Option<T>> = Vec::with_capacity(n);
        let mut i: usize = 0;
        while i < n
            invariant
                i <= n,
                slots@.len() == i,
                forall|j: int| 0 <= j < i ==> slots@[j] is None,
            decreases n - i,
        {
            slots.push(None);
            i += 1;
        }
        let q = BoundQueue { slots, head: 0, tail: 0 };
        proof {
            assert(q.contents() =~= Seq::<T>::empty());
        }
        q
    }

    /// The raw allocation size: the requested capacity plus the reserved
    /// slot, not the number of elements the queue can hold.
    pub fn cap(&self) -> (r: usize)
        ensures
            r == self.raw_cap(),
            self.cap_limit() == Some((r - 1) as nat),
    {
        self.slots.len()
    }

    /// The capacity limit is exactly one less than the raw allocation: the
    /// reserved slot is never occupied.
    pub proof fn lemma_cap_limit(&self)
        ensures
            self.cap_limit() == Some((self.raw_cap() - 1) as nat),
    {
    }

    /// Whether the queue has reached its capacity, so that the next push
    /// would discard its item. The comparison is modular: it also reports
    /// full when `tail` sits in the last slot and `head` is at index zero.
    pub fn is_full(&self) -> (r: bool)
        requires
            self.wf(),
        ensures
            r <==> self.contents().len() + 1 == self.raw_cap(),
            r <==> Some(self.contents().len() as nat) == self.cap_limit(),
    {
        let cap = self.slots.len();
        let mut next = self.tail + 1;
        if next >= cap {
            next = 0;
        }
        next == self.head
    }
}

impl<T> Queue<T> for BoundQueue<T> {
    closed spec fn wf(&self) -> bool {
        &&& self.slots@.len() >= 1
        &&& self.head < self.slots@.len()
        &&& self.tail < self.slots@.len()
        &&& forall|i: int|
            0 <= i < self.slots@.len() ==> ((#[trigger] self.slots@[i]) is Some <==> self.live(i))
    }

    closed spec fn contents(&self) -> Seq<T> {
        Seq::new(self.count() as nat, |k: int| self.slots@[self.slot_of(k)]->0)
    }

    closed spec fn cap_limit(&self) -> Option<nat> {
        Some((self.raw_cap() - 1) as nat)
    }

    fn push(&mut self, item: T) {
        let cap = self.slots.len();
        let mut next = self.tail + 1;
        if next >= cap {
            next = 0;
        }
        if next == self.head {
            // The queue is full: the item is dropped here, with no signal.
            return;
        }
        let ghost prev = *self;
        let tail = self.tail;
        let slot = &mut self.slots[tail];
        *slot = Some(item);
        self.tail = next;
        proof {
            assert forall|k: int| 0 <= k < prev.count() implies prev.slot_of(k) != prev.tail by {
            }
            assert(self.contents() =~= prev.contents().push(item));
        }
    }

    fn pop(&mut self) -> (r: Option<T>) {
        if self.head == self.tail {
            return None;
        }
        let cap = self.slots.len();
        let mut next = self.head + 1;
        if next >= cap {
            next = 0;
        }
        let ghost prev = *self;
        let head = self.head;
        let slot = &mut self.slots[head];
        let v = slot.take();
        self.head = next;
        proof {
            assert(prev.live(prev.head as int));
            assert forall|k: int| 0 <= k < self.count() implies self.slot_of(k) != prev.head
                && self.slot_of(k) == prev.slot_of(k + 1) by {
            }
            assert(self.contents() =~= prev.contents().drop_first());
            assert(prev.contents().first() == prev.slots@[prev.head as int]->0);
        }
        Some(v.unwrap())
    }

    fn is_empty(&self) -> (r: bool) {
        self.head == self.tail
    }
}

impl<T> BoundQueue<T> {
    /// A non-owning forward iterator over the elements, oldest first.
    pub fn iter(&self) -> (it: Iter<'_, T>)
        requires
            self.wf(),
        ensures
            it.wf(),
            it.remaining() == self.contents(),
    {
        let it = Iter { q: self, pos: self.head, visited: Ghost(0) };
        proof {
            assert(it.remaining() =~= self.contents());
        }
        it
    }

    /// An owning iterator that drains the queue by repeated pops.
    pub fn into_iter(self) -> (it: IntoIter<T>)
        requires
            self.wf(),
        ensures
            it.wf(),
            it.remaining() == self.contents(),
    {
        IntoIter(self)
    }
}

/// Capacity-boundary law: pushing as many items as the requested capacity
/// into an empty queue succeeds and fills it, so that `is_full()` reports
/// true; pushing one item more is a silent no-op that leaves the contents
/// exactly the filling items, in order.
pub fn fill_then_overflow<T>(q: &mut BoundQueue<T>, items: Vec<T>, extra: T) -> (full: bool)
    requires
        old(q).wf(),
        old(q).contents().len() == 0,
        items@.len() + 1 == old(q).raw_cap(),
    ensures
        full == true,
        final(q).wf(),
        final(q).contents() == items@,
{
    let ghost items_seq = items@;
    crate::push_all(q, items);
    proof {
        assert(q.contents() =~= items_seq);
    }
    let full = q.is_full();
    q.push(extra);
    full
}

/// A non-owning forward iterator over a [`BoundQueue`]: it walks the
/// occupied slots from `head` towards `tail` with the same wraparound rule
/// as `pop`, and stops at `tail` without visiting the reserved gap slot.
pub struct Iter<'a, T> {
    q: &'a BoundQueue<T>,
    pos: usize,
    visited: Ghost<int>,
}

impl<'a, T> Iter<'a, T> {
    /// The iterator points at the `visited`-th oldest element (or at `tail`
    /// once every element has been yielded).
    pub closed spec fn wf(&self) -> bool {
        &&& self.q.wf()
        &&& 0 <= self.visited@ <= self.q.count()
        &&& self.pos == self.q.slot_of(self.visited@)
    }

    /// The elements not yet yielded, oldest first.
    pub closed spec fn remaining(&self) -> Seq<T> {
        self.q.contents().skip(self.visited@)
    }

    /// Yields a reference to the next element, oldest first, or `None` once
    /// every element has been seen.
    pub fn next(&mut self) -> (r: Option<&'a T>)
        requires
            old(self).wf(),
        ensures
            final(self).wf(),
            old(self).remaining().len() == 0 ==> r is None && final(self).remaining()
                == old(self).remaining(),
            old(self).remaining().len() > 0 ==> r is Some && *r->0
                == old(self).remaining().first() && final(self).remaining()
                == old(self).remaining().drop_first(),
    {
        if self.pos == self.q.tail {
            proof {
                assert(self.visited@ == self.q.count());
            }
            return None;
        }
        let c = self.pos;
        proof {
            assert(self.q.live(c as int));
        }
        let r = self.q.slots[c].as_ref();
        let cap = self.q.slots.len();
        let mut next = c + 1;
        if next >= cap {
            next = 0;
        }
        self.pos = next;
        proof {
            self.visited@ = self.visited@ + 1;
            assert(self.remaining() =~= old(self).remaining().drop_first());
        }
        Some(r.unwrap())
    }
}

/// An owning iterator over a [`BoundQueue`]: each step pops the oldest
/// element, so the queue drains as it is walked.
pub struct IntoIter<T>(BoundQueue<T>);

impl<T> IntoIter<T> {
    /// Structural well-formedness of the drained queue.
    pub closed spec fn wf(&self) -> bool {
        self.0.wf()
    }

    /// The elements not yet yielded, oldest first.
    pub closed spec fn remaining(&self) -> Seq<T> {
        self.0.contents()
    }

    /// Pops and returns the oldest element still held, or `None` once the
    /// queue has drained.
    pub fn next(&mut self) -> (r: Option<T>)
        requires
            old(self).wf(),
        ensures
            final(self).wf(),
            old(self).remaining().len() == 0 ==> r is None && final(self).remaining()
                == old(self).remaining(),
            old(self).remaining().len() > 0 ==> r == Some(old(self).remaining().first())
                && final(self).remaining() == old(self).remaining().drop_first(),
    {
        self.0.pop()
    }
}

/// A mutable forward iterator over a [`BoundQueue`]: it walks the occupied
/// slots from `head` towards `tail` exactly as [`Iter`] does, handing out
/// exclusive references so elements can be updated in place. References are
/// handed out one at a time: each borrow ends before the next call to
/// `next`, so two yielded references are never live together.
pub struct IterMut<'a, T> {
    q: &'a mut BoundQueue<T>,
    pos: usize,
    visited: Ghost<int>,
}

impl<'a, T> IterMut<'a, T> {
    /// The iterator points at the `visited`-th oldest element (or at `tail`
    /// once every element has been yielded).
    pub closed spec fn wf(&self) -> bool {
        &&& self.q.wf()
        &&& 0 <= self.visited@ <= self.q.count()
        &&& self.pos == self.q.slot_of(self.visited@)
    }

    /// The full contents of the borrowed queue, oldest first.
    pub closed spec fn elements(&self) -> Seq<T> {
        self.q.contents()
    }

    /// How many elements have been yielded so far.
    pub closed spec fn cursor(&self) -> int {
        self.visited@
    }

    /// The elements not yet yielded, oldest first.
    pub open spec fn remaining(&self) -> Seq<T> {
        self.elements().skip(self.cursor())
    }

    /// Yields an exclusive reference to the next element, oldest first, or
    /// `None` once every element has been seen. A write through the yielded
    /// reference replaces exactly the element at the yielded position: the
    /// iterator's queue resolves to its old contents with that position
    /// updated to whatever the caller leaves in the reference.
    pub fn next(&mut self) -> (r: Option<&mut T>)
        requires
            old(self).wf(),
        ensures
            final(self).wf(),
            old(self).remaining().len() == 0 ==> r is None
                && final(self).elements() == old(self).elements()
                && final(self).cursor() == old(self).cursor(),
            old(self).remaining().len() > 0 ==> r is Some && *r.unwrap()
                == old(self).remaining().first()
                && final(self).cursor() == old(self).cursor() + 1
                && final(self).elements() == old(self).elements().update(
                old(self).cursor(),
                *final(r.unwrap()),
            ),
    {
        if self.pos == self.q.tail {
            proof {
                assert(self.visited@ == self.q.count());
            }
            return None;
        }
        let c = self.pos;
        proof {
            assert(self.q.live(c as int));
        }
        let cap = self.q.slots.len();
        let mut next = c + 1;
        if next >= cap {
            next = 0;
        }
        self.pos = next;
        proof {
            self.visited@ = self.visited@ + 1;
        }
        let slot = &mut self.q.slots[c];
        Some(slot.as_mut().unwrap())
    }
}

impl<T> BoundQueue<T> {
    /// A mutable forward iterator over the elements, oldest first.
    pub fn iter_mut(&mut self) -> (it: IterMut<'_, T>)
        requires
            old(self).wf(),
        ensures
            it.wf(),
            it.elements() == old(self).contents(),
            it.cursor() == 0,
            it.remaining() == old(self).contents(),
    {
        let head = self.head;
        let it = IterMut { q: self, pos: head, visited: Ghost(0) };
        proof {
            assert(it.remaining() =~= it.q.contents());
        }
        it
    }

    /// An exclusive reference to the `i`-th oldest element. A write through
    /// the reference replaces exactly that element: the queue resolves to
    /// its old contents with position `i` updated to whatever the caller
    /// leaves in the reference, and a later pop that reaches that position
    /// returns the written value.
    pub fn get_mut(&mut self, i: usize) -> (r: &mut T)
        requires
            old(self).wf(),
            i < old(self).contents().len(),
        ensures
            *r == old(self).contents()[i as int],
            final(self).wf(),
            final(self).cap_limit() == old(self).cap_limit(),
            final(self).contents() == old(self).contents().update(i as int, *final(r)),
    {
        let cap = self.slots.len();
        let p = if i < cap - self.head {
            self.head + i
        } else {
            i - (cap - self.head)
        };
        proof {
            assert(p == self.slot_of(i as int));
            assert(self.live(p as int));
        }
        let slot = &mut self.slots[p];
        slot.as_mut().unwrap()
    }
}

} // verus!
