//! An unbounded FIFO queue over a chain of individually stored nodes.
//!
//! Each node holds one element and the slot index of its successor. Nodes
//! live in a slot arena: a vacated slot is remembered on a free list and
//! reused by a later push, so storage is recycled instead of growing with
//! every push. The queue owns the chain through `head`; `tail` is a plain
//! index alias of the last node, kept only to make append O(1), and is never
//! used to release a slot. Tearing the queue down needs no recursion: the
//! arena is released flat, never by cascading from node to node.
use crate::Queue;
use vstd::prelude::*;

verus! {

/// One link of the chain: an element and the slot index of its successor.
struct Node<T> {
    data: T,
    next: Option<usize>,
}

impl<T> Node<T> {
    /// A fresh node with no successor.
    fn new(data: T) -> (n: Self)
        ensures
            n.data == data,
            n.next is None,
    {
        Node { data, next: None }
    }
}

/// An unbounded FIFO queue: a singly linked chain of nodes in a slot arena.
///
/// `head` is the slot of the oldest node, `tail` the slot of the newest;
/// both are `None` exactly when the queue is empty. `len` caches the number
/// of nodes. The ghost `order` sequence lists the occupied slots oldest
/// first and ties the physical links to the logical FIFO order.
pub struct UnboundQueue<T> {
    slots: Vec<Option<Node<T>>>,
    free: Vec<usize>,
    head: Option<usize>,
    tail: Option<usize>,
    len: usize,
    order: Ghost<Seq<usize>>,
}

impl<T> UnboundQueue<T> {
    /// Creates an empty queue.
    pub fn new() -> (q: Self)
        ensures
            q.wf(),
            q.contents() == Seq::<T>::empty(),
            q.cap_limit() is None,
    {
        let q = UnboundQueue {
            slots: Vec::new(),
            free: Vec::new(),
            head: None,
            tail: None,
            len: 0,
            order: Ghost(Seq::empty()),
        };
        proof {
            assert(q.contents() =~= Seq::<T>::empty());
        }
        q
    }
}

impl<T> Queue<T> for UnboundQueue<T> {
    closed spec fn wf(&self) -> bool {
        &&& self.order@.len() == self.len
        &&& self.len + self.free@.len() <= self.slots@.len()
        &&& forall|k: int|
            0 <= k < self.len ==> (#[trigger] self.order@[k]) < self.slots@.len()
                && self.slots@[self.order@[k] as int] is Some
        &&& forall|k1: int, k2: int|
            0 <= k1 < k2 < self.len ==> self.order@[k1] != self.order@[k2]
        &&& forall|k: int|
            0 <= k < self.len - 1 ==> (#[trigger] self.slots@[self.order@[k] as int])->0.next
                == Some(self.order@[k + 1])
        &&& self.len > 0 ==> self.slots@[self.order@[self.len - 1] as int]->0.next is None
        &&& self.head == (if self.len == 0 {
            None::<usize>
        } else {
            Some(self.order@[0])
        })
        &&& self.tail == (if self.len == 0 {
            None::<usize>
        } else {
            Some(self.order@[self.len - 1])
        })
        &&& forall|j: int|
            0 <= j < self.free@.len() ==> (#[trigger] self.free@[j]) < self.slots@.len()
                && self.slots@[self.free@[j] as int] is None
        &&& forall|j1: int, j2: int|
            0 <= j1 < j2 < self.free@.len() ==> self.free@[j1] != self.free@[j2]
    }

    closed spec fn contents(&self) -> Seq<T> {
        Seq::new(self.len as nat, |k: int| self.slots@[self.order@[k] as int]->0.data)
    }

    closed spec fn cap_limit(&self) -> Option<nat> {
        None
    }

    fn push(&mut self, item: T) {
        let ghost prev = *self;
        let node = Node::new(item);
        let idx: usize;
        match self.free.pop() {
            Some(j) => {
                idx = j;
                let slot = &mut self.slots[j];
                *slot = Some(node);
            },
            None => {
                idx = self.slots.len();
                self.slots.push(Some(node));
            },
        }
        let ghost mid = *self;
        match self.tail {
            Some(t) => {
                let tslot = &mut self.slots[t];
                match tslot {
                    Some(n) => {
                        n.next = Some(idx);
                    },
                    None => {
                        proof {
                            assert(false);
                        }
                    },
                }
            },
            None => {
                self.head = Some(idx);
            },
        }
        self.tail = Some(idx);
        let total = self.slots.len();
        self.len = self.len + 1;
        proof {
            self.order@ = prev.order@.push(idx);
            assert forall|k: int| 0 <= k < prev.len implies prev.order@[k] != idx by {
                assert(prev.slots@[prev.order@[k] as int] is Some);
            }
            assert(self.contents() =~= prev.contents().push(item));
        }
    }

    fn pop(&mut self) -> (r: Option<T>) {
        match self.head {
            None => None,
            Some(h) => {
                let ghost prev = *self;
                let slot = &mut self.slots[h];
                let taken = slot.take();
                let node = taken.unwrap();
                self.head = node.next;
                if self.head.is_none() {
                    self.tail = None;
                }
                self.len = self.len - 1;
                self.free.push(h);
                proof {
                    self.order@ = prev.order@.drop_first();
                    assert forall|k: int| 0 <= k < self.len implies self.order@[k] != h by {
                        assert(prev.order@[0] != prev.order@[k + 1]);
                    }
                    assert forall|j: int| 0 <= j < prev.free@.len() implies prev.free@[j] != h by {
                        assert(prev.slots@[prev.free@[j] as int] is None);
                    }
                    assert(self.contents() =~= prev.contents().drop_first());
                    assert(prev.contents().first() == prev.slots@[h as int]->0.data);
                }
                Some(node.data)
            },
        }
    }

    fn is_empty(&self) -> (r: bool) {
        self.head.is_none()
    }
}

impl<T> UnboundQueue<T> {
    /// A non-owning forward iterator over the elements, oldest first.
    pub fn iter(&self) -> (it: Iter<'_, T>)
        requires
            self.wf(),
        ensures
            it.wf(),
            it.remaining() == self.contents(),
    {
        let it = Iter { q: self, pos: self.head, visited: Ghost(0) };
        proof {
            assert(it.remaining() =~= self.contents());
        }
        it
    }

    /// An owning iterator that drains the queue by repeated pops.
    pub fn into_iter(self) -> (it: IntoIter<T>)
        requires
            self.wf(),
        ensures
            it.wf(),
            it.remaining() == self.contents(),
    {
        IntoIter(self)
    }
}

/// A non-owning forward iterator over an [`UnboundQueue`]: it follows the
/// forward links from `head` without detaching anything.
pub struct Iter<'a, T> {
    q: &'a UnboundQueue<T>,
    pos: Option<usize>,
    visited: Ghost<int>,
}

impl<'a, T> Iter<'a, T> {
    /// The iterator points at the slot of the `visited`-th oldest node, or
    /// at nothing once every node has been yielded.
    pub closed spec fn wf(&self) -> bool {
        &&& self.q.wf()
        &&& 0 <= self.visited@ <= self.q.len
        &&& self.pos == (if self.visited@ == self.q.len {
            None::<usize>
        } else {
            Some(self.q.order@[self.visited@])
        })
    }

    /// The elements not yet yielded, oldest first.
    pub closed spec fn remaining(&self) -> Seq<T> {
        self.q.contents().skip(self.visited@)
    }

    /// Yields a reference to the next element, oldest first, or `None` once
    /// every element has been seen.
    pub fn next(&mut self) -> (r: Option<&'a T>)
        requires
            old(self).wf(),
        ensures
            final(self).wf(),
            old(self).remaining().len() == 0 ==> r is None && final(self).remaining()
                == old(self).remaining(),
            old(self).remaining().len() > 0 ==> r is Some && *r->0
                == old(self).remaining().first() && final(self).remaining()
                == old(self).remaining().drop_first(),
    {
        match self.pos {
            None => None,
            Some(i) => {
                let node = self.q.slots[i].as_ref().unwrap();
                self.pos = node.next;
                proof {
                    self.visited@ = self.visited@ + 1;
                    assert(self.remaining() =~= old(self).remaining().drop_first());
                }
                Some(&node.data)
            },
        }
    }
}

/// A mutable forward iterator over an [`UnboundQueue`]: it follows the
/// forward links from `head` exactly as [`Iter`] does, handing out exclusive
/// references so elements can be updated in place. References are handed out
/// one at a time: each borrow ends before the next call to `next`, so two
/// yielded references are never live together.
pub struct IterMut<'a, T> {
    q: &'a mut UnboundQueue<T>,
    pos: Option<usize>,
    visited: Ghost<int>,
}

impl<'a, T> IterMut<'a, T> {
    /// The iterator points at the slot of the `visited`-th oldest node, or
    /// at nothing once every node has been yielded.
    pub closed spec fn wf(&self) -> bool {
        &&& self.q.wf()
        &&& 0 <= self.visited@ <= self.q.len
        &&& self.pos == (if self.visited@ == self.q.len {
            None::<usize>
        } else {
            Some(self.q.order@[self.visited@])
        })
    }

    /// The full contents of the borrowed queue, oldest first.
    pub closed spec fn elements(&self) -> Seq<T> {
        self.q.contents()
    }

    /// How many elements have been yielded so far.
    pub closed spec fn cursor(&self) -> int {
        self.visited@
    }

    /// The elements not yet yielded, oldest first.
    pub open spec fn remaining(&self) -> Seq<T> {
        self.elements().skip(self.cursor())
    }

    /// Yields an exclusive reference to the next element, oldest first, or
    /// `None` once every element has been seen. A write through the yielded
    /// reference replaces exactly the element at the yielded position: the
    /// iterator's queue resolves to its old contents with that position
    /// updated to whatever the caller leaves in the reference; the forward
    /// links are unaffected.
    pub fn next(&mut self) -> (r: Option<&mut T>)
        requires
            old(self).wf(),
        ensures
            final(self).wf(),
            old(self).remaining().len() == 0 ==> r is None
                && final(self).elements() == old(self).elements()
                && final(self).cursor() == old(self).cursor(),
            old(self).remaining().len() > 0 ==> r is Some && *r.unwrap()
                == old(self).remaining().first()
                && final(self).cursor() == old(self).cursor() + 1
                && final(self).elements() == old(self).elements().update(
                old(self).cursor(),
                *final(r.unwrap()),
            ),
    {
        match self.pos {
            None => None,
            Some(i) => {
                proof {
                    self.visited@ = self.visited@ + 1;
                }
                let slot = &mut self.q.slots[i];
                let node = slot.as_mut().unwrap();
                self.pos = node.next;
                Some(&mut node.data)
            },
        }
    }
}

impl<T> UnboundQueue<T> {
    /// A mutable forward iterator over the elements, oldest first.
    pub fn iter_mut(&mut self) -> (it: IterMut<'_, T>)
        requires
            old(self).wf(),
        ensures
            it.wf(),
            it.elements() == old(self).contents(),
            it.cursor() == 0,
            it.remaining() == old(self).contents(),
    {
        let head = self.head;
        let it = IterMut { q: self, pos: head, visited: Ghost(0) };
        proof {
            assert(it.remaining() =~= it.q.contents());
        }
        it
    }

    /// An exclusive reference to the `i`-th oldest element, found by walking
    /// the forward links. A write through the reference replaces exactly
    /// that element: the queue resolves to its old contents with position
    /// `i` updated to whatever the caller leaves in the reference, and a
    /// later pop that reaches that position returns the written value.
    pub fn get_mut(&mut self, i: usize) -> (r: &mut T)
        requires
            old(self).wf(),
            i < old(self).contents().len(),
        ensures
            *r == old(self).contents()[i as int],
            final(self).wf(),
            final(self).cap_limit() == old(self).cap_limit(),
            final(self).contents() == old(self).contents().update(i as int, *final(r)),
    {
        let mut p = self.head.unwrap();
        let mut k: usize = 0;
        while k < i
            invariant
                self.wf(),
                i < self.len,
                k <= i,
                p == self.order@[k as int],
            decreases i - k,
        {
            let node = self.slots[p].as_ref().unwrap();
            p = node.next.unwrap();
            k += 1;
        }
        let slot = &mut self.slots[p];
        let node = slot.as_mut().unwrap();
        &mut node.data
    }
}

/// An owning iterator over an [`UnboundQueue`]: each step pops the oldest
/// element, so the queue drains as it is walked.
pub struct IntoIter<T>(UnboundQueue<T>);

impl<T> IntoIter<T> {
    /// Structural well-formedness of the drained queue.
    pub closed spec fn wf(&self) -> bool {
        self.0.wf()
    }

    /// The elements not yet yielded, oldest first.
    pub closed spec fn remaining(&self) -> Seq<T> {
        self.0.contents()
    }

    /// Pops and returns the oldest element still held, or `None` once the
    /// queue has drained.
    pub fn next(&mut self) -> (r: Option<T>)
        requires
            old(self).wf(),
        ensures
            final(self).wf(),
            old(self).remaining().len() == 0 ==> r is None && final(self).remaining()
                == old(self).remaining(),
            old(self).remaining().len() > 0 ==> r == Some(old(self).remaining().first())
                && final(self).remaining() == old(self).remaining().drop_first(),
    {
        self.0.pop()
    }
}

} // verus!
